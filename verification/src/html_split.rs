//! Splitting long HTML into chunks that keep tags balanced.
//!
//! The splitter tokenizes the HTML, tracks the stack of open tags, and
//! when a chunk fills up it closes the open tags, emits the chunk, and
//! reopens the tags in the next chunk.  Every produced chunk is at most
//! `limit` characters.

use vstd::prelude::*;

use crate::text::chars_string;
use crate::text::push_all;
use crate::text::push_range;
use crate::text::str_chars;

verus! {

/// One open element: its name, the exact opening tag, and the closer.
pub struct HtmlTag {
    pub name: Vec<char>,
    pub open: Vec<char>,
    pub close: Vec<char>,
}

/// Total characters of the opening tags on the stack.
pub open spec fn open_len(stack: Seq<HtmlTag>) -> int
    decreases stack.len(),
{
    if stack.len() == 0 {
        0
    } else {
        open_len(stack.drop_last()) + stack.last().open@.len()
    }
}

/// Total characters of the closing tags on the stack.
pub open spec fn close_len(stack: Seq<HtmlTag>) -> int
    decreases stack.len(),
{
    if stack.len() == 0 {
        0
    } else {
        close_len(stack.drop_last()) + stack.last().close@.len()
    }
}

fn open_len_exec(stack: &Vec<HtmlTag>) -> (r: usize)
    ensures
        r == open_len(stack@) || open_len(stack@) > usize::MAX,
        r <= open_len(stack@),
{
    let mut acc: usize = 0;
    let mut i: usize = 0;
    while i < stack.len()
        invariant
            i <= stack@.len(),
            acc <= open_len(stack@.take(i as int)),
            acc == open_len(stack@.take(i as int)) || open_len(stack@.take(i as int))
                > usize::MAX,
        decreases stack@.len() - i,
    {
        let l = stack[i].open.len();
        proof {
            assert(stack@.take(i + 1).drop_last() =~= stack@.take(i as int));
            assert(stack@.take(i + 1).last() == stack@[i as int]);
        }
        if acc <= usize::MAX - l {
            acc = acc + l;
        } else {
            acc = usize::MAX;
        }
        i += 1;
    }
    proof {
        assert(stack@.take(stack@.len() as int) =~= stack@);
    }
    acc
}

fn close_len_exec(stack: &Vec<HtmlTag>) -> (r: usize)
    ensures
        r == close_len(stack@) || close_len(stack@) > usize::MAX,
        r <= close_len(stack@),
{
    let mut acc: usize = 0;
    let mut i: usize = 0;
    while i < stack.len()
        invariant
            i <= stack@.len(),
            acc <= close_len(stack@.take(i as int)),
            acc == close_len(stack@.take(i as int)) || close_len(stack@.take(i as int))
                > usize::MAX,
        decreases stack@.len() - i,
    {
        let l = stack[i].close.len();
        proof {
            assert(stack@.take(i + 1).drop_last() =~= stack@.take(i as int));
            assert(stack@.take(i + 1).last() == stack@[i as int]);
        }
        if acc <= usize::MAX - l {
            acc = acc + l;
        } else {
            acc = usize::MAX;
        }
        i += 1;
    }
    proof {
        assert(stack@.take(stack@.len() as int) =~= stack@);
    }
    acc
}

/// Append the stack's opening tags to the chunk.
fn reopen_tags(chunk: &mut Vec<char>, stack: &Vec<HtmlTag>)
    ensures
        final(chunk)@.len() >= old(chunk)@.len(),
{
    let mut i: usize = 0;
    while i < stack.len()
        invariant
            chunk@.len() >= old(chunk)@.len(),
        decreases stack@.len() - i,
    {
        push_all(chunk, &stack[i].open);
        i += 1;
    }
}

/// Close the open tags, emit the chunk if it has content beyond its
/// opening tags, and clear it.  Every emitted chunk is cut to `limit`.
fn flush_chunk(out: &mut Vec<String>, chunk: &mut Vec<char>, stack: &Vec<HtmlTag>, limit: usize)
    requires
        forall|k: int| 0 <= k < old(out)@.len() ==> (#[trigger] old(out)@[k])@.len() <= limit,
    ensures
        forall|k: int| 0 <= k < final(out)@.len() ==> (#[trigger] final(out)@[k])@.len() <= limit,
        final(chunk)@.len() == 0,
{
    if chunk.len() == 0 {
        return ;
    }
    let ol = open_len_exec(stack);
    if chunk.len() <= ol {
        // Only opening tags: nothing worth sending.
        chunk.clear();
        return ;
    }
    let mut msg: Vec<char> = Vec::new();
    push_all(&mut msg, chunk);
    let mut i: usize = stack.len();
    while i > 0
        invariant
            i <= stack@.len(),
        decreases i,
    {
        i -= 1;
        push_all(&mut msg, &stack[i].close);
    }
    if msg.len() > limit {
        msg.truncate(limit);
    }
    let ghost prev = out@;
    out.push(chars_string(&msg));
    proof {
        assert(forall|k: int| 0 <= k < prev.len() ==> out@[k] == prev[k]);
        assert(out@[out@.len() - 1]@.len() <= limit);
    }
    chunk.clear();
}

/// What one tag token does to the stack.
pub enum TagAction {
    Open(HtmlTag),
    Close(Vec<char>),
    Noop,
}

/// The lowercased element name after `<` or `</`.
fn parse_tag_name(t: &Vec<char>, from: usize) -> (r: Vec<char>)
{
    let mut out: Vec<char> = Vec::new();
    let mut i: usize = from;
    while i < t.len()
        invariant
            from <= i,
        decreases t@.len() - i,
    {
        let c = t[i];
        let lower = if 'A' <= c && c <= 'Z' {
            (((c as u32) + 32) as u8) as char
        } else {
            c
        };
        if ('a' <= lower && lower <= 'z') || ('0' <= lower && lower <= '9') || lower == '-' {
            out.push(lower);
        } else {
            break ;
        }
        i += 1;
    }
    out
}

/// Classify a tag token: an opener (with its exact text and closer), a
/// closer naming its element, or nothing.
fn parse_tag_action(tag: &Vec<char>) -> (r: TagAction)
{
    let t = crate::text::trim_chars(tag);
    if t.len() < 2 || t[0] != '<' || t[t.len() - 1] != '>' {
        return TagAction::Noop;
    }
    if t.len() >= 2 && t[1] == '/' {
        let name = parse_tag_name(&t, 2);
        if name.len() == 0 {
            return TagAction::Noop;
        }
        return TagAction::Close(name);
    }
    if t.len() >= 2 && t[t.len() - 2] == '/' {
        return TagAction::Noop;
    }
    let name = parse_tag_name(&t, 1);
    if name.len() == 0 {
        return TagAction::Noop;
    }
    let mut close: Vec<char> = Vec::new();
    close.push('<');
    close.push('/');
    push_all(&mut close, &name);
    close.push('>');
    let mut open: Vec<char> = Vec::new();
    push_all(&mut open, &t);
    TagAction::Open(HtmlTag { name, open, close })
}

/// Apply a tag action to the stack: openers push; a closer pops until
/// its element is popped.
fn apply_tag_action(stack: &mut Vec<HtmlTag>, action: TagAction, raw_tag: &Vec<char>)
{
    match action {
        TagAction::Open(t) => {
            let mut kept = t;
            if raw_tag.len() > 0 {
                let mut open: Vec<char> = Vec::new();
                push_all(&mut open, raw_tag);
                kept.open = open;
            }
            stack.push(kept);
        },
        TagAction::Close(name) => {
            loop
                decreases stack@.len(),
            {
                if stack.len() == 0 {
                    break ;
                }
                let last = stack.pop().unwrap();
                if crate::text::chars_eq(&last.name, &name) {
                    break ;
                }
            }
        },
        TagAction::Noop => {},
    }
}

/// Emit one tag token into the chunk, flushing first when it cannot
/// fit together with the closers it implies.
fn push_tag_token(
    out: &mut Vec<String>,
    chunk: &mut Vec<char>,
    stack: &mut Vec<HtmlTag>,
    tag: &Vec<char>,
    limit: usize,
)
    requires
        forall|k: int| 0 <= k < old(out)@.len() ==> (#[trigger] old(out)@[k])@.len() <= limit,
    ensures
        forall|k: int| 0 <= k < final(out)@.len() ==> (#[trigger] final(out)@[k])@.len() <= limit,
{
    let action = parse_tag_action(tag);
    // Closers the stack would need after this action.
    let close_after: usize = match &action {
        TagAction::Open(t) => {
            let cl = close_len_exec(stack);
            if cl <= usize::MAX - t.close.len() {
                cl + t.close.len()
            } else {
                usize::MAX
            }
        },
        TagAction::Close(_) => close_len_exec(stack),
        TagAction::Noop => close_len_exec(stack),
    };
    // Make room: flush once if the tag plus closers cannot fit.
    let fits_now = chunk.len() <= usize::MAX - tag.len() && chunk.len() + tag.len() <= usize::MAX
        - close_after && chunk.len() + tag.len() + close_after <= limit;
    if !fits_now {
        flush_chunk(out, chunk, stack, limit);
        reopen_tags(chunk, stack);
        let fits_after = chunk.len() <= usize::MAX - tag.len() && chunk.len() + tag.len()
            <= usize::MAX - close_after && chunk.len() + tag.len() + close_after <= limit;
        if !fits_after {
            // Even an empty chunk cannot hold it: drop the tag.
            return ;
        }
    }
    push_all(chunk, tag);
    apply_tag_action(stack, action, tag);
}

/// Emit text into the chunk, splitting across chunks as needed.
fn push_text_token(
    out: &mut Vec<String>,
    chunk: &mut Vec<char>,
    stack: &Vec<HtmlTag>,
    text: &Vec<char>,
    limit: usize,
)
    requires
        forall|k: int| 0 <= k < old(out)@.len() ==> (#[trigger] old(out)@[k])@.len() <= limit,
    ensures
        forall|k: int| 0 <= k < final(out)@.len() ==> (#[trigger] final(out)@[k])@.len() <= limit,
{
    let mut from: usize = 0;
    let n = text.len();
    while from < n
        invariant
            from <= n,
            n == text@.len(),
            forall|k: int| 0 <= k < out@.len() ==> (#[trigger] out@[k])@.len() <= limit,
        decreases n - from,
    {
        let reserved = close_len_exec(stack);
        if reserved > limit {
            return ;
        }
        let available = limit - reserved;
        if chunk.len() >= available {
            flush_chunk(out, chunk, stack, limit);
            reopen_tags(chunk, stack);
            if chunk.len() >= available {
                // The reopened tags alone fill the chunk: drop the text.
                return ;
            }
        }
        let room = available - chunk.len();
        let take = if n - from <= room {
            n - from
        } else {
            room
        };
        if take == 0 {
            return ;
        }
        push_range(chunk, text, from, from + take);
        from = from + take;
        if from < n {
            flush_chunk(out, chunk, stack, limit);
            reopen_tags(chunk, stack);
            let cl = chunk.len();
            if cl >= available && available > 0 {
                // No progress is possible; stop rather than spin.
                return ;
            }
        }
    }
}

/// Split HTML into chunks of at most `limit` characters, closing open
/// tags at each chunk boundary and reopening them in the next chunk.
pub fn split_html_chunks(html: &str, limit: usize) -> (r: Vec<String>)
    ensures
        forall|k: int| 0 <= k < r@.len() ==> (#[trigger] r@[k])@.len() <= limit,
        html@.len() <= limit ==> r@.len() == 1 && r@[0]@ == html@,
{
    let cs = str_chars(html);
    if cs.len() <= limit {
        let mut out: Vec<String> = Vec::new();
        out.push(chars_string(&cs));
        return out;
    }
    let mut out: Vec<String> = Vec::new();
    let mut stack: Vec<HtmlTag> = Vec::new();
    let mut chunk: Vec<char> = Vec::new();
    let n = cs.len();
    let mut i: usize = 0;
    let mut lt: Vec<char> = Vec::new();
    lt.push('<');
    let mut gt: Vec<char> = Vec::new();
    gt.push('>');
    while i < n
        invariant
            i <= n,
            n == cs@.len(),
            lt@.len() == 1,
            gt@.len() == 1,
            forall|k: int| 0 <= k < out@.len() ==> (#[trigger] out@[k])@.len() <= limit,
        decreases n - i,
    {
        match crate::text::find_idx_exec(&cs, &lt, i) {
            Some(start) => {
                proof {
                    crate::text::lemma_find_idx(cs@, lt@, i as int);
                }
                if start > i {
                    let mut txt: Vec<char> = Vec::new();
                    push_range(&mut txt, &cs, i, start);
                    push_text_token(&mut out, &mut chunk, &stack, &txt, limit);
                }
                match crate::text::find_idx_exec(&cs, &gt, start) {
                    Some(end) => {
                        proof {
                            crate::text::lemma_find_idx(cs@, gt@, start as int);
                        }
                        let mut tag: Vec<char> = Vec::new();
                        push_range(&mut tag, &cs, start, end + 1);
                        push_tag_token(&mut out, &mut chunk, &mut stack, &tag, limit);
                        i = end + 1;
                    },
                    None => {
                        let mut txt: Vec<char> = Vec::new();
                        push_range(&mut txt, &cs, start, n);
                        push_text_token(&mut out, &mut chunk, &stack, &txt, limit);
                        i = n;
                    },
                }
            },
            None => {
                let mut txt: Vec<char> = Vec::new();
                push_range(&mut txt, &cs, i, n);
                push_text_token(&mut out, &mut chunk, &stack, &txt, limit);
                i = n;
            },
        }
    }
    flush_chunk(&mut out, &mut chunk, &stack, limit);
    out
}

} // verus!
