//! Markdown to constrained HTML, and tool-status rendering.
//!
//! The conversion works on characters.  Fenced and inline code are
//! lifted out first, the remaining text is escaped and transformed line
//! by line, and the code is put back wrapped in `<pre>` / `<code>`.

use vstd::prelude::*;

use crate::numbers::dec_digits;
use crate::numbers::u64_to_dec;
use crate::text::chars_string;
use crate::text::find_idx;
use crate::text::is_space;
use crate::text::join_with;
use crate::text::push_all;
use crate::text::push_range;
use crate::text::split_seq;
use crate::text::str_chars;
use crate::text::trim;

verus! {

/// The HTML escape of one character.
pub open spec fn esc_char(c: char) -> Seq<char> {
    if c == '&' {
        seq!['&', 'a', 'm', 'p', ';']
    } else if c == '<' {
        seq!['&', 'l', 't', ';']
    } else if c == '>' {
        seq!['&', 'g', 't', ';']
    } else if c == '"' {
        seq!['&', 'q', 'u', 'o', 't', ';']
    } else {
        seq![c]
    }
}

/// The HTML escape of a string: each character escaped in place.
pub open spec fn spec_escape(s: Seq<char>) -> Seq<char>
    decreases s.len(),
{
    if s.len() == 0 {
        Seq::<char>::empty()
    } else {
        esc_char(s[0]) + spec_escape(s.drop_first())
    }
}

/// Escape `& < > "` in a character vector.
pub fn escape_chars(s: &Vec<char>) -> (r: Vec<char>)
    ensures
        r@ == spec_escape(s@),
{
    let n = s.len();
    let mut out: Vec<char> = Vec::new();
    let mut i: usize = 0;
    proof {
        assert(s@.skip(0) =~= s@);
        assert(Seq::<char>::empty() + spec_escape(s@) =~= spec_escape(s@));
    }
    while i < n
        invariant
            i <= n,
            n == s@.len(),
            spec_escape(s@) == out@ + spec_escape(s@.skip(i as int)),
        decreases n - i,
    {
        proof {
            assert(s@.skip(i as int)[0] == s@[i as int]);
            assert(s@.skip(i as int).drop_first() =~= s@.skip(i + 1));
        }
        let ghost prev = out@;
        let ghost rest = spec_escape(s@.skip(i + 1));
        let c = s[i];
        if c == '&' {
            out.push('&');
            out.push('a');
            out.push('m');
            out.push('p');
            out.push(';');
        } else if c == '<' {
            out.push('&');
            out.push('l');
            out.push('t');
            out.push(';');
        } else if c == '>' {
            out.push('&');
            out.push('g');
            out.push('t');
            out.push(';');
        } else if c == '"' {
            out.push('&');
            out.push('q');
            out.push('u');
            out.push('o');
            out.push('t');
            out.push(';');
        } else {
            out.push(c);
        }
        proof {
            assert(out@ =~= prev + esc_char(s@[i as int]));
            assert(prev + (esc_char(s@[i as int]) + rest) =~= (prev + esc_char(s@[i as int]))
                + rest);
        }
        i += 1;
    }
    proof {
        assert(s@.skip(n as int) =~= Seq::<char>::empty());
    }
    out
}

/// Escape HTML special characters.
pub fn escape_html(text: &str) -> (r: String)
    ensures
        r@ == spec_escape(text@),
{
    let cs = str_chars(text);
    let out = escape_chars(&cs);
    chars_string(&out)
}

/// A line that is only a horizontal rule: at least three characters
/// after trimming, all `-` or `*`.
pub open spec fn is_rule_line(l: Seq<char>) -> bool {
    let t = trim(l);
    t.len() >= 3 && forall|k: int| 0 <= k < t.len() ==> t[k] == '-' || t[k] == '*'
}

/// The lines kept after removing horizontal rules.
pub open spec fn keep_lines(lines: Seq<Seq<char>>) -> Seq<Seq<char>>
    decreases lines.len(),
{
    if lines.len() == 0 {
        Seq::<Seq<char>>::empty()
    } else if is_rule_line(lines[0]) {
        keep_lines(lines.drop_first())
    } else {
        seq![lines[0]] + keep_lines(lines.drop_first())
    }
}

/// A line with a leading `- ` or `* ` turned into a bullet.
pub open spec fn spec_bullet_line(l: Seq<char>) -> Seq<char> {
    if l.len() >= 2 && (l[0] == '-' || l[0] == '*') && l[1] == ' ' {
        seq!['\u{2022}', ' '] + l.skip(2)
    } else {
        l
    }
}

/// Transform one line's leading list marker.
fn bullet_line(l: &Vec<char>) -> (r: Vec<char>)
    ensures
        r@ == spec_bullet_line(l@),
{
    if l.len() >= 2 && (l[0] == '-' || l[0] == '*') && l[1] == ' ' {
        let mut out: Vec<char> = Vec::new();
        out.push('\u{2022}');
        out.push(' ');
        push_range(&mut out, l, 2, l.len());
        proof {
            assert(out@ =~= seq!['\u{2022}', ' '] + l@.skip(2));
        }
        out
    } else {
        let mut out: Vec<char> = Vec::new();
        push_all(&mut out, l);
        proof {
            assert(out@ =~= l@);
        }
        out
    }
}

/// Bullet-normalize every line.
pub open spec fn spec_bullets(s: Seq<char>) -> Seq<char> {
    join_with(split_seq(s, '\n').map_values(|l: Seq<char>| spec_bullet_line(l)), seq!['\n'])
}

/// Remove horizontal-rule lines.
pub open spec fn spec_remove_rules(s: Seq<char>) -> Seq<char> {
    join_with(keep_lines(split_seq(s, '\n')), seq!['\n'])
}

/// Apply the bullet transform to the whole text.
fn bullets_stage(s: &Vec<char>) -> (r: Vec<char>)
    ensures
        r@ == spec_bullets(s@),
{
    let lines = crate::text::split_chars(s, '\n');
    let ghost glines = lines@.map_values(|l: Vec<char>| l@);
    let mut mapped: Vec<Vec<char>> = Vec::new();
    let mut i: usize = 0;
    while i < lines.len()
        invariant
            i <= glines.len(),
            glines == lines@.map_values(|l: Vec<char>| l@),
            mapped@.map_values(|l: Vec<char>| l@) == glines.take(i as int).map_values(
                |l: Seq<char>| spec_bullet_line(l),
            ),
        decreases glines.len() - i,
    {
        let ghost prev = mapped@.map_values(|l: Vec<char>| l@);
        let b = bullet_line(&lines[i]);
        mapped.push(b);
        proof {
            assert(mapped@.map_values(|l: Vec<char>| l@) =~= prev.push(
                spec_bullet_line(glines[i as int]),
            ));
            assert(glines.take(i + 1).map_values(|l: Seq<char>| spec_bullet_line(l)) =~= glines.take(
                i as int,
            ).map_values(|l: Seq<char>| spec_bullet_line(l)).push(
                spec_bullet_line(glines[i as int]),
            ));
        }
        i += 1;
    }
    proof {
        assert(glines.take(glines.len() as int) =~= glines);
    }
    let mut nl: Vec<char> = Vec::new();
    nl.push('\n');
    assert(nl@ =~= seq!['\n']);
    crate::text::join_chars(&mapped, &nl)
}

/// Drop horizontal-rule lines from the whole text.
fn rules_stage(s: &Vec<char>) -> (r: Vec<char>)
    ensures
        r@ == spec_remove_rules(s@),
{
    let lines = crate::text::split_chars(s, '\n');
    let ghost glines = lines@.map_values(|l: Vec<char>| l@);
    let mut kept: Vec<Vec<char>> = Vec::new();
    let mut i: usize = 0;
    proof {
        assert(glines.skip(0) =~= glines);
        assert(kept@.map_values(|l: Vec<char>| l@) =~= Seq::<Seq<char>>::empty());
        assert(Seq::<Seq<char>>::empty() + keep_lines(glines) =~= keep_lines(glines));
    }
    while i < lines.len()
        invariant
            i <= glines.len(),
            glines == lines@.map_values(|l: Vec<char>| l@),
            keep_lines(glines) == kept@.map_values(|l: Vec<char>| l@) + keep_lines(
                glines.skip(i as int),
            ),
        decreases glines.len() - i,
    {
        proof {
            assert(glines.skip(i as int)[0] == glines[i as int]);
            assert(glines.skip(i as int).drop_first() =~= glines.skip(i + 1));
        }
        let t = crate::text::trim_chars(&lines[i]);
        let mut all_rule = t.len() >= 3;
        let mut k: usize = 0;
        while k < t.len()
            invariant
                k <= t@.len(),
                all_rule == (t@.len() >= 3 && forall|j: int|
                    0 <= j < k ==> t@[j] == '-' || t@[j] == '*'),
            decreases t@.len() - k,
        {
            if t[k] != '-' && t[k] != '*' {
                all_rule = false;
            }
            k += 1;
        }
        proof {
            assert(all_rule == is_rule_line(glines[i as int]));
        }
        let ghost prev = kept@.map_values(|l: Vec<char>| l@);
        let ghost rest = keep_lines(glines.skip(i + 1));
        if !all_rule {
            let mut copy: Vec<char> = Vec::new();
            push_all(&mut copy, &lines[i]);
            proof {
                assert(copy@ =~= glines[i as int]);
            }
            kept.push(copy);
            proof {
                assert(kept@.map_values(|l: Vec<char>| l@) =~= prev + seq![glines[i as int]]);
                assert(prev + (seq![glines[i as int]] + rest) =~= (prev + seq![glines[i as int]])
                    + rest);
            }
        }
        i += 1;
    }
    proof {
        assert(glines.skip(glines.len() as int) =~= Seq::<Seq<char>>::empty());
    }
    let mut nl: Vec<char> = Vec::new();
    nl.push('\n');
    assert(nl@ =~= seq!['\n']);
    crate::text::join_chars(&kept, &nl)
}

/// Newline runs capped at two; `run` counts the newlines just emitted.
pub open spec fn collapse_acc(s: Seq<char>, run: int) -> Seq<char>
    decreases s.len(),
{
    if s.len() == 0 {
        Seq::<char>::empty()
    } else if s[0] == '\n' {
        if run >= 2 {
            collapse_acc(s.drop_first(), run)
        } else {
            seq!['\n'] + collapse_acc(s.drop_first(), run + 1)
        }
    } else {
        seq![s[0]] + collapse_acc(s.drop_first(), 0)
    }
}

/// Collapse three or more consecutive newlines to two.
pub open spec fn spec_collapse(s: Seq<char>) -> Seq<char> {
    collapse_acc(s, 0)
}

/// Cap newline runs at two.
fn collapse_newlines(s: &Vec<char>) -> (r: Vec<char>)
    ensures
        r@ == spec_collapse(s@),
{
    let n = s.len();
    let mut out: Vec<char> = Vec::new();
    let mut run: usize = 0;
    let mut i: usize = 0;
    proof {
        assert(s@.skip(0) =~= s@);
        assert(Seq::<char>::empty() + collapse_acc(s@, 0) =~= collapse_acc(s@, 0));
    }
    while i < n
        invariant
            i <= n,
            n == s@.len(),
            run <= 2,
            spec_collapse(s@) == out@ + collapse_acc(s@.skip(i as int), run as int),
        decreases n - i,
    {
        proof {
            assert(s@.skip(i as int)[0] == s@[i as int]);
            assert(s@.skip(i as int).drop_first() =~= s@.skip(i + 1));
        }
        let ghost prev = out@;
        let c = s[i];
        if c == '\n' {
            if run < 2 {
                out.push('\n');
                run += 1;
                proof {
                    let rest = collapse_acc(s@.skip(i + 1), run as int);
                    assert(out@ =~= prev + seq!['\n']);
                    assert(prev + (seq!['\n'] + rest) =~= (prev + seq!['\n']) + rest);
                }
            }
        } else {
            out.push(c);
            run = 0;
            proof {
                let rest = collapse_acc(s@.skip(i + 1), 0);
                assert(out@ =~= prev + seq![s@[i as int]]);
                assert(prev + (seq![s@[i as int]] + rest) =~= (prev + seq![s@[i as int]]) + rest);
            }
        }
        i += 1;
    }
    proof {
        assert(s@.skip(n as int) =~= Seq::<char>::empty());
    }
    out
}

/// Leading `#` characters, counted up to six.
pub open spec fn hash_count(l: Seq<char>, i: int) -> int
    decreases l.len() - i when 0 <= i <= l.len()
{
    if i < l.len() && l[i] == '#' && i < 6 {
        hash_count(l, i + 1)
    } else {
        i
    }
}

/// A heading line `#...# text` turned into a bold line.
pub open spec fn spec_header_line(l: Seq<char>) -> Seq<char> {
    let h = hash_count(l, 0);
    if h == 0 {
        l
    } else if h < l.len() && l[h] == ' ' {
        seq!['<', 'b', '>'] + l.skip(h + 1) + seq!['<', '/', 'b', '>']
    } else {
        l
    }
}

/// Convert a heading line to bold.
pub fn convert_header_line(l: &Vec<char>) -> (r: Vec<char>)
    ensures
        r@ == spec_header_line(l@),
{
    let n = l.len();
    let mut h: usize = 0;
    while h < n && l[h] == '#' && h < 6
        invariant
            h <= n,
            n == l@.len(),
            h <= 6,
            hash_count(l@, 0) == hash_count(l@, h as int),
        decreases n - h,
    {
        h += 1;
    }
    proof {
        assert(hash_count(l@, h as int) == h);
    }
    let mut out: Vec<char> = Vec::new();
    if h == 0 {
        push_all(&mut out, l);
        proof {
            assert(out@ =~= l@);
        }
        return out;
    }
    if h < n && l[h] == ' ' {
        out.push('<');
        out.push('b');
        out.push('>');
        push_range(&mut out, l, h + 1, n);
        out.push('<');
        out.push('/');
        out.push('b');
        out.push('>');
        proof {
            assert(out@ =~= seq!['<', 'b', '>'] + l@.skip(h + 1) + seq!['<', '/', 'b', '>']);
        }
        return out;
    }
    push_all(&mut out, l);
    proof {
        assert(out@ =~= l@);
    }
    out
}

/// Pairs of the two-character delimiter replaced by open/close tags;
/// an unpaired delimiter leaves the rest unchanged.
pub open spec fn spec_replace_delim(
    s: Seq<char>,
    delim: Seq<char>,
    open: Seq<char>,
    close: Seq<char>,
) -> Seq<char>
    decreases s.len() when delim.len() >= 1 via spec_replace_delim_dec
{
    let i = find_idx(s, delim, 0);
    if i < 0 {
        s
    } else {
        let j = find_idx(s, delim, i + delim.len());
        if j < 0 {
            s
        } else {
            s.take(i) + open + s.subrange(i + delim.len(), j) + close + spec_replace_delim(
                s.skip(j + delim.len()),
                delim,
                open,
                close,
            )
        }
    }
}

#[via_fn]
proof fn spec_replace_delim_dec(s: Seq<char>, delim: Seq<char>, open: Seq<char>, close: Seq<char>) {
    crate::text::lemma_find_idx(s, delim, 0);
    let i = find_idx(s, delim, 0);
    if i >= 0 {
        crate::text::lemma_find_idx(s, delim, i + delim.len());
    }
}

/// Replace paired two-character delimiters with tags.
pub fn replace_delimited(text: &Vec<char>, delim: &Vec<char>, open: &Vec<char>, close: &Vec<
    char,
>) -> (r: Vec<char>)
    requires
        delim@.len() >= 1,
    ensures
        r@ == spec_replace_delim(text@, delim@, open@, close@),
    decreases text@.len(),
{
    let tn = text.len();
    let i = match crate::text::find_idx_exec(text, delim, 0) {
        Some(i) => i,
        None => {
            let mut out: Vec<char> = Vec::new();
            push_all(&mut out, text);
            proof {
                assert(out@ =~= text@);
            }
            return out;
        },
    };
    proof {
        crate::text::lemma_find_idx(text@, delim@, 0);
    }
    let j = match crate::text::find_idx_exec(text, delim, i + delim.len()) {
        Some(j) => j,
        None => {
            let mut out: Vec<char> = Vec::new();
            push_all(&mut out, text);
            proof {
                assert(out@ =~= text@);
            }
            return out;
        },
    };
    proof {
        crate::text::lemma_find_idx(text@, delim@, i + delim@.len());
    }
    let mut out: Vec<char> = Vec::new();
    push_range(&mut out, text, 0, i);
    push_all(&mut out, open);
    push_range(&mut out, text, i + delim.len(), j);
    push_all(&mut out, close);
    let mut rest: Vec<char> = Vec::new();
    push_range(&mut rest, text, j + delim.len(), tn);
    proof {
        assert(rest@ =~= text@.skip(j + delim@.len()));
    }
    let tail = replace_delimited(&rest, delim, open, close);
    push_all(&mut out, &tail);
    proof {
        assert(out@ =~= text@.take(i as int) + open@ + text@.subrange(i + delim@.len(), j as int)
            + close@ + spec_replace_delim(text@.skip(j + delim@.len()), delim@, open@, close@));
    }
    out
}

/// A valid single-delimiter position: the character itself, not
/// doubled on either side.
pub open spec fn sd_at(s: Seq<char>, i: int, delim: char) -> bool {
    &&& 0 <= i < s.len()
    &&& s[i] == delim
    &&& !(i > 0 && s[i - 1] == delim)
    &&& !(i + 1 < s.len() && s[i + 1] == delim)
}

/// The first valid closing delimiter at or after `j`, stopping at the
/// end of the line; `-1` when there is none.
pub open spec fn sd_close(s: Seq<char>, j: int, delim: char) -> int
    decreases s.len() - j when 0 <= j
{
    if j >= s.len() {
        -1
    } else if s[j] == '\n' {
        -1
    } else if sd_at(s, j, delim) {
        j
    } else {
        sd_close(s, j + 1, delim)
    }
}

proof fn lemma_sd_close(s: Seq<char>, j: int, delim: char)
    requires
        0 <= j,
    ensures
        sd_close(s, j, delim) == -1 || (j <= sd_close(s, j, delim) < s.len()),
    decreases s.len() - j,
{
    if j < s.len() && s[j] != '\n' && !sd_at(s, j, delim) {
        lemma_sd_close(s, j + 1, delim);
    }
}

/// Single-character emphasis applied from position `i` on: a valid
/// delimiter with a matching close on the same line wraps the span in
/// the tags; otherwise characters pass through.
pub open spec fn sd_from(
    s: Seq<char>,
    i: int,
    delim: char,
    open: Seq<char>,
    close: Seq<char>,
) -> Seq<char>
    decreases s.len() - i when 0 <= i via sd_from_dec
{
    if i >= s.len() {
        Seq::<char>::empty()
    } else if sd_at(s, i, delim) {
        let j = sd_close(s, i + 1, delim);
        if j < 0 {
            seq![delim] + sd_from(s, i + 1, delim, open, close)
        } else {
            open + s.subrange(i + 1, j) + close + sd_from(s, j + 1, delim, open, close)
        }
    } else {
        seq![s[i]] + sd_from(s, i + 1, delim, open, close)
    }
}

#[via_fn]
proof fn sd_from_dec(s: Seq<char>, i: int, delim: char, open: Seq<char>, close: Seq<char>) {
    if 0 <= i < s.len() && sd_at(s, i, delim) {
        lemma_sd_close(s, i + 1, delim);
    }
}

/// The single-delimiter emphasis transform of a whole text.
pub open spec fn spec_single_delim(
    s: Seq<char>,
    delim: char,
    open: Seq<char>,
    close: Seq<char>,
) -> Seq<char> {
    sd_from(s, 0, delim, open, close)
}

/// Find the first valid closing delimiter on the same line.
fn sd_close_exec(text: &Vec<char>, from: usize, delim: char) -> (r: Option<usize>)
    ensures
        match r {
            Some(j) => from <= j && j as int == sd_close(text@, from as int, delim) && j
                < text@.len(),
            None => sd_close(text@, from as int, delim) == -1,
        },
{
    let n = text.len();
    let mut j: usize = from;
    while j < n
        invariant
            from <= j,
            n == text@.len(),
            sd_close(text@, from as int, delim) == sd_close(text@, j as int, delim),
        decreases n - j,
    {
        if text[j] == '\n' {
            return None;
        }
        let valid = text[j] == delim && !(j > 0 && text[j - 1] == delim) && !(j + 1 < n && text[j
            + 1] == delim);
        proof {
            assert(valid == sd_at(text@, j as int, delim));
        }
        if valid {
            return Some(j);
        }
        j += 1;
    }
    None
}

/// Replace single-character emphasis delimiters, skipping doubled
/// ones, closing only on the same line.
pub fn replace_single_delim(text: &Vec<char>, delim: char, open: &Vec<char>, close: &Vec<
    char,
>) -> (r: Vec<char>)
    ensures
        r@ == spec_single_delim(text@, delim, open@, close@),
{
    let n = text.len();
    let mut out: Vec<char> = Vec::new();
    let mut i: usize = 0;
    proof {
        assert(Seq::<char>::empty() + sd_from(text@, 0, delim, open@, close@) =~= sd_from(
            text@,
            0,
            delim,
            open@,
            close@,
        ));
    }
    while i < n
        invariant
            i <= n,
            n == text@.len(),
            spec_single_delim(text@, delim, open@, close@) == out@ + sd_from(
                text@,
                i as int,
                delim,
                open@,
                close@,
            ),
        decreases n - i,
    {
        let ghost prev = out@;
        let is_open = text[i] == delim && !(i > 0 && text[i - 1] == delim) && !(i + 1 < n && text[i
            + 1] == delim);
        proof {
            assert(is_open == sd_at(text@, i as int, delim));
        }
        if is_open {
            match sd_close_exec(text, i + 1, delim) {
                Some(jj) => {
                    proof {
                        lemma_sd_close(text@, i + 1, delim);
                    }
                    let ghost rest = sd_from(text@, jj + 1, delim, open@, close@);
                    push_all(&mut out, open);
                    push_range(&mut out, text, i + 1, jj);
                    push_all(&mut out, close);
                    proof {
                        assert(out@ =~= prev + (open@ + text@.subrange(i + 1, jj as int)
                            + close@));
                        assert(prev + (open@ + text@.subrange(i + 1, jj as int) + close@ + rest)
                            =~= (prev + (open@ + text@.subrange(i + 1, jj as int) + close@))
                            + rest);
                    }
                    i = jj + 1;
                },
                None => {
                    let ghost rest = sd_from(text@, i + 1, delim, open@, close@);
                    out.push(delim);
                    proof {
                        assert(out@ =~= prev + seq![delim]);
                        assert(prev + (seq![delim] + rest) =~= (prev + seq![delim]) + rest);
                    }
                    i += 1;
                },
            }
        } else {
            let ghost rest = sd_from(text@, i + 1, delim, open@, close@);
            out.push(text[i]);
            proof {
                assert(out@ =~= prev + seq![text@[i as int]]);
                assert(prev + (seq![text@[i as int]] + rest) =~= (prev + seq![text@[i as int]])
                    + rest);
            }
            i += 1;
        }
    }
    proof {
        assert(sd_from(text@, n as int, delim, open@, close@) =~= Seq::<char>::empty());
    }
    out
}

/// A quoted line after escaping: exactly `&gt;` or starting `&gt; `.
pub open spec fn is_quote_line(l: Seq<char>) -> bool {
    l == seq!['&', 'g', 't', ';'] || (l.len() >= 5 && l.take(5) == seq!['&', 'g', 't', ';', ' '])
}

/// The `#` characters removed from a quoted line's content.
pub open spec fn remove_hash(s: Seq<char>) -> Seq<char>
    decreases s.len(),
{
    if s.len() == 0 {
        Seq::<char>::empty()
    } else if s[0] == '#' {
        remove_hash(s.drop_first())
    } else {
        seq![s[0]] + remove_hash(s.drop_first())
    }
}

/// The quoted content of a quote line.
pub open spec fn quote_content(l: Seq<char>) -> Seq<char> {
    if l == seq!['&', 'g', 't', ';'] {
        Seq::<char>::empty()
    } else {
        remove_hash(l.skip(5))
    }
}

/// A gathered quote block wrapped in one tag.
pub open spec fn wrap_quote(block: Seq<Seq<char>>) -> Seq<char> {
    seq!['<', 'b', 'l', 'o', 'c', 'k', 'q', 'u', 'o', 't', 'e', '>'] + join_with(
        block,
        seq!['\n'],
    ) + seq!['<', '/', 'b', 'l', 'o', 'c', 'k', 'q', 'u', 'o', 't', 'e', '>']
}

/// Group consecutive quote lines into blocks; `block` holds the
/// contents gathered so far and `in_block` whether a block is open.
pub open spec fn bq_acc(lines: Seq<Seq<char>>, block: Seq<Seq<char>>, in_block: bool) -> Seq<
    Seq<char>,
>
    decreases lines.len(),
{
    if lines.len() == 0 {
        if in_block {
            seq![wrap_quote(block)]
        } else {
            Seq::<Seq<char>>::empty()
        }
    } else if is_quote_line(lines[0]) {
        bq_acc(lines.drop_first(), block.push(quote_content(lines[0])), true)
    } else if in_block {
        seq![wrap_quote(block), lines[0]] + bq_acc(
            lines.drop_first(),
            Seq::<Seq<char>>::empty(),
            false,
        )
    } else {
        seq![lines[0]] + bq_acc(lines.drop_first(), Seq::<Seq<char>>::empty(), false)
    }
}

/// Blockquote grouping over the whole text.
pub open spec fn spec_blockquotes(s: Seq<char>) -> Seq<char> {
    join_with(bq_acc(split_seq(s, '\n'), Seq::<Seq<char>>::empty(), false), seq!['\n'])
}

/// Remove `#` from a quoted line's content.
fn remove_hash_exec(s: &Vec<char>) -> (r: Vec<char>)
    ensures
        r@ == remove_hash(s@),
{
    let n = s.len();
    let mut out: Vec<char> = Vec::new();
    let mut i: usize = 0;
    proof {
        assert(s@.skip(0) =~= s@);
        assert(Seq::<char>::empty() + remove_hash(s@) =~= remove_hash(s@));
    }
    while i < n
        invariant
            i <= n,
            n == s@.len(),
            remove_hash(s@) == out@ + remove_hash(s@.skip(i as int)),
        decreases n - i,
    {
        proof {
            assert(s@.skip(i as int)[0] == s@[i as int]);
            assert(s@.skip(i as int).drop_first() =~= s@.skip(i + 1));
        }
        let ghost prev = out@;
        let ghost rest = remove_hash(s@.skip(i + 1));
        if s[i] != '#' {
            out.push(s[i]);
            proof {
                assert(out@ =~= prev + seq![s@[i as int]]);
                assert(prev + (seq![s@[i as int]] + rest) =~= (prev + seq![s@[i as int]]) + rest);
            }
        }
        i += 1;
    }
    proof {
        assert(s@.skip(n as int) =~= Seq::<char>::empty());
    }
    out
}

/// Group consecutive quoted lines into `<blockquote>` elements.
pub fn convert_blockquotes(s: &Vec<char>) -> (r: Vec<char>)
    ensures
        r@ == spec_blockquotes(s@),
{
    let lines = crate::text::split_chars(s, '\n');
    let ghost glines = lines@.map_values(|l: Vec<char>| l@);
    let mut out_lines: Vec<Vec<char>> = Vec::new();
    let mut block: Vec<Vec<char>> = Vec::new();
    let mut in_block = false;
    let mut i: usize = 0;
    let quote_bare = str_chars("&gt;");
    let quote_sp = str_chars("&gt; ");
    proof {
        reveal_strlit("&gt;");
        reveal_strlit("&gt; ");
        assert(quote_bare@ =~= seq!['&', 'g', 't', ';']);
        assert(quote_sp@ =~= seq!['&', 'g', 't', ';', ' ']);
        assert(glines.skip(0) =~= glines);
        assert(out_lines@.map_values(|l: Vec<char>| l@) =~= Seq::<Seq<char>>::empty());
        assert(block@.map_values(|l: Vec<char>| l@) =~= Seq::<Seq<char>>::empty());
        assert(Seq::<Seq<char>>::empty() + bq_acc(glines, Seq::<Seq<char>>::empty(), false)
            =~= bq_acc(glines, Seq::<Seq<char>>::empty(), false));
    }
    while i < lines.len()
        invariant
            i <= glines.len(),
            glines == lines@.map_values(|l: Vec<char>| l@),
            quote_bare@ == seq!['&', 'g', 't', ';'],
            quote_sp@ == seq!['&', 'g', 't', ';', ' '],
            bq_acc(glines, Seq::<Seq<char>>::empty(), false) == out_lines@.map_values(
                |l: Vec<char>| l@,
            ) + bq_acc(glines.skip(i as int), block@.map_values(|l: Vec<char>| l@), in_block),
        decreases glines.len() - i,
    {
        proof {
            assert(glines.skip(i as int)[0] == glines[i as int]);
            assert(glines.skip(i as int).drop_first() =~= glines.skip(i + 1));
        }
        let line = &lines[i];
        let is_bare = crate::text::chars_eq(line, &quote_bare);
        let mut is_sp = false;
        if !is_bare && line.len() >= 5 {
            is_sp = crate::text::matches_prefix_at(line, &quote_sp, 0);
            proof {
                if crate::text::matches_at(line@, quote_sp@, 0) {
                    assert(line@.take(5) =~= quote_sp@);
                } else {
                    if line@.take(5) == quote_sp@ {
                        assert(crate::text::matches_at(line@, quote_sp@, 0)) by {
                            assert(forall|k: int|
                                0 <= k < 5 ==> line@[k] == #[trigger] line@.take(5)[k]);
                        }
                    }
                }
            }
        }
        proof {
            if !is_bare && line@.len() < 5 {
                assert(!is_quote_line(glines[i as int]));
            }
        }
        let ghost gout = out_lines@.map_values(|l: Vec<char>| l@);
        let ghost gblock = block@.map_values(|l: Vec<char>| l@);
        if is_bare || is_sp {
            let content: Vec<char> = if is_bare {
                Vec::new()
            } else {
                let mut tail: Vec<char> = Vec::new();
                push_range(&mut tail, line, 5, line.len());
                proof {
                    assert(tail@ =~= line@.skip(5));
                }
                remove_hash_exec(&tail)
            };
            proof {
                assert(content@ == quote_content(glines[i as int]));
            }
            block.push(content);
            in_block = true;
            proof {
                assert(block@.map_values(|l: Vec<char>| l@) =~= gblock.push(
                    quote_content(glines[i as int]),
                ));
            }
        } else {
            let ghost rest = bq_acc(glines.skip(i + 1), Seq::<Seq<char>>::empty(), false);
            if in_block {
                let mut nl: Vec<char> = Vec::new();
                nl.push('\n');
                assert(nl@ =~= seq!['\n']);
                let joined = crate::text::join_chars(&block, &nl);
                let mut wrapped: Vec<char> = Vec::new();
                let topen = str_chars("<blockquote>");
                let tclose = str_chars("</blockquote>");
                proof {
                    reveal_strlit("<blockquote>");
                    reveal_strlit("</blockquote>");
                    assert(topen@ =~= seq!['<', 'b', 'l', 'o', 'c', 'k', 'q', 'u', 'o', 't', 'e', '>']);
                    assert(tclose@ =~= seq!['<', '/', 'b', 'l', 'o', 'c', 'k', 'q', 'u', 'o', 't', 'e', '>']);
                }
                push_all(&mut wrapped, &topen);
                push_all(&mut wrapped, &joined);
                push_all(&mut wrapped, &tclose);
                proof {
                    assert(wrapped@ =~= wrap_quote(gblock));
                }
                out_lines.push(wrapped);
                let mut copy: Vec<char> = Vec::new();
                push_all(&mut copy, line);
                proof {
                    assert(copy@ =~= glines[i as int]);
                }
                out_lines.push(copy);
                block = Vec::new();
                in_block = false;
                proof {
                    assert(out_lines@.map_values(|l: Vec<char>| l@) =~= gout + seq![
                        wrap_quote(gblock),
                        glines[i as int],
                    ]);
                    assert(block@.map_values(|l: Vec<char>| l@) =~= Seq::<Seq<char>>::empty());
                    assert(gout + (seq![wrap_quote(gblock), glines[i as int]] + rest) =~= (gout
                        + seq![wrap_quote(gblock), glines[i as int]]) + rest);
                }
            } else {
                let mut copy: Vec<char> = Vec::new();
                push_all(&mut copy, line);
                proof {
                    assert(copy@ =~= glines[i as int]);
                }
                out_lines.push(copy);
                block = Vec::new();
                proof {
                    assert(out_lines@.map_values(|l: Vec<char>| l@) =~= gout + seq![glines[i as int]]);
                    assert(block@.map_values(|l: Vec<char>| l@) =~= Seq::<Seq<char>>::empty());
                    assert(gout + (seq![glines[i as int]] + rest) =~= (gout + seq![glines[i as int]])
                        + rest);
                }
            }
        }
        i += 1;
    }
    proof {
        assert(glines.skip(glines.len() as int) =~= Seq::<Seq<char>>::empty());
    }
    if in_block {
        let ghost gout = out_lines@.map_values(|l: Vec<char>| l@);
        let ghost gblock = block@.map_values(|l: Vec<char>| l@);
        let mut nl: Vec<char> = Vec::new();
        nl.push('\n');
        assert(nl@ =~= seq!['\n']);
        let joined = crate::text::join_chars(&block, &nl);
        let mut wrapped: Vec<char> = Vec::new();
        let topen = str_chars("<blockquote>");
        let tclose = str_chars("</blockquote>");
        proof {
            reveal_strlit("<blockquote>");
            reveal_strlit("</blockquote>");
            assert(topen@ =~= seq!['<', 'b', 'l', 'o', 'c', 'k', 'q', 'u', 'o', 't', 'e', '>']);
            assert(tclose@ =~= seq!['<', '/', 'b', 'l', 'o', 'c', 'k', 'q', 'u', 'o', 't', 'e', '>']);
        }
        push_all(&mut wrapped, &topen);
        push_all(&mut wrapped, &joined);
        push_all(&mut wrapped, &tclose);
        proof {
            assert(wrapped@ =~= wrap_quote(gblock));
        }
        out_lines.push(wrapped);
        proof {
            assert(out_lines@.map_values(|l: Vec<char>| l@) =~= gout + seq![wrap_quote(gblock)]);
        }
    }
    let mut nl: Vec<char> = Vec::new();
    nl.push('\n');
    assert(nl@ =~= seq!['\n']);
    crate::text::join_chars(&out_lines, &nl)
}

/// Markdown links `[text](url)` replaced by anchors, scanning from
/// position `i`.
pub open spec fn links_at(s: Seq<char>, i: int) -> Seq<char>
    decreases s.len() - i when 0 <= i via links_at_dec
{
    if i >= s.len() {
        Seq::<char>::empty()
    } else if s[i] == '[' {
        let q = find_idx(s, seq![']'], i + 1);
        if q >= 0 && q > i + 1 && q + 1 < s.len() && s[q + 1] == '(' {
            let r = find_idx(s, seq![')'], q + 2);
            if r >= 0 && r > q + 2 {
                seq!['<', 'a', ' ', 'h', 'r', 'e', 'f', '=', '"'] + s.subrange(q + 2, r) + seq![
                    '"',
                    '>',
                ] + s.subrange(i + 1, q) + seq!['<', '/', 'a', '>'] + links_at(s, r + 1)
            } else {
                seq![s[i]] + links_at(s, i + 1)
            }
        } else {
            seq![s[i]] + links_at(s, i + 1)
        }
    } else {
        seq![s[i]] + links_at(s, i + 1)
    }
}

#[via_fn]
proof fn links_at_dec(s: Seq<char>, i: int) {
    if 0 <= i < s.len() && s[i] == '[' {
        crate::text::lemma_find_idx(s, seq![']'], i + 1);
        let q = find_idx(s, seq![']'], i + 1);
        if q >= 0 {
            crate::text::lemma_find_idx(s, seq![')'], q + 2);
        }
    }
}

/// The link transform of the whole text.
pub open spec fn spec_links(s: Seq<char>) -> Seq<char> {
    links_at(s, 0)
}

/// Replace `[text](url)` with `<a href="url">text</a>`.
fn links_stage(s: &Vec<char>) -> (r: Vec<char>)
    ensures
        r@ == spec_links(s@),
{
    let n = s.len();
    let mut out: Vec<char> = Vec::new();
    let mut i: usize = 0;
    let mut rb: Vec<char> = Vec::new();
    rb.push(']');
    assert(rb@ =~= seq![']']);
    let mut rp: Vec<char> = Vec::new();
    rp.push(')');
    assert(rp@ =~= seq![')']);
    proof {
        assert(Seq::<char>::empty() + links_at(s@, 0) =~= links_at(s@, 0));
    }
    while i < n
        invariant
            i <= n,
            n == s@.len(),
            rb@ == seq![']'],
            rp@ == seq![')'],
            spec_links(s@) == out@ + links_at(s@, i as int),
        decreases n - i,
    {
        let ghost prev = out@;
        let mut matched = false;
        let mut text_to: usize = 0;
        let mut url_to: usize = 0;
        if s[i] == '[' {
            match crate::text::find_idx_exec(s, &rb, i + 1) {
                Some(q) => {
                    proof {
                        crate::text::lemma_find_idx(s@, seq![']'], i + 1);
                    }
                    if q > i + 1 && q + 1 < n && s[q + 1] == '(' {
                        match crate::text::find_idx_exec(s, &rp, q + 2) {
                            Some(r) => {
                                proof {
                                    crate::text::lemma_find_idx(s@, seq![')'], q + 2);
                                }
                                if r > q + 2 {
                                    matched = true;
                                    text_to = q;
                                    url_to = r;
                                }
                            },
                            None => {},
                        }
                    }
                },
                None => {},
            }
        }
        if matched {
            let q = text_to;
            let r = url_to;
            let ghost rest = links_at(s@, r + 1);
            let pre = str_chars("<a href=\"");
            let mid = str_chars("\">");
            let post = str_chars("</a>");
            proof {
                reveal_strlit("<a href=\"");
                reveal_strlit("\">");
                reveal_strlit("</a>");
                assert(pre@ =~= seq!['<', 'a', ' ', 'h', 'r', 'e', 'f', '=', '"']);
                assert(mid@ =~= seq!['"', '>']);
                assert(post@ =~= seq!['<', '/', 'a', '>']);
            }
            push_all(&mut out, &pre);
            push_range(&mut out, s, q + 2, r);
            push_all(&mut out, &mid);
            push_range(&mut out, s, i + 1, q);
            push_all(&mut out, &post);
            proof {
                let piece = seq!['<', 'a', ' ', 'h', 'r', 'e', 'f', '=', '"'] + s@.subrange(
                    q + 2,
                    r as int,
                ) + seq!['"', '>'] + s@.subrange(i + 1, q as int) + seq!['<', '/', 'a', '>'];
                assert(out@ =~= prev + piece);
                assert(prev + (piece + rest) =~= (prev + piece) + rest);
            }
            i = r + 1;
        } else {
            let ghost rest = links_at(s@, i + 1);
            out.push(s[i]);
            proof {
                assert(out@ =~= prev + seq![s@[i as int]]);
                assert(prev + (seq![s@[i as int]] + rest) =~= (prev + seq![s@[i as int]]) + rest);
            }
            i += 1;
        }
    }
    proof {
        assert(links_at(s@, n as int) =~= Seq::<char>::empty());
    }
    out
}

/// A character of a fence's language tag.
pub open spec fn is_lang_char(c: char) -> bool {
    ('a' <= c && c <= 'z') || ('A' <= c && c <= 'Z') || ('0' <= c && c <= '9') || c == '_'
}

/// The position after a fence's language tag.
pub open spec fn skip_lang(s: Seq<char>, p: int) -> int
    decreases s.len() - p when 0 <= p
{
    if p < s.len() && is_lang_char(s[p]) {
        skip_lang(s, p + 1)
    } else {
        p
    }
}

proof fn lemma_skip_lang(s: Seq<char>, p: int)
    requires
        0 <= p <= s.len(),
    ensures
        p <= skip_lang(s, p) <= s.len(),
    decreases s.len() - p,
{
    if p < s.len() && is_lang_char(s[p]) {
        lemma_skip_lang(s, p + 1);
    }
}

/// The triple-backtick fence.
pub open spec fn fence() -> Seq<char> {
    seq!['`', '`', '`']
}

/// The placeholder that stands in for extracted code until restore.
pub open spec fn placeholder(tag: Seq<char>, idx: int) -> Seq<char> {
    seq!['\u{0}'] + tag + dec_digits(idx as nat) + seq!['\u{0}']
}

/// The fenced-code tag.
pub open spec fn block_tag() -> Seq<char> {
    seq!['C', 'O', 'D', 'E', 'B', 'L', 'O', 'C', 'K']
}

/// The inline-code tag.
pub open spec fn inline_tag() -> Seq<char> {
    seq!['I', 'N', 'L', 'I', 'N', 'E', 'C', 'O', 'D', 'E']
}

/// Fenced code blocks lifted out of `s`, numbered from `idx`: the text
/// with placeholders, and the extracted code in order.
pub open spec fn extract_fences(s: Seq<char>, idx: int) -> (Seq<char>, Seq<Seq<char>>)
    decreases s.len() via extract_fences_dec
{
    let f = find_idx(s, fence(), 0);
    if f < 0 {
        (s, Seq::<Seq<char>>::empty())
    } else {
        let p1 = skip_lang(s, f + 3);
        let p2 = if p1 < s.len() && s[p1] == '\n' {
            p1 + 1
        } else {
            p1
        };
        let e = find_idx(s, fence(), p2);
        if e < 0 {
            (s, Seq::<Seq<char>>::empty())
        } else {
            let rec = extract_fences(s.skip(e + 3), idx + 1);
            (s.take(f) + placeholder(block_tag(), idx) + rec.0, seq![s.subrange(p2, e)] + rec.1)
        }
    }
}

#[via_fn]
proof fn extract_fences_dec(s: Seq<char>, idx: int) {
    crate::text::lemma_find_idx(s, fence(), 0);
    let f = find_idx(s, fence(), 0);
    if f >= 0 {
        lemma_skip_lang(s, f + 3);
        let p1 = skip_lang(s, f + 3);
        let p2 = if p1 < s.len() && s[p1] == '\n' {
            p1 + 1
        } else {
            p1
        };
        crate::text::lemma_find_idx(s, fence(), p2);
    }
}

/// Inline code lifted out of `s`, numbered from `idx`.
pub open spec fn extract_inline(s: Seq<char>, idx: int) -> (Seq<char>, Seq<Seq<char>>)
    decreases s.len() via extract_inline_dec
{
    let f = find_idx(s, seq!['`'], 0);
    if f < 0 {
        (s, Seq::<Seq<char>>::empty())
    } else {
        let e = find_idx(s, seq!['`'], f + 1);
        if e < 0 {
            (s, Seq::<Seq<char>>::empty())
        } else {
            let rec = extract_inline(s.skip(e + 1), idx + 1);
            (
                s.take(f) + placeholder(inline_tag(), idx) + rec.0,
                seq![s.subrange(f + 1, e)] + rec.1,
            )
        }
    }
}

#[via_fn]
proof fn extract_inline_dec(s: Seq<char>, idx: int) {
    crate::text::lemma_find_idx(s, seq!['`'], 0);
    let f = find_idx(s, seq!['`'], 0);
    if f >= 0 {
        crate::text::lemma_find_idx(s, seq!['`'], f + 1);
    }
}

/// Build a placeholder as characters.
fn placeholder_exec(tag: &Vec<char>, idx: u64) -> (r: Vec<char>)
    ensures
        r@ == placeholder(tag@, idx as int),
{
    let mut out: Vec<char> = Vec::new();
    out.push('\u{0}');
    push_all(&mut out, tag);
    let digits = u64_to_dec(idx);
    push_all(&mut out, &digits);
    out.push('\u{0}');
    proof {
        assert(out@ =~= placeholder(tag@, idx as int));
    }
    out
}

/// Lift fenced code blocks out, numbering placeholders from `idx`.
pub fn extract_code_blocks(s: &Vec<char>, idx: u64, tag: &Vec<char>) -> (r: (Vec<char>, Vec<
    Vec<char>,
>))
    requires
        tag@ == block_tag(),
        idx + s@.len() <= u64::MAX,
    ensures
        (r.0@, r.1@.map_values(|c: Vec<char>| c@)) == extract_fences(s@, idx as int),
    decreases s@.len(),
{
    let n = s.len();
    let mut fc: Vec<char> = Vec::new();
    fc.push('`');
    fc.push('`');
    fc.push('`');
    assert(fc@ =~= fence());
    let f = match crate::text::find_idx_exec(s, &fc, 0) {
        Some(f) => f,
        None => {
            let mut t: Vec<char> = Vec::new();
            push_all(&mut t, s);
            let none: Vec<Vec<char>> = Vec::new();
            proof {
                assert(t@ =~= s@);
                assert(none@.map_values(|c: Vec<char>| c@) =~= Seq::<Seq<char>>::empty());
            }
            return (t, none);
        },
    };
    proof {
        crate::text::lemma_find_idx(s@, fence(), 0);
    }
    // Skip an optional language tag and one newline.
    let mut p: usize = f + 3;
    while p < n && (('a' <= s[p] && s[p] <= 'z') || ('A' <= s[p] && s[p] <= 'Z') || ('0' <= s[p]
        && s[p] <= '9') || s[p] == '_')
        invariant
            f + 3 <= p <= n,
            n == s@.len(),
            skip_lang(s@, f + 3) == skip_lang(s@, p as int),
        decreases n - p,
    {
        p += 1;
    }
    proof {
        assert(skip_lang(s@, p as int) == p);
    }
    let p2: usize = if p < n && s[p] == '\n' {
        p + 1
    } else {
        p
    };
    let e = match crate::text::find_idx_exec(s, &fc, p2) {
        Some(e) => e,
        None => {
            let mut t: Vec<char> = Vec::new();
            push_all(&mut t, s);
            let none: Vec<Vec<char>> = Vec::new();
            proof {
                assert(t@ =~= s@);
                assert(none@.map_values(|c: Vec<char>| c@) =~= Seq::<Seq<char>>::empty());
            }
            return (t, none);
        },
    };
    proof {
        crate::text::lemma_find_idx(s@, fence(), p2 as int);
    }
    let mut code: Vec<char> = Vec::new();
    push_range(&mut code, s, p2, e);
    let mut rest: Vec<char> = Vec::new();
    push_range(&mut rest, s, e + 3, n);
    proof {
        assert(rest@ =~= s@.skip(e + 3));
    }
    let rec = extract_code_blocks(&rest, idx + 1, tag);
    let mut t: Vec<char> = Vec::new();
    push_range(&mut t, s, 0, f);
    let ph = placeholder_exec(tag, idx);
    push_all(&mut t, &ph);
    push_all(&mut t, &rec.0);
    let mut blocks: Vec<Vec<char>> = Vec::new();
    blocks.push(code);
    let mut k: usize = 0;
    let ghost grec = rec.1@.map_values(|c: Vec<char>| c@);
    while k < rec.1.len()
        invariant
            k <= grec.len(),
            grec == rec.1@.map_values(|c: Vec<char>| c@),
            blocks@.map_values(|c: Vec<char>| c@) == seq![s@.subrange(p2 as int, e as int)]
                + grec.take(k as int),
        decreases grec.len() - k,
    {
        let ghost prev = blocks@.map_values(|c: Vec<char>| c@);
        let mut copy: Vec<char> = Vec::new();
        push_all(&mut copy, &rec.1[k]);
        proof {
            assert(copy@ =~= grec[k as int]);
        }
        blocks.push(copy);
        proof {
            assert(blocks@.map_values(|c: Vec<char>| c@) =~= prev.push(grec[k as int]));
            assert(grec.take(k + 1) =~= grec.take(k as int).push(grec[k as int]));
        }
        k += 1;
    }
    proof {
        assert(grec.take(grec.len() as int) =~= grec);
        assert(t@ =~= s@.take(f as int) + placeholder(block_tag(), idx as int) + extract_fences(
            s@.skip(e + 3),
            idx + 1,
        ).0);
        assert(blocks@.map_values(|c: Vec<char>| c@) =~= seq![s@.subrange(p2 as int, e as int)]
            + extract_fences(s@.skip(e + 3), idx + 1).1);
    }
    (t, blocks)
}

/// Lift inline code out, numbering placeholders from `idx`.
pub fn extract_inline_codes(s: &Vec<char>, idx: u64, tag: &Vec<char>) -> (r: (Vec<char>, Vec<
    Vec<char>,
>))
    requires
        tag@ == inline_tag(),
        idx + s@.len() <= u64::MAX,
    ensures
        (r.0@, r.1@.map_values(|c: Vec<char>| c@)) == extract_inline(s@, idx as int),
    decreases s@.len(),
{
    let n = s.len();
    let mut bt: Vec<char> = Vec::new();
    bt.push('`');
    assert(bt@ =~= seq!['`']);
    let f = match crate::text::find_idx_exec(s, &bt, 0) {
        Some(f) => f,
        None => {
            let mut t: Vec<char> = Vec::new();
            push_all(&mut t, s);
            let none: Vec<Vec<char>> = Vec::new();
            proof {
                assert(t@ =~= s@);
                assert(none@.map_values(|c: Vec<char>| c@) =~= Seq::<Seq<char>>::empty());
            }
            return (t, none);
        },
    };
    proof {
        crate::text::lemma_find_idx(s@, seq!['`'], 0);
    }
    let e = match crate::text::find_idx_exec(s, &bt, f + 1) {
        Some(e) => e,
        None => {
            let mut t: Vec<char> = Vec::new();
            push_all(&mut t, s);
            let none: Vec<Vec<char>> = Vec::new();
            proof {
                assert(t@ =~= s@);
                assert(none@.map_values(|c: Vec<char>| c@) =~= Seq::<Seq<char>>::empty());
            }
            return (t, none);
        },
    };
    proof {
        crate::text::lemma_find_idx(s@, seq!['`'], f + 1);
    }
    let mut code: Vec<char> = Vec::new();
    push_range(&mut code, s, f + 1, e);
    let mut rest: Vec<char> = Vec::new();
    push_range(&mut rest, s, e + 1, n);
    proof {
        assert(rest@ =~= s@.skip(e + 1));
    }
    let rec = extract_inline_codes(&rest, idx + 1, tag);
    let mut t: Vec<char> = Vec::new();
    push_range(&mut t, s, 0, f);
    let ph = placeholder_exec(tag, idx);
    push_all(&mut t, &ph);
    push_all(&mut t, &rec.0);
    let mut codes: Vec<Vec<char>> = Vec::new();
    codes.push(code);
    let mut k: usize = 0;
    let ghost grec = rec.1@.map_values(|c: Vec<char>| c@);
    while k < rec.1.len()
        invariant
            k <= grec.len(),
            grec == rec.1@.map_values(|c: Vec<char>| c@),
            codes@.map_values(|c: Vec<char>| c@) == seq![s@.subrange(f + 1, e as int)] + grec.take(
                k as int,
            ),
        decreases grec.len() - k,
    {
        let ghost prev = codes@.map_values(|c: Vec<char>| c@);
        let mut copy: Vec<char> = Vec::new();
        push_all(&mut copy, &rec.1[k]);
        proof {
            assert(copy@ =~= grec[k as int]);
        }
        codes.push(copy);
        proof {
            assert(codes@.map_values(|c: Vec<char>| c@) =~= prev.push(grec[k as int]));
            assert(grec.take(k + 1) =~= grec.take(k as int).push(grec[k as int]));
        }
        k += 1;
    }
    proof {
        assert(grec.take(grec.len() as int) =~= grec);
        assert(t@ =~= s@.take(f as int) + placeholder(inline_tag(), idx as int) + extract_inline(
            s@.skip(e + 1),
            idx + 1,
        ).0);
        assert(codes@.map_values(|c: Vec<char>| c@) =~= seq![s@.subrange(f + 1, e as int)]
            + extract_inline(s@.skip(e + 1), idx + 1).1);
    }
    (t, codes)
}

/// All occurrences of `needle` replaced by `repl`, left to right, the
/// replacement itself not rescanned.
pub open spec fn spec_replace_all(s: Seq<char>, needle: Seq<char>, repl: Seq<char>) -> Seq<char>
    decreases s.len() when needle.len() >= 1 via spec_replace_all_dec
{
    let i = find_idx(s, needle, 0);
    if i < 0 {
        s
    } else {
        s.take(i) + repl + spec_replace_all(s.skip(i + needle.len()), needle, repl)
    }
}

#[via_fn]
proof fn spec_replace_all_dec(s: Seq<char>, needle: Seq<char>, repl: Seq<char>) {
    crate::text::lemma_find_idx(s, needle, 0);
}

/// Replace every occurrence of `needle` with `repl`.
pub fn replace_all(s: &Vec<char>, needle: &Vec<char>, repl: &Vec<char>) -> (r: Vec<char>)
    requires
        needle@.len() >= 1,
    ensures
        r@ == spec_replace_all(s@, needle@, repl@),
    decreases s@.len(),
{
    let n = s.len();
    let i = match crate::text::find_idx_exec(s, needle, 0) {
        Some(i) => i,
        None => {
            let mut t: Vec<char> = Vec::new();
            push_all(&mut t, s);
            proof {
                assert(t@ =~= s@);
            }
            return t;
        },
    };
    proof {
        crate::text::lemma_find_idx(s@, needle@, 0);
    }
    let mut rest: Vec<char> = Vec::new();
    push_range(&mut rest, s, i + needle.len(), n);
    proof {
        assert(rest@ =~= s@.skip(i + needle@.len()));
    }
    let tail = replace_all(&rest, needle, repl);
    let mut out: Vec<char> = Vec::new();
    push_range(&mut out, s, 0, i);
    push_all(&mut out, repl);
    push_all(&mut out, &tail);
    proof {
        assert(out@ =~= s@.take(i as int) + repl@ + spec_replace_all(
            s@.skip(i + needle@.len()),
            needle@,
            repl@,
        ));
    }
    out
}

/// Extracted code put back: item `k` and later, each escaped and
/// wrapped in the element, replacing its placeholder.
pub open spec fn restore_list(
    t: Seq<char>,
    items: Seq<Seq<char>>,
    k: int,
    tag: Seq<char>,
    open: Seq<char>,
    close: Seq<char>,
) -> Seq<char>
    decreases items.len() - k when 0 <= k
{
    if k >= items.len() {
        t
    } else {
        restore_list(
            spec_replace_all(t, placeholder(tag, k), open + spec_escape(items[k]) + close),
            items,
            k + 1,
            tag,
            open,
            close,
        )
    }
}

/// Put extracted code back, wrapped in the given element.
fn restore_exec(
    t: Vec<char>,
    items: &Vec<Vec<char>>,
    tag: &Vec<char>,
    open: &Vec<char>,
    close: &Vec<char>,
) -> (r: Vec<char>)
    requires
        items@.len() <= u64::MAX,
    ensures
        r@ == restore_list(
            t@,
            items@.map_values(|c: Vec<char>| c@),
            0,
            tag@,
            open@,
            close@,
        ),
{
    let ghost gitems = items@.map_values(|c: Vec<char>| c@);
    let mut cur = t;
    let mut k: usize = 0;
    while k < items.len()
        invariant
            k <= gitems.len(),
            gitems == items@.map_values(|c: Vec<char>| c@),
            gitems.len() <= u64::MAX,
            restore_list(t@, gitems, 0, tag@, open@, close@) == restore_list(
                cur@,
                gitems,
                k as int,
                tag@,
                open@,
                close@,
            ),
        decreases gitems.len() - k,
    {
        let ph = placeholder_exec(tag, k as u64);
        let escaped = escape_chars(&items[k]);
        let mut wrapped: Vec<char> = Vec::new();
        push_all(&mut wrapped, open);
        push_all(&mut wrapped, &escaped);
        push_all(&mut wrapped, close);
        proof {
            assert(ph@.len() >= 1);
            assert(wrapped@ =~= open@ + spec_escape(gitems[k as int]) + close@);
        }
        cur = replace_all(&cur, &ph, &wrapped);
        k += 1;
    }
    cur
}

/// The per-line transform: heading, then double and single emphasis.
pub open spec fn spec_line_transform(l: Seq<char>) -> Seq<char> {
    spec_single_delim(
        spec_single_delim(
            spec_replace_delim(
                spec_replace_delim(
                    spec_header_line(l),
                    seq!['*', '*'],
                    seq!['<', 'b', '>'],
                    seq!['<', '/', 'b', '>'],
                ),
                seq!['_', '_'],
                seq!['<', 'b', '>'],
                seq!['<', '/', 'b', '>'],
            ),
            '_',
            seq!['<', 'i', '>'],
            seq!['<', '/', 'i', '>'],
        ),
        '*',
        seq!['<', 'b', '>'],
        seq!['<', '/', 'b', '>'],
    )
}

/// The per-line transforms applied to the whole text.
pub open spec fn spec_line_stage(s: Seq<char>) -> Seq<char> {
    join_with(split_seq(s, '\n').map_values(|l: Seq<char>| spec_line_transform(l)), seq!['\n'])
}

/// Apply heading and emphasis transforms line by line.
fn line_stage(s: &Vec<char>) -> (r: Vec<char>)
    ensures
        r@ == spec_line_stage(s@),
{
    let lines = crate::text::split_chars(s, '\n');
    let ghost glines = lines@.map_values(|l: Vec<char>| l@);
    let star2 = str_chars("**");
    let under2 = str_chars("__");
    let bopen = str_chars("<b>");
    let bclose = str_chars("</b>");
    let iopen = str_chars("<i>");
    let iclose = str_chars("</i>");
    proof {
        reveal_strlit("**");
        reveal_strlit("__");
        reveal_strlit("<b>");
        reveal_strlit("</b>");
        reveal_strlit("<i>");
        reveal_strlit("</i>");
        assert(star2@ =~= seq!['*', '*']);
        assert(under2@ =~= seq!['_', '_']);
        assert(bopen@ =~= seq!['<', 'b', '>']);
        assert(bclose@ =~= seq!['<', '/', 'b', '>']);
        assert(iopen@ =~= seq!['<', 'i', '>']);
        assert(iclose@ =~= seq!['<', '/', 'i', '>']);
    }
    let mut mapped: Vec<Vec<char>> = Vec::new();
    let mut i: usize = 0;
    while i < lines.len()
        invariant
            i <= glines.len(),
            glines == lines@.map_values(|l: Vec<char>| l@),
            star2@ == seq!['*', '*'],
            under2@ == seq!['_', '_'],
            bopen@ == seq!['<', 'b', '>'],
            bclose@ == seq!['<', '/', 'b', '>'],
            iopen@ == seq!['<', 'i', '>'],
            iclose@ == seq!['<', '/', 'i', '>'],
            mapped@.map_values(|l: Vec<char>| l@) == glines.take(i as int).map_values(
                |l: Seq<char>| spec_line_transform(l),
            ),
        decreases glines.len() - i,
    {
        let ghost prev = mapped@.map_values(|l: Vec<char>| l@);
        let h = convert_header_line(&lines[i]);
        let d1 = replace_delimited(&h, &star2, &bopen, &bclose);
        let d2 = replace_delimited(&d1, &under2, &bopen, &bclose);
        let s1 = replace_single_delim(&d2, '_', &iopen, &iclose);
        let s2 = replace_single_delim(&s1, '*', &bopen, &bclose);
        mapped.push(s2);
        proof {
            assert(mapped@.map_values(|l: Vec<char>| l@) =~= prev.push(
                spec_line_transform(glines[i as int]),
            ));
            assert(glines.take(i + 1).map_values(|l: Seq<char>| spec_line_transform(l))
                =~= glines.take(i as int).map_values(|l: Seq<char>| spec_line_transform(l)).push(
                spec_line_transform(glines[i as int]),
            ));
        }
        i += 1;
    }
    proof {
        assert(glines.take(glines.len() as int) =~= glines);
    }
    let mut nl: Vec<char> = Vec::new();
    nl.push('\n');
    assert(nl@ =~= seq!['\n']);
    crate::text::join_chars(&mapped, &nl)
}

/// The whole conversion, as one function of the input text.
pub open spec fn spec_markdown_html(s: Seq<char>) -> Seq<char> {
    let fz = extract_fences(s, 0);
    let iz = extract_inline(fz.0, 0);
    let t = spec_escape(iz.0);
    let t = spec_line_stage(t);
    let t = spec_blockquotes(t);
    let t = spec_bullets(t);
    let t = spec_remove_rules(t);
    let t = spec_links(t);
    let t = restore_list(
        t,
        fz.1,
        0,
        block_tag(),
        seq!['<', 'p', 'r', 'e', '>'],
        seq!['<', '/', 'p', 'r', 'e', '>'],
    );
    let t = restore_list(
        t,
        iz.1,
        0,
        inline_tag(),
        seq!['<', 'c', 'o', 'd', 'e', '>'],
        seq!['<', '/', 'c', 'o', 'd', 'e', '>'],
    );
    spec_collapse(t)
}

/// Convert the markdown subset to constrained HTML: code lifted out
/// first, the rest escaped and transformed, code restored in `<pre>` /
/// `<code>`, and newline runs capped.
pub fn convert_markdown_to_html(input: &str) -> (r: String)
    ensures
        r@ == spec_markdown_html(input@),
{
    let cs = str_chars(input);
    let btag = str_chars("CODEBLOCK");
    let itag = str_chars("INLINECODE");
    proof {
        reveal_strlit("CODEBLOCK");
        reveal_strlit("INLINECODE");
        assert(btag@ =~= block_tag());
        assert(itag@ =~= inline_tag());
    }
    let _n = cs.len();
    proof {
        assert(0 + cs@.len() <= u64::MAX);
    }
    let (t1, blocks) = extract_code_blocks(&cs, 0, &btag);
    let _t1n = t1.len();
    proof {
        assert(0 + t1@.len() <= u64::MAX);
    }
    let (t2, inlines) = extract_inline_codes(&t1, 0, &itag);
    let t3 = escape_chars(&t2);
    let t4 = line_stage(&t3);
    let t5 = convert_blockquotes(&t4);
    let t6 = bullets_stage(&t5);
    let t7 = rules_stage(&t6);
    let t8 = links_stage(&t7);
    let pre_open = str_chars("<pre>");
    let pre_close = str_chars("</pre>");
    let code_open = str_chars("<code>");
    let code_close = str_chars("</code>");
    proof {
        reveal_strlit("<pre>");
        reveal_strlit("</pre>");
        reveal_strlit("<code>");
        reveal_strlit("</code>");
        assert(pre_open@ =~= seq!['<', 'p', 'r', 'e', '>']);
        assert(pre_close@ =~= seq!['<', '/', 'p', 'r', 'e', '>']);
        assert(code_open@ =~= seq!['<', 'c', 'o', 'd', 'e', '>']);
        assert(code_close@ =~= seq!['<', '/', 'c', 'o', 'd', 'e', '>']);
    }
    let _bn = blocks.len();
    let _inn = inlines.len();
    let t9 = restore_exec(t8, &blocks, &btag, &pre_open, &pre_close);
    let t10 = restore_exec(t9, &inlines, &itag, &code_open, &code_close);
    let t11 = collapse_newlines(&t10);
    chars_string(&t11)
}

/// Converting the same text twice gives the same result: the rendering
/// is a function of the input alone.
pub proof fn lemma_markdown_deterministic(a: Seq<char>, b: Seq<char>)
    requires
        a == b,
    ensures
        spec_markdown_html(a) == spec_markdown_html(b),
{
}

/// What the event stream's tool input carries, as plain text fields;
/// an absent field is the empty string.
#[derive(Clone, Debug)]
pub struct ToolInput {
    pub file_path: String,
    pub command: String,
    pub description: String,
    pub pattern: String,
    pub path: String,
    pub query: String,
    pub url: String,
}

impl ToolInput {
    /// An input with every field absent.
    pub fn new_empty() -> (r: ToolInput)
        ensures
            r.file_path@ == Seq::<char>::empty(),
            r.command@ == Seq::<char>::empty(),
            r.description@ == Seq::<char>::empty(),
            r.pattern@ == Seq::<char>::empty(),
            r.path@ == Seq::<char>::empty(),
            r.query@ == Seq::<char>::empty(),
            r.url@ == Seq::<char>::empty(),
    {
        ToolInput {
            file_path: String::new(),
            command: String::new(),
            description: String::new(),
            pattern: String::new(),
            path: String::new(),
            query: String::new(),
            url: String::new(),
        }
    }
}

/// The non-empty slash-separated parts of a path, with `cur` gathered.
pub open spec fn slash_acc(s: Seq<char>, cur: Seq<char>) -> Seq<Seq<char>>
    decreases s.len(),
{
    if s.len() == 0 {
        if cur.len() > 0 {
            seq![cur]
        } else {
            Seq::<Seq<char>>::empty()
        }
    } else if s[0] == '/' {
        (if cur.len() > 0 {
            seq![cur]
        } else {
            Seq::<Seq<char>>::empty()
        }) + slash_acc(s.drop_first(), Seq::<char>::empty())
    } else {
        slash_acc(s.drop_first(), cur.push(s[0]))
    }
}

/// A path shortened to its last two components.
pub open spec fn spec_shorten_path(s: Seq<char>) -> Seq<char> {
    let p = slash_acc(s, Seq::<char>::empty());
    if p.len() >= 2 {
        p[p.len() - 2] + seq!['/'] + p[p.len() - 1]
    } else if p.len() == 1 {
        p[0]
    } else {
        seq!['f', 'i', 'l', 'e']
    }
}

/// Shorten a path to its last two components for display.
pub fn shorten_path(path: &str) -> (r: String)
    ensures
        r@ == spec_shorten_path(path@),
{
    let cs = str_chars(path);
    let n = cs.len();
    let mut done: Vec<Vec<char>> = Vec::new();
    let mut cur: Vec<char> = Vec::new();
    let mut i: usize = 0;
    proof {
        assert(cs@.skip(0) =~= cs@);
        assert(done@.map_values(|p: Vec<char>| p@) =~= Seq::<Seq<char>>::empty());
        assert(Seq::<Seq<char>>::empty() + slash_acc(cs@, cur@) =~= slash_acc(cs@, cur@));
    }
    while i < n
        invariant
            i <= n,
            n == cs@.len(),
            slash_acc(cs@, Seq::<char>::empty()) == done@.map_values(|p: Vec<char>| p@)
                + slash_acc(cs@.skip(i as int), cur@),
        decreases n - i,
    {
        proof {
            assert(cs@.skip(i as int)[0] == cs@[i as int]);
            assert(cs@.skip(i as int).drop_first() =~= cs@.skip(i + 1));
        }
        if cs[i] == '/' {
            let ghost prev = done@.map_values(|p: Vec<char>| p@);
            let ghost oc = cur@;
            let ghost rest = slash_acc(cs@.skip(i + 1), Seq::<char>::empty());
            if cur.len() > 0 {
                done.push(cur);
                cur = Vec::new();
                proof {
                    assert(done@.map_values(|p: Vec<char>| p@) =~= prev + seq![oc]);
                    assert(prev + (seq![oc] + rest) =~= (prev + seq![oc]) + rest);
                }
            } else {
                proof {
                    assert(cur@ =~= Seq::<char>::empty());
                    assert(Seq::<Seq<char>>::empty() + rest =~= rest);
                }
            }
        } else {
            cur.push(cs[i]);
        }
        i += 1;
    }
    proof {
        assert(cs@.skip(n as int) =~= Seq::<char>::empty());
    }
    let ghost prev = done@.map_values(|p: Vec<char>| p@);
    let ghost oc = cur@;
    if cur.len() > 0 {
        done.push(cur);
        proof {
            assert(done@.map_values(|p: Vec<char>| p@) =~= prev + seq![oc]);
        }
    } else {
        proof {
            assert(prev + Seq::<Seq<char>>::empty() =~= prev);
        }
    }
    let ghost gp = done@.map_values(|p: Vec<char>| p@);
    let mut out: Vec<char> = Vec::new();
    if done.len() >= 2 {
        push_all(&mut out, &done[done.len() - 2]);
        out.push('/');
        push_all(&mut out, &done[done.len() - 1]);
        proof {
            assert(out@ =~= gp[gp.len() - 2] + seq!['/'] + gp[gp.len() - 1]);
        }
    } else if done.len() == 1 {
        push_all(&mut out, &done[0]);
        proof {
            assert(out@ =~= gp[0]);
        }
    } else {
        out.push('f');
        out.push('i');
        out.push('l');
        out.push('e');
        proof {
            assert(out@ =~= seq!['f', 'i', 'l', 'e']);
        }
    }
    chars_string(&out)
}

/// Newlines replaced by spaces.
pub open spec fn spec_one_line(s: Seq<char>) -> Seq<char> {
    s.map_values(
        |c: char|
            if c == '\n' {
                ' '
            } else {
                c
            },
    )
}

/// One display line: newlines to spaces, trimmed, cut to `max` with an
/// ellipsis when longer.
pub open spec fn spec_truncate_one_line(s: Seq<char>, max: int) -> Seq<char> {
    let cleaned = trim(spec_one_line(s));
    if cleaned.len() <= max {
        cleaned
    } else {
        cleaned.take(max) + seq!['.', '.', '.']
    }
}

/// Flatten to one line and truncate for display.
pub fn truncate_one_line(text: &str, max_len: usize) -> (r: String)
    ensures
        r@ == spec_truncate_one_line(text@, max_len as int),
{
    let cs = str_chars(text);
    let n = cs.len();
    let mut flat: Vec<char> = Vec::new();
    let mut i: usize = 0;
    while i < n
        invariant
            i <= n,
            n == cs@.len(),
            flat@ == spec_one_line(cs@).take(i as int),
        decreases n - i,
    {
        let c = cs[i];
        if c == '\n' {
            flat.push(' ');
        } else {
            flat.push(c);
        }
        proof {
            assert(spec_one_line(cs@).take(i + 1) =~= spec_one_line(cs@).take(i as int).push(
                spec_one_line(cs@)[i as int],
            ));
        }
        i += 1;
    }
    proof {
        assert(spec_one_line(cs@).take(n as int) =~= spec_one_line(cs@));
    }
    let cleaned = crate::text::trim_chars(&flat);
    let cut = crate::utils::truncate_chars(&cleaned, max_len);
    proof {
        if trim(spec_one_line(text@)).len() <= max_len {
            assert(cut@ =~= spec_truncate_one_line(text@, max_len as int));
        } else {
            assert(cut@ =~= spec_truncate_one_line(text@, max_len as int));
        }
    }
    chars_string(&cut)
}

/// A value wrapped in a `<code>` element, escaped.
pub open spec fn spec_code(s: Seq<char>) -> Seq<char> {
    seq!['<', 'c', 'o', 'd', 'e', '>'] + spec_escape(s) + seq!['<', '/', 'c', 'o', 'd', 'e', '>']
}

/// Wrap escaped text in a `<code>` element.
pub fn code(text: &str) -> (r: String)
    ensures
        r@ == spec_code(text@),
{
    let cs = str_chars(text);
    let esc = escape_chars(&cs);
    let mut out: Vec<char> = Vec::new();
    let topen = str_chars("<code>");
    let tclose = str_chars("</code>");
    proof {
        reveal_strlit("<code>");
        reveal_strlit("</code>");
        assert(topen@ =~= seq!['<', 'c', 'o', 'd', 'e', '>']);
        assert(tclose@ =~= seq!['<', '/', 'c', 'o', 'd', 'e', '>']);
    }
    push_all(&mut out, &topen);
    push_all(&mut out, &esc);
    push_all(&mut out, &tclose);
    proof {
        assert(out@ =~= spec_code(text@));
    }
    chars_string(&out)
}

/// The emoji for a tool name: the first table entry whose key occurs
/// in the name, else the wrench.
pub open spec fn spec_emoji(name: Seq<char>) -> Seq<char> {
    if crate::text::contains_seq(name, seq!['R', 'e', 'a', 'd']) {
        seq!['\u{1F4D6}']
    } else if crate::text::contains_seq(name, seq!['W', 'r', 'i', 't', 'e']) {
        seq!['\u{1F4DD}']
    } else if crate::text::contains_seq(name, seq!['E', 'd', 'i', 't']) {
        seq!['\u{270F}', '\u{FE0F}']
    } else if crate::text::contains_seq(name, seq!['B', 'a', 's', 'h']) {
        seq!['\u{25B6}', '\u{FE0F}']
    } else if crate::text::contains_seq(name, seq!['G', 'l', 'o', 'b']) {
        seq!['\u{1F50D}']
    } else if crate::text::contains_seq(name, seq!['G', 'r', 'e', 'p']) {
        seq!['\u{1F50E}']
    } else if crate::text::contains_seq(name, seq!['W', 'e', 'b', 'S', 'e', 'a', 'r', 'c', 'h']) {
        seq!['\u{1F50D}']
    } else if crate::text::contains_seq(name, seq!['W', 'e', 'b', 'F', 'e', 't', 'c', 'h']) {
        seq!['\u{1F310}']
    } else if crate::text::contains_seq(name, seq!['T', 'a', 's', 'k']) {
        seq!['\u{1F3AF}']
    } else if crate::text::contains_seq(
        name,
        seq!['T', 'o', 'd', 'o', 'W', 'r', 'i', 't', 'e'],
    ) {
        seq!['\u{1F4CB}']
    } else if crate::text::contains_seq(name, seq!['m', 'c', 'p', '_', '_']) {
        seq!['\u{1F527}']
    } else {
        seq!['\u{1F527}']
    }
}

/// The lowercased path names an image file.
pub open spec fn spec_is_image_path(fp: Seq<char>) -> bool {
    let l = crate::text::lower_of(fp);
    ||| spec_ends(l, seq!['.', 'j', 'p', 'g'])
    ||| spec_ends(l, seq!['.', 'j', 'p', 'e', 'g'])
    ||| spec_ends(l, seq!['.', 'p', 'n', 'g'])
    ||| spec_ends(l, seq!['.', 'g', 'i', 'f'])
    ||| spec_ends(l, seq!['.', 'w', 'e', 'b', 'p'])
    ||| spec_ends(l, seq!['.', 'b', 'm', 'p'])
    ||| spec_ends(l, seq!['.', 's', 'v', 'g'])
    ||| spec_ends(l, seq!['.', 'i', 'c', 'o'])
}

/// `s` ends with `suffix`.
pub open spec fn spec_ends(s: Seq<char>, suffix: Seq<char>) -> bool {
    s.len() >= suffix.len() && crate::text::matches_at(s, suffix, s.len() - suffix.len())
}

/// The rendered tool status for a tool invocation.
pub open spec fn spec_tool_status(name: Seq<char>, ti: &ToolInput) -> Seq<char> {
    let e = spec_emoji(name);
    if name == seq!['R', 'e', 'a', 'd'] {
        if spec_is_image_path(ti.file_path@) {
            seq!['\u{1F440}', ' ', 'V', 'i', 'e', 'w', 'i', 'n', 'g']
        } else {
            e + seq![' ', 'R', 'e', 'a', 'd', 'i', 'n', 'g', ' '] + spec_code(
                spec_shorten_path(ti.file_path@),
            )
        }
    } else if name == seq!['W', 'r', 'i', 't', 'e'] {
        e + seq![' ', 'W', 'r', 'i', 't', 'i', 'n', 'g', ' '] + spec_code(
            spec_shorten_path(ti.file_path@),
        )
    } else if name == seq!['E', 'd', 'i', 't'] {
        e + seq![' ', 'E', 'd', 'i', 't', 'i', 'n', 'g', ' '] + spec_code(
            spec_shorten_path(ti.file_path@),
        )
    } else if name == seq!['B', 'a', 's', 'h'] {
        if ti.description@.len() > 0 {
            e + seq![' '] + spec_escape(ti.description@)
        } else {
            e + seq![' '] + spec_code(spec_truncate_one_line(ti.command@, 50))
        }
    } else if name == seq!['G', 'r', 'e', 'p'] {
        if ti.path@.len() > 0 {
            e + seq![' ', 'S', 'e', 'a', 'r', 'c', 'h', 'i', 'n', 'g', ' '] + spec_code(
                spec_truncate_one_line(ti.pattern@, 30),
            ) + seq![' ', 'i', 'n', ' '] + spec_code(spec_shorten_path(ti.path@))
        } else {
            e + seq![' ', 'S', 'e', 'a', 'r', 'c', 'h', 'i', 'n', 'g', ' '] + spec_code(
                spec_truncate_one_line(ti.pattern@, 40),
            )
        }
    } else if name == seq!['G', 'l', 'o', 'b'] {
        e + seq![' ', 'F', 'i', 'n', 'd', 'i', 'n', 'g', ' '] + spec_code(
            spec_truncate_one_line(ti.pattern@, 50),
        )
    } else if name == seq!['W', 'e', 'b', 'S', 'e', 'a', 'r', 'c', 'h'] {
        e + seq![' ', 'S', 'e', 'a', 'r', 'c', 'h', 'i', 'n', 'g', ':', ' '] + spec_escape(
            spec_truncate_one_line(ti.query@, 50),
        )
    } else if name == seq!['W', 'e', 'b', 'F', 'e', 't', 'c', 'h'] {
        e + seq![' ', 'F', 'e', 't', 'c', 'h', 'i', 'n', 'g', ' '] + spec_code(
            spec_truncate_one_line(ti.url@, 50),
        )
    } else if name == seq!['T', 'a', 's', 'k'] && ti.description@.len() > 0 {
        e + seq![' ', 'A', 'g', 'e', 'n', 't', ':', ' '] + spec_escape(ti.description@)
    } else {
        e + seq![' '] + spec_escape(name)
    }
}

/// The emoji for a tool name.
fn emoji_for(name_cs: &Vec<char>) -> (r: Vec<char>)
    ensures
        r@ == spec_emoji(name_cs@),
{
    proof {
        reveal_strlit("Read");
        reveal_strlit("Write");
        reveal_strlit("Edit");
        reveal_strlit("Bash");
        reveal_strlit("Glob");
        reveal_strlit("Grep");
        reveal_strlit("WebSearch");
        reveal_strlit("WebFetch");
        reveal_strlit("Task");
        reveal_strlit("TodoWrite");
        reveal_strlit("mcp__");
    }
    let mut out: Vec<char> = Vec::new();
    let k0 = str_chars("Read");
    assert(k0@ =~= seq!['R', 'e', 'a', 'd']);
    if crate::text::contains_chars(name_cs, &k0) {
        out.push('\u{1F4D6}');
        assert(out@ =~= seq!['\u{1F4D6}']);
        return out;
    }
    let k1 = str_chars("Write");
    assert(k1@ =~= seq!['W', 'r', 'i', 't', 'e']);
    if crate::text::contains_chars(name_cs, &k1) {
        out.push('\u{1F4DD}');
        assert(out@ =~= seq!['\u{1F4DD}']);
        return out;
    }
    let k2 = str_chars("Edit");
    assert(k2@ =~= seq!['E', 'd', 'i', 't']);
    if crate::text::contains_chars(name_cs, &k2) {
        out.push('\u{270F}');
        out.push('\u{FE0F}');
        assert(out@ =~= seq!['\u{270F}', '\u{FE0F}']);
        return out;
    }
    let k3 = str_chars("Bash");
    assert(k3@ =~= seq!['B', 'a', 's', 'h']);
    if crate::text::contains_chars(name_cs, &k3) {
        out.push('\u{25B6}');
        out.push('\u{FE0F}');
        assert(out@ =~= seq!['\u{25B6}', '\u{FE0F}']);
        return out;
    }
    let k4 = str_chars("Glob");
    assert(k4@ =~= seq!['G', 'l', 'o', 'b']);
    if crate::text::contains_chars(name_cs, &k4) {
        out.push('\u{1F50D}');
        assert(out@ =~= seq!['\u{1F50D}']);
        return out;
    }
    let k5 = str_chars("Grep");
    assert(k5@ =~= seq!['G', 'r', 'e', 'p']);
    if crate::text::contains_chars(name_cs, &k5) {
        out.push('\u{1F50E}');
        assert(out@ =~= seq!['\u{1F50E}']);
        return out;
    }
    let k6 = str_chars("WebSearch");
    assert(k6@ =~= seq!['W', 'e', 'b', 'S', 'e', 'a', 'r', 'c', 'h']);
    if crate::text::contains_chars(name_cs, &k6) {
        out.push('\u{1F50D}');
        assert(out@ =~= seq!['\u{1F50D}']);
        return out;
    }
    let k7 = str_chars("WebFetch");
    assert(k7@ =~= seq!['W', 'e', 'b', 'F', 'e', 't', 'c', 'h']);
    if crate::text::contains_chars(name_cs, &k7) {
        out.push('\u{1F310}');
        assert(out@ =~= seq!['\u{1F310}']);
        return out;
    }
    let k8 = str_chars("Task");
    assert(k8@ =~= seq!['T', 'a', 's', 'k']);
    if crate::text::contains_chars(name_cs, &k8) {
        out.push('\u{1F3AF}');
        assert(out@ =~= seq!['\u{1F3AF}']);
        return out;
    }
    let k9 = str_chars("TodoWrite");
    assert(k9@ =~= seq!['T', 'o', 'd', 'o', 'W', 'r', 'i', 't', 'e']);
    if crate::text::contains_chars(name_cs, &k9) {
        out.push('\u{1F4CB}');
        assert(out@ =~= seq!['\u{1F4CB}']);
        return out;
    }
    let k10 = str_chars("mcp__");
    assert(k10@ =~= seq!['m', 'c', 'p', '_', '_']);
    if crate::text::contains_chars(name_cs, &k10) {
        out.push('\u{1F527}');
        assert(out@ =~= seq!['\u{1F527}']);
        return out;
    }
    out.push('\u{1F527}');
    assert(out@ =~= seq!['\u{1F527}']);
    out
}

/// Render a tool invocation as a short HTML-safe status line.
pub fn format_tool_status(tool_name: &str, tool_input: &ToolInput) -> (r: String)
    ensures
        r@ == spec_tool_status(tool_name@, tool_input),
{
    let name_cs = str_chars(tool_name);
    let e = emoji_for(&name_cs);
    let n_read = str_chars("Read");
    let n_write = str_chars("Write");
    let n_edit = str_chars("Edit");
    let n_bash = str_chars("Bash");
    let n_grep = str_chars("Grep");
    let n_glob = str_chars("Glob");
    let n_wsearch = str_chars("WebSearch");
    let n_wfetch = str_chars("WebFetch");
    let n_task = str_chars("Task");
    proof {
        reveal_strlit("Read");
        reveal_strlit("Write");
        reveal_strlit("Edit");
        reveal_strlit("Bash");
        reveal_strlit("Grep");
        reveal_strlit("Glob");
        reveal_strlit("WebSearch");
        reveal_strlit("WebFetch");
        reveal_strlit("Task");
        assert(n_read@ =~= seq!['R', 'e', 'a', 'd']);
        assert(n_write@ =~= seq!['W', 'r', 'i', 't', 'e']);
        assert(n_edit@ =~= seq!['E', 'd', 'i', 't']);
        assert(n_bash@ =~= seq!['B', 'a', 's', 'h']);
        assert(n_grep@ =~= seq!['G', 'r', 'e', 'p']);
        assert(n_glob@ =~= seq!['G', 'l', 'o', 'b']);
        assert(n_wsearch@ =~= seq!['W', 'e', 'b', 'S', 'e', 'a', 'r', 'c', 'h']);
        assert(n_wfetch@ =~= seq!['W', 'e', 'b', 'F', 'e', 't', 'c', 'h']);
        assert(n_task@ =~= seq!['T', 'a', 's', 'k']);
    }
    let mut out: Vec<char> = Vec::new();
    if crate::text::chars_eq(&name_cs, &n_read) {
        let lower = crate::text::to_lowercase(tool_input.file_path.as_str());
        let lc = str_chars(lower.as_str());
        proof {
            reveal_strlit(".jpg");
            reveal_strlit(".jpeg");
            reveal_strlit(".png");
            reveal_strlit(".gif");
            reveal_strlit(".webp");
            reveal_strlit(".bmp");
            reveal_strlit(".svg");
            reveal_strlit(".ico");
        }
        let e0 = str_chars(".jpg");
        let e1 = str_chars(".jpeg");
        let e2 = str_chars(".png");
        let e3 = str_chars(".gif");
        let e4 = str_chars(".webp");
        let e5 = str_chars(".bmp");
        let e6 = str_chars(".svg");
        let e7 = str_chars(".ico");
        let is_img = crate::text::ends_with_chars(&lc, &e0) || crate::text::ends_with_chars(
            &lc,
            &e1,
        ) || crate::text::ends_with_chars(&lc, &e2) || crate::text::ends_with_chars(&lc, &e3)
            || crate::text::ends_with_chars(&lc, &e4) || crate::text::ends_with_chars(&lc, &e5)
            || crate::text::ends_with_chars(&lc, &e6) || crate::text::ends_with_chars(&lc, &e7);
        proof {
            assert(e0@ =~= seq!['.', 'j', 'p', 'g']);
            assert(e1@ =~= seq!['.', 'j', 'p', 'e', 'g']);
            assert(e2@ =~= seq!['.', 'p', 'n', 'g']);
            assert(e3@ =~= seq!['.', 'g', 'i', 'f']);
            assert(e4@ =~= seq!['.', 'w', 'e', 'b', 'p']);
            assert(e5@ =~= seq!['.', 'b', 'm', 'p']);
            assert(e6@ =~= seq!['.', 's', 'v', 'g']);
            assert(e7@ =~= seq!['.', 'i', 'c', 'o']);
            assert(is_img == spec_is_image_path(tool_input.file_path@));
        }
        if is_img {
            out.push('\u{1F440}');
            out.push(' ');
            out.push('V');
            out.push('i');
            out.push('e');
            out.push('w');
            out.push('i');
            out.push('n');
            out.push('g');
            proof {
                assert(out@ =~= seq!['\u{1F440}', ' ', 'V', 'i', 'e', 'w', 'i', 'n', 'g']);
            }
            return chars_string(&out);
        }
        let short = shorten_path(tool_input.file_path.as_str());
        let c = code(short.as_str());
        let cc = str_chars(c.as_str());
        push_all(&mut out, &e);
        let lbl = str_chars(" Reading ");
        proof {
            reveal_strlit(" Reading ");
            assert(lbl@ =~= seq![' ', 'R', 'e', 'a', 'd', 'i', 'n', 'g', ' ']);
        }
        push_all(&mut out, &lbl);
        push_all(&mut out, &cc);
        proof {
            assert(out@ =~= spec_tool_status(tool_name@, tool_input));
        }
        return chars_string(&out);
    }
    if crate::text::chars_eq(&name_cs, &n_write) {
        let short = shorten_path(tool_input.file_path.as_str());
        let c = code(short.as_str());
        let cc = str_chars(c.as_str());
        push_all(&mut out, &e);
        let lbl = str_chars(" Writing ");
        proof {
            reveal_strlit(" Writing ");
            assert(lbl@ =~= seq![' ', 'W', 'r', 'i', 't', 'i', 'n', 'g', ' ']);
        }
        push_all(&mut out, &lbl);
        push_all(&mut out, &cc);
        proof {
            assert(out@ =~= spec_tool_status(tool_name@, tool_input));
        }
        return chars_string(&out);
    }
    if crate::text::chars_eq(&name_cs, &n_edit) {
        let short = shorten_path(tool_input.file_path.as_str());
        let c = code(short.as_str());
        let cc = str_chars(c.as_str());
        push_all(&mut out, &e);
        let lbl = str_chars(" Editing ");
        proof {
            reveal_strlit(" Editing ");
            assert(lbl@ =~= seq![' ', 'E', 'd', 'i', 't', 'i', 'n', 'g', ' ']);
        }
        push_all(&mut out, &lbl);
        push_all(&mut out, &cc);
        proof {
            assert(out@ =~= spec_tool_status(tool_name@, tool_input));
        }
        return chars_string(&out);
    }
    if crate::text::chars_eq(&name_cs, &n_bash) {
        push_all(&mut out, &e);
        out.push(' ');
        if tool_input.description.unicode_len() > 0 {
            let esc = escape_html(tool_input.description.as_str());
            let ec = str_chars(esc.as_str());
            push_all(&mut out, &ec);
        } else {
            let t = truncate_one_line(tool_input.command.as_str(), 50);
            let c = code(t.as_str());
            let cc = str_chars(c.as_str());
            push_all(&mut out, &cc);
        }
        proof {
            assert(out@ =~= spec_tool_status(tool_name@, tool_input));
        }
        return chars_string(&out);
    }
    if crate::text::chars_eq(&name_cs, &n_grep) {
        push_all(&mut out, &e);
        let lbl = str_chars(" Searching ");
        proof {
            reveal_strlit(" Searching ");
            assert(lbl@ =~= seq![' ', 'S', 'e', 'a', 'r', 'c', 'h', 'i', 'n', 'g', ' ']);
        }
        push_all(&mut out, &lbl);
        if tool_input.path.unicode_len() > 0 {
            let t = truncate_one_line(tool_input.pattern.as_str(), 30);
            let c = code(t.as_str());
            let cc = str_chars(c.as_str());
            push_all(&mut out, &cc);
            let inlbl = str_chars(" in ");
            proof {
                reveal_strlit(" in ");
                assert(inlbl@ =~= seq![' ', 'i', 'n', ' ']);
            }
            push_all(&mut out, &inlbl);
            let sp = shorten_path(tool_input.path.as_str());
            let c2 = code(sp.as_str());
            let cc2 = str_chars(c2.as_str());
            push_all(&mut out, &cc2);
        } else {
            let t = truncate_one_line(tool_input.pattern.as_str(), 40);
            let c = code(t.as_str());
            let cc = str_chars(c.as_str());
            push_all(&mut out, &cc);
        }
        proof {
            assert(out@ =~= spec_tool_status(tool_name@, tool_input));
        }
        return chars_string(&out);
    }
    if crate::text::chars_eq(&name_cs, &n_glob) {
        push_all(&mut out, &e);
        let lbl = str_chars(" Finding ");
        proof {
            reveal_strlit(" Finding ");
            assert(lbl@ =~= seq![' ', 'F', 'i', 'n', 'd', 'i', 'n', 'g', ' ']);
        }
        push_all(&mut out, &lbl);
        let t = truncate_one_line(tool_input.pattern.as_str(), 50);
        let c = code(t.as_str());
        let cc = str_chars(c.as_str());
        push_all(&mut out, &cc);
        proof {
            assert(out@ =~= spec_tool_status(tool_name@, tool_input));
        }
        return chars_string(&out);
    }
    if crate::text::chars_eq(&name_cs, &n_wsearch) {
        push_all(&mut out, &e);
        let lbl = str_chars(" Searching: ");
        proof {
            reveal_strlit(" Searching: ");
            assert(lbl@ =~= seq![' ', 'S', 'e', 'a', 'r', 'c', 'h', 'i', 'n', 'g', ':', ' ']);
        }
        push_all(&mut out, &lbl);
        let t = truncate_one_line(tool_input.query.as_str(), 50);
        let esc = escape_html(t.as_str());
        let ec = str_chars(esc.as_str());
        push_all(&mut out, &ec);
        proof {
            assert(out@ =~= spec_tool_status(tool_name@, tool_input));
        }
        return chars_string(&out);
    }
    if crate::text::chars_eq(&name_cs, &n_wfetch) {
        push_all(&mut out, &e);
        let lbl = str_chars(" Fetching ");
        proof {
            reveal_strlit(" Fetching ");
            assert(lbl@ =~= seq![' ', 'F', 'e', 't', 'c', 'h', 'i', 'n', 'g', ' ']);
        }
        push_all(&mut out, &lbl);
        let t = truncate_one_line(tool_input.url.as_str(), 50);
        let c = code(t.as_str());
        let cc = str_chars(c.as_str());
        push_all(&mut out, &cc);
        proof {
            assert(out@ =~= spec_tool_status(tool_name@, tool_input));
        }
        return chars_string(&out);
    }
    if crate::text::chars_eq(&name_cs, &n_task) && tool_input.description.unicode_len() > 0 {
        push_all(&mut out, &e);
        let lbl = str_chars(" Agent: ");
        proof {
            reveal_strlit(" Agent: ");
            assert(lbl@ =~= seq![' ', 'A', 'g', 'e', 'n', 't', ':', ' ']);
        }
        push_all(&mut out, &lbl);
        let esc = escape_html(tool_input.description.as_str());
        let ec = str_chars(esc.as_str());
        push_all(&mut out, &ec);
        proof {
            assert(out@ =~= spec_tool_status(tool_name@, tool_input));
        }
        return chars_string(&out);
    }
    push_all(&mut out, &e);
    out.push(' ');
    let esc = escape_html(tool_name);
    let ec = str_chars(esc.as_str());
    push_all(&mut out, &ec);
    proof {
        assert(out@ =~= spec_tool_status(tool_name@, tool_input));
    }
    chars_string(&out)
}

} // verus!
