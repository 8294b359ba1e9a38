//! Small shared helpers: truncation, interrupt prefix, elapsed-time text.

use vstd::prelude::*;

use crate::numbers::dec_digits;
use crate::numbers::u64_to_dec;
use crate::text::chars_string;
use crate::text::ltrim;
use crate::text::push_all;
use crate::text::push_range;
use crate::text::str_chars;

verus! {

/// The three-dot ellipsis appended to truncated text.
pub open spec fn ellipsis() -> Seq<char> {
    seq!['.', '.', '.']
}

/// `s` cut to at most `max_len` characters, with an ellipsis appended
/// when anything was cut.
pub open spec fn spec_truncate(s: Seq<char>, max_len: int) -> Seq<char> {
    if s.len() <= max_len {
        s
    } else {
        s.take(max_len) + ellipsis()
    }
}

/// Truncate to `max_len` characters, appending `...` when cut.
pub fn truncate_chars(s: &Vec<char>, max_len: usize) -> (r: Vec<char>)
    ensures
        r@ == spec_truncate(s@, max_len as int),
{
    let mut out: Vec<char> = Vec::new();
    if s.len() <= max_len {
        push_all(&mut out, s);
        assert(out@ =~= s@);
        return out;
    }
    push_range(&mut out, s, 0, max_len);
    assert(out@ =~= s@.take(max_len as int));
    out.push('.');
    out.push('.');
    out.push('.');
    assert(out@ =~= s@.take(max_len as int) + ellipsis());
    out
}

/// Truncate a string to `max_len` characters, appending `...` when cut.
pub fn truncate_text(s: &str, max_len: usize) -> (r: String)
    ensures
        r@ == spec_truncate(s@, max_len as int),
{
    let cs = str_chars(s);
    let t = truncate_chars(&cs, max_len);
    chars_string(&t)
}

/// Same operation under the name the streaming layer uses.
pub fn truncate_with_ellipsis(s: &str, max_len: usize) -> (r: String)
    ensures
        r@ == spec_truncate(s@, max_len as int),
{
    truncate_text(s, max_len)
}

/// A leading `!` marks an interrupt; the remainder has leading
/// whitespace stripped.  Returns whether the prefix was present and the
/// remaining text.
pub fn strip_interrupt_prefix(text: &str) -> (r: (bool, String))
    ensures
        text@.len() > 0 && text@[0] == '!' ==> r.0 && r.1@ == ltrim(text@.drop_first()),
        !(text@.len() > 0 && text@[0] == '!') ==> !r.0 && r.1@ == text@,
{
    let cs = str_chars(text);
    if cs.len() == 0 || cs[0] != '!' {
        let copy = chars_string(&cs);
        return (false, copy);
    }
    let n = cs.len();
    let mut i: usize = 1;
    while i < n && crate::text::is_space_char(cs[i])
        invariant
            1 <= i <= n,
            n == cs@.len(),
            forall|k: int| 1 <= k < i ==> crate::text::is_space(cs@[k]),
        decreases n - i,
    {
        i += 1;
    }
    let mut rest: Vec<char> = Vec::new();
    push_range(&mut rest, &cs, i, n);
    proof {
        crate::text::lemma_ltrim_skip(cs@.drop_first(), i - 1);
        assert(cs@.drop_first().skip(i - 1) =~= cs@.skip(i as int));
        if i < n {
            assert(cs@.skip(i as int)[0] == cs@[i as int]);
        } else {
            assert(cs@.skip(i as int) =~= Seq::<char>::empty());
        }
        assert(rest@ =~= cs@.skip(i as int));
    }
    (true, chars_string(&rest))
}

/// The first eight characters of an identifier, for short display.
pub fn short_id(id: &str) -> (r: String)
    ensures
        r@ == if id@.len() <= 8 {
            id@
        } else {
            id@.take(8)
        },
{
    let cs = str_chars(id);
    let mut out: Vec<char> = Vec::new();
    if cs.len() <= 8 {
        push_all(&mut out, &cs);
        assert(out@ =~= cs@);
    } else {
        push_range(&mut out, &cs, 0, 8);
        assert(out@ =~= cs@.take(8));
    }
    chars_string(&out)
}

/// Two-digit rendering of a value below sixty.
pub open spec fn pad2(n: int) -> Seq<char> {
    if n < 10 {
        seq!['0'] + dec_digits(n as nat)
    } else {
        dec_digits(n as nat)
    }
}

/// Elapsed seconds rendered as `m:ss`.
pub open spec fn spec_elapsed(secs: int) -> Seq<char>
    recommends
        secs >= 0,
{
    dec_digits((secs / 60) as nat) + seq![':'] + pad2(secs % 60)
}

/// Render elapsed seconds as `m:ss`.
pub fn format_elapsed(secs: u64) -> (r: String)
    ensures
        r@ == spec_elapsed(secs as int),
{
    let minutes = secs / 60;
    let seconds = secs % 60;
    let mut out = u64_to_dec(minutes);
    out.push(':');
    if seconds < 10 {
        out.push('0');
    }
    let digs = u64_to_dec(seconds);
    push_all(&mut out, &digs);
    proof {
        if seconds < 10 {
            assert(out@ =~= spec_elapsed(secs as int));
        } else {
            assert(out@ =~= spec_elapsed(secs as int));
        }
    }
    chars_string(&out)
}

/// `s` divided into pieces of at most `n` characters, in order.
pub open spec fn spec_chunks(s: Seq<char>, n: int) -> Seq<Seq<char>>
    recommends
        n >= 1,
    decreases s.len(),
{
    if s.len() == 0 {
        Seq::<Seq<char>>::empty()
    } else if s.len() <= n {
        seq![s]
    } else if n >= 1 {
        seq![s.take(n)] + spec_chunks(s.skip(n), n)
    } else {
        seq![s]
    }
}

/// Split text into chunks of at most `max_len` characters.
pub fn split_text(s: &str, max_len: usize) -> (r: Vec<String>)
    requires
        max_len >= 1,
    ensures
        r@.map_values(|p: String| p@) == spec_chunks(s@, max_len as int),
{
    let cs = str_chars(s);
    let n = cs.len();
    let mut out: Vec<String> = Vec::new();
    let mut i: usize = 0;
    proof {
        assert(cs@.skip(0) =~= cs@);
        assert(out@.map_values(|p: String| p@) =~= Seq::<Seq<char>>::empty());
        assert(Seq::<Seq<char>>::empty() + spec_chunks(cs@, max_len as int) =~= spec_chunks(
            cs@,
            max_len as int,
        ));
    }
    while i < n
        invariant
            i <= n,
            n == cs@.len(),
            max_len >= 1,
            spec_chunks(cs@, max_len as int) == out@.map_values(|p: String| p@) + spec_chunks(
                cs@.skip(i as int),
                max_len as int,
            ),
        decreases n - i,
    {
        let upto = if n - i <= max_len {
            n
        } else {
            i + max_len
        };
        let mut piece: Vec<char> = Vec::new();
        push_range(&mut piece, &cs, i, upto);
        let ghost prev = out@.map_values(|p: String| p@);
        let ghost tail = cs@.skip(i as int);
        out.push(chars_string(&piece));
        proof {
            assert(out@.map_values(|p: String| p@) =~= prev + seq![piece@]);
            if n - i <= max_len {
                assert(piece@ =~= tail);
                assert(spec_chunks(tail, max_len as int) =~= seq![tail]);
                assert(cs@.skip(n as int) =~= Seq::<char>::empty());
                assert(prev + seq![tail] + spec_chunks(cs@.skip(n as int), max_len as int) =~= prev
                    + seq![tail]);
            } else {
                assert(piece@ =~= tail.take(max_len as int));
                assert(tail.skip(max_len as int) =~= cs@.skip(i + max_len));
                assert(spec_chunks(tail, max_len as int) == seq![tail.take(max_len as int)]
                    + spec_chunks(cs@.skip(i + max_len), max_len as int));
                assert(prev + (seq![piece@] + spec_chunks(cs@.skip(i + max_len), max_len as int))
                    =~= (prev + seq![piece@]) + spec_chunks(cs@.skip(i + max_len), max_len as int));
            }
        }
        i = upto;
    }
    proof {
        assert(cs@.skip(n as int) =~= Seq::<char>::empty());
        assert(out@.map_values(|p: String| p@) =~= out@.map_values(|p: String| p@) + spec_chunks(
            Seq::<char>::empty(),
            max_len as int,
        ));
    }
    out
}

/// A duration in seconds rendered as `1h 2m 3s`, `2m 3s` or `3s`.
pub open spec fn spec_duration(secs: int) -> Seq<char>
    recommends
        secs >= 0,
{
    let h = secs / 3600;
    let m = (secs % 3600) / 60;
    let s = secs % 60;
    if h > 0 {
        dec_digits(h as nat) + seq!['h', ' '] + dec_digits(m as nat) + seq!['m', ' ']
            + dec_digits(s as nat) + seq!['s']
    } else if m > 0 {
        dec_digits(m as nat) + seq!['m', ' '] + dec_digits(s as nat) + seq!['s']
    } else {
        dec_digits(s as nat) + seq!['s']
    }
}

/// Render a duration for the stats display.
pub fn format_duration(seconds: u64) -> (r: String)
    ensures
        r@ == spec_duration(seconds as int),
{
    let h = seconds / 3600;
    let m = (seconds % 3600) / 60;
    let s = seconds % 60;
    let mut out: Vec<char> = Vec::new();
    if h > 0 {
        let hd = u64_to_dec(h);
        push_all(&mut out, &hd);
        out.push('h');
        out.push(' ');
        let md = u64_to_dec(m);
        push_all(&mut out, &md);
        out.push('m');
        out.push(' ');
        let sd = u64_to_dec(s);
        push_all(&mut out, &sd);
        out.push('s');
        proof {
            assert(out@ =~= spec_duration(seconds as int));
        }
    } else if m > 0 {
        let md = u64_to_dec(m);
        push_all(&mut out, &md);
        out.push('m');
        out.push(' ');
        let sd = u64_to_dec(s);
        push_all(&mut out, &sd);
        out.push('s');
        proof {
            assert(out@ =~= spec_duration(seconds as int));
        }
    } else {
        let sd = u64_to_dec(s);
        push_all(&mut out, &sd);
        out.push('s');
        proof {
            assert(out@ =~= spec_duration(seconds as int));
        }
    }
    chars_string(&out)
}

/// The index of the lexicographically greatest name, if any: the
/// newest restart-context file sorts last by its timestamped name.
pub fn pick_latest_name(names: &Vec<String>) -> (r: Option<usize>)
    ensures
        match r {
            Some(i) => {
                &&& i < names@.len()
                &&& forall|k: int|
                    0 <= k < names@.len() ==> !crate::text::seq_lt(
                        (#[trigger] names@[i as int])@,
                        names@[k]@,
                    )
            },
            None => names@.len() == 0,
        },
{
    if names.len() == 0 {
        return None;
    }
    let mut best: usize = 0;
    let mut i: usize = 1;
    proof {
        crate::text::lemma_seq_lt_irrefl(names@[0]@);
    }
    while i < names.len()
        invariant
            best < i <= names@.len(),
            forall|k: int|
                0 <= k < i ==> !crate::text::seq_lt(
                    names@[best as int]@,
                    (#[trigger] names@[k])@,
                ),
        decreases names@.len() - i,
    {
        let bc = str_chars(names[best].as_str());
        let cc = str_chars(names[i].as_str());
        let ghost ob = best as int;
        if crate::text::chars_lt(&bc, &cc) {
            best = i;
            proof {
                crate::text::lemma_seq_lt_irrefl(names@[i as int]@);
                crate::text::lemma_seq_lt_asym(names@[ob]@, names@[i as int]@);
                assert forall|k: int| 0 <= k < i + 1 implies !crate::text::seq_lt(
                    names@[best as int]@,
                    (#[trigger] names@[k])@,
                ) by {
                    if k < i {
                        crate::text::lemma_seq_lt_connected(names@[k]@, names@[ob]@);
                        if crate::text::seq_lt(names@[k]@, names@[ob]@) {
                            crate::text::lemma_seq_lt_trans(
                                names@[k]@,
                                names@[ob]@,
                                names@[i as int]@,
                            );
                            crate::text::lemma_seq_lt_asym(names@[k]@, names@[i as int]@);
                        } else {
                            // The old best was not below k, so k equals it.
                            crate::text::lemma_seq_lt_asym(names@[ob]@, names@[i as int]@);
                        }
                    }
                }
            }
        } else {
            proof {
                assert forall|k: int| 0 <= k < i + 1 implies !crate::text::seq_lt(
                    names@[best as int]@,
                    (#[trigger] names@[k])@,
                ) by {}
            }
        }
        i += 1;
    }
    Some(best)
}

} // verus!
