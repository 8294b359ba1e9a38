//! Character-level text helpers shared by the whole library.
//!
//! All sizes in this library are measured in characters; a `String` is
//! reasoned about through its view, a `Seq<char>`.

use vstd::prelude::*;
use vstd::string::StrSliceExecFns;

verus! {

/// True iff `needle` occurs in `hay` starting at index `i`.
pub open spec fn matches_at(hay: Seq<char>, needle: Seq<char>, i: int) -> bool {
    &&& 0 <= i
    &&& i + needle.len() <= hay.len()
    &&& forall|j: int| 0 <= j < needle.len() ==> hay[i + j] == needle[j]
}

/// True iff `needle` occurs somewhere in `hay`.
pub open spec fn contains_seq(hay: Seq<char>, needle: Seq<char>) -> bool {
    exists|i: int| matches_at(hay, needle, i)
}

/// The characters of `s` as an indexable vector; the view equals `s@`.
pub fn str_chars(s: &str) -> (r: Vec<char>)
    ensures
        r@ == s@,
{
    let n = s.unicode_len();
    let mut out: Vec<char> = Vec::new();
    let mut i: usize = 0;
    while i < n
        invariant
            i <= n,
            n == s@.len(),
            out@ == s@.take(i as int),
        decreases n - i,
    {
        out.push(s.get_char(i));
        assert(s@.take(i + 1 as int) =~= s@.take(i as int).push(s@[i as int]));
        i += 1;
    }
    proof {
        assert(s@.take(n as int) =~= s@);
    }
    out
}

/// Relies on `String: FromIterator<char>`, which concatenates the
/// characters in order into one string.
#[verifier::external_body]
pub fn chars_string(v: &Vec<char>) -> (r: String)
    ensures
        r@ == v@,
{
    v.iter().collect()
}

/// What `str::to_lowercase` returns: a function of the characters alone.
pub uninterp spec fn lower_of(s: Seq<char>) -> Seq<char>;

/// Relies on `str::to_lowercase`, whose result depends only on the
/// characters of its argument.
#[verifier::external_body]
pub fn to_lowercase(s: &str) -> (r: String)
    ensures
        r@ == lower_of(s@),
{
    s.to_lowercase()
}

/// True iff `hay[i..i+needle.len()] == needle`, checked character by character.
pub fn matches_prefix_at(hay: &Vec<char>, needle: &Vec<char>, i: usize) -> (r: bool)
    requires
        i + needle@.len() <= hay@.len(),
    ensures
        r == matches_at(hay@, needle@, i as int),
{
    let hn = hay.len();
    let mut j: usize = 0;
    while j < needle.len()
        invariant
            j <= needle@.len(),
            i + needle@.len() <= hay@.len(),
            hay@.len() == hn,
            forall|k: int| 0 <= k < j ==> hay@[i + k] == needle@[k],
        decreases needle@.len() - j,
    {
        if hay[i + j] != needle[j] {
            return false;
        }
        j += 1;
    }
    true
}

/// First occurrence of `needle` in `hay` at or after `start`, if any.
pub fn find_from(hay: &Vec<char>, needle: &Vec<char>, start: usize) -> (r: Option<usize>)
    requires
        needle@.len() >= 1,
    ensures
        match r {
            Some(i) => {
                &&& start <= i
                &&& matches_at(hay@, needle@, i as int)
                &&& forall|k: int| start <= k < i ==> !matches_at(hay@, needle@, k)
            },
            None => forall|k: int| start <= k ==> !matches_at(hay@, needle@, k),
        },
{
    if hay.len() < needle.len() {
        return None;
    }
    let last = hay.len() - needle.len();
    if start > last {
        return None;
    }
    let mut i: usize = start;
    while i <= last
        invariant
            start <= i <= last + 1,
            needle@.len() >= 1,
            last == hay@.len() - needle@.len(),
            hay@.len() <= usize::MAX,
            forall|k: int| start <= k < i ==> !matches_at(hay@, needle@, k),
        decreases last + 1 - i,
    {
        if matches_prefix_at(hay, needle, i) {
            return Some(i);
        }
        i += 1;
    }
    None
}

/// True iff `needle` occurs anywhere in `hay`.
pub fn contains_chars(hay: &Vec<char>, needle: &Vec<char>) -> (r: bool)
    requires
        needle@.len() >= 1,
    ensures
        r == contains_seq(hay@, needle@),
{
    match find_from(hay, needle, 0) {
        Some(_) => true,
        None => false,
    }
}

/// True iff `hay` starts with `prefix`.
pub fn starts_with_chars(hay: &Vec<char>, prefix: &Vec<char>) -> (r: bool)
    ensures
        r == matches_at(hay@, prefix@, 0),
{
    if hay.len() < prefix.len() {
        return false;
    }
    matches_prefix_at(hay, prefix, 0)
}

/// True iff `hay` ends with `suffix`.
pub fn ends_with_chars(hay: &Vec<char>, suffix: &Vec<char>) -> (r: bool)
    ensures
        r == (hay@.len() >= suffix@.len() && matches_at(
            hay@,
            suffix@,
            hay@.len() - suffix@.len(),
        )),
{
    if hay.len() < suffix.len() {
        return false;
    }
    matches_prefix_at(hay, suffix, hay.len() - suffix.len())
}

/// The first index at or after `from` where `needle` occurs in `s`,
/// or `-1` when there is none.
pub open spec fn find_idx(s: Seq<char>, needle: Seq<char>, from: int) -> int
    decreases s.len() - from when needle.len() >= 1
{
    if from < 0 || from + needle.len() > s.len() {
        -1
    } else if matches_at(s, needle, from) {
        from
    } else {
        find_idx(s, needle, from + 1)
    }
}

/// A found index is at or after `from` and a real match, and nothing
/// between matches.
pub proof fn lemma_find_idx(s: Seq<char>, needle: Seq<char>, from: int)
    requires
        needle.len() >= 1,
    ensures
        find_idx(s, needle, from) == -1 || (from <= find_idx(s, needle, from) && matches_at(
            s,
            needle,
            find_idx(s, needle, from),
        )),
    decreases s.len() - from,
{
    if !(from < 0 || from + needle.len() > s.len()) && !matches_at(s, needle, from) {
        lemma_find_idx(s, needle, from + 1);
    }
}

/// First occurrence search, as an index or `-1`.
pub fn find_idx_exec(hay: &Vec<char>, needle: &Vec<char>, from: usize) -> (r: Option<usize>)
    requires
        needle@.len() >= 1,
    ensures
        match r {
            Some(i) => from <= i && i as int == find_idx(hay@, needle@, from as int),
            None => find_idx(hay@, needle@, from as int) == -1,
        },
{
    let hn = hay.len();
    let nl = needle.len();
    if nl > hn || from > hn - nl {
        return None;
    }
    let last = hn - nl;
    let mut i: usize = from;
    while i <= last
        invariant
            from <= i <= last + 1,
            last == hn - nl,
            hn == hay@.len(),
            nl == needle@.len(),
            nl >= 1,
            find_idx(hay@, needle@, from as int) == find_idx(hay@, needle@, i as int),
        decreases last + 1 - i,
    {
        if matches_prefix_at(hay, needle, i) {
            return Some(i);
        }
        i += 1;
    }
    None
}

/// Two character vectors holding the same characters.
pub fn chars_eq(a: &Vec<char>, b: &Vec<char>) -> (r: bool)
    ensures
        r == (a@ == b@),
{
    if a.len() != b.len() {
        proof {
            assert(a@ != b@);
        }
        return false;
    }
    let r = matches_prefix_at(a, b, 0);
    proof {
        if matches_at(a@, b@, 0) {
            assert(a@ =~= b@);
        }
    }
    r
}

/// Lexicographic order on character sequences, by code point.
pub open spec fn seq_lt(a: Seq<char>, b: Seq<char>) -> bool
    decreases a.len(),
{
    if b.len() == 0 {
        false
    } else if a.len() == 0 {
        true
    } else if a[0] != b[0] {
        a[0] < b[0]
    } else {
        seq_lt(a.drop_first(), b.drop_first())
    }
}

/// Nothing sorts strictly below itself.
pub proof fn lemma_seq_lt_irrefl(a: Seq<char>)
    ensures
        !seq_lt(a, a),
    decreases a.len(),
{
    if a.len() > 0 {
        lemma_seq_lt_irrefl(a.drop_first());
    }
}

/// Two sequences compare one way, the other way, or are equal.
pub proof fn lemma_seq_lt_connected(a: Seq<char>, b: Seq<char>)
    ensures
        seq_lt(a, b) || seq_lt(b, a) || a == b,
    decreases a.len(),
{
    if a.len() == 0 && b.len() == 0 {
        assert(a =~= b);
    } else if a.len() > 0 && b.len() > 0 && a[0] == b[0] {
        lemma_seq_lt_connected(a.drop_first(), b.drop_first());
        if a.drop_first() == b.drop_first() {
            assert(a.drop_first().len() == b.drop_first().len());
            assert(a.len() == b.len());
            assert forall|k: int| 0 <= k < a.len() implies a[k] == b[k] by {
                if k > 0 {
                    assert(a.drop_first()[k - 1] == b.drop_first()[k - 1]);
                    assert(a[k] == a.drop_first()[k - 1]);
                    assert(b[k] == b.drop_first()[k - 1]);
                }
            }
            assert(a =~= b);
        }
    }
}

/// The order is asymmetric.
pub proof fn lemma_seq_lt_asym(a: Seq<char>, b: Seq<char>)
    requires
        seq_lt(a, b),
    ensures
        !seq_lt(b, a),
    decreases a.len(),
{
    if a.len() > 0 && b.len() > 0 && a[0] == b[0] {
        lemma_seq_lt_asym(a.drop_first(), b.drop_first());
    }
}

/// The order is transitive.
pub proof fn lemma_seq_lt_trans(a: Seq<char>, b: Seq<char>, c: Seq<char>)
    requires
        seq_lt(a, b),
        seq_lt(b, c),
    ensures
        seq_lt(a, c),
    decreases a.len(),
{
    if a.len() > 0 && b.len() > 0 && c.len() > 0 && a[0] == b[0] && b[0] == c[0] {
        lemma_seq_lt_trans(a.drop_first(), b.drop_first(), c.drop_first());
    }
}

/// Lexicographic comparison of two character vectors.
pub fn chars_lt(a: &Vec<char>, b: &Vec<char>) -> (r: bool)
    ensures
        r == seq_lt(a@, b@),
{
    let an = a.len();
    let bn = b.len();
    let mut i: usize = 0;
    proof {
        assert(a@.skip(0) =~= a@);
        assert(b@.skip(0) =~= b@);
    }
    while i < an && i < bn
        invariant
            i <= an,
            i <= bn,
            an == a@.len(),
            bn == b@.len(),
            seq_lt(a@, b@) == seq_lt(a@.skip(i as int), b@.skip(i as int)),
        decreases an - i,
    {
        proof {
            assert(a@.skip(i as int)[0] == a@[i as int]);
            assert(b@.skip(i as int)[0] == b@[i as int]);
            assert(a@.skip(i as int).drop_first() =~= a@.skip(i + 1));
            assert(b@.skip(i as int).drop_first() =~= b@.skip(i + 1));
        }
        if a[i] != b[i] {
            return a[i] < b[i];
        }
        i += 1;
    }
    proof {
        if i >= an {
            assert(a@.skip(i as int) =~= Seq::<char>::empty());
        } else {
            assert(b@.skip(i as int) =~= Seq::<char>::empty());
        }
    }
    an < bn
}

/// Append all characters of `s` to `out`.
pub fn push_all(out: &mut Vec<char>, s: &Vec<char>)
    ensures
        final(out)@ == old(out)@ + s@,
{
    let mut j: usize = 0;
    while j < s.len()
        invariant
            j <= s@.len(),
            out@ == old(out)@ + s@.take(j as int),
        decreases s@.len() - j,
    {
        out.push(s[j]);
        assert(s@.take(j + 1 as int) =~= s@.take(j as int).push(s@[j as int]));
        j += 1;
    }
    proof {
        assert(s@.take(s@.len() as int) =~= s@);
    }
}

/// Append the range `s[from..to]` to `out`.
pub fn push_range(out: &mut Vec<char>, s: &Vec<char>, from: usize, to: usize)
    requires
        from <= to <= s@.len(),
    ensures
        final(out)@ == old(out)@ + s@.subrange(from as int, to as int),
{
    let mut j: usize = from;
    while j < to
        invariant
            from <= j <= to <= s@.len(),
            out@ == old(out)@ + s@.subrange(from as int, j as int),
        decreases to - j,
    {
        out.push(s[j]);
        assert(s@.subrange(from as int, j + 1 as int) =~= s@.subrange(
            from as int,
            j as int,
        ).push(s@[j as int]));
        j += 1;
    }
}

/// The whitespace characters this library trims and splits on.
pub open spec fn is_space(c: char) -> bool {
    c == ' ' || c == '\t' || c == '\n' || c == '\r' || c == '\u{b}' || c == '\u{c}'
}

/// Executable form of `is_space`.
pub fn is_space_char(c: char) -> (r: bool)
    ensures
        r == is_space(c),
{
    c == ' ' || c == '\t' || c == '\n' || c == '\r' || c == '\u{b}' || c == '\u{c}'
}

/// `s` with leading whitespace removed.
pub open spec fn ltrim(s: Seq<char>) -> Seq<char>
    decreases s.len(),
{
    if s.len() > 0 && is_space(s[0]) {
        ltrim(s.drop_first())
    } else {
        s
    }
}

/// `s` with trailing whitespace removed.
pub open spec fn rtrim(s: Seq<char>) -> Seq<char>
    decreases s.len(),
{
    if s.len() > 0 && is_space(s[s.len() - 1]) {
        rtrim(s.drop_last())
    } else {
        s
    }
}

/// The trimmed-right copy of `s`.
pub fn rtrim_chars(s: &Vec<char>) -> (r: Vec<char>)
    ensures
        r@ == rtrim(s@),
{
    let n = s.len();
    let mut hi: usize = n;
    while hi > 0 && is_space_char(s[hi - 1])
        invariant
            hi <= n,
            n == s@.len(),
            forall|k: int| hi <= k < n ==> is_space(s@[k]),
        decreases hi,
    {
        hi -= 1;
    }
    proof {
        lemma_rtrim_take(s@, hi as int);
        if hi > 0 {
            let pre = s@.take(hi as int);
            assert(pre[pre.len() - 1] == s@[hi - 1]);
            assert(rtrim(pre) =~= pre);
        } else {
            assert(s@.take(0) =~= Seq::<char>::empty());
            assert(rtrim(Seq::<char>::empty()) =~= Seq::<char>::empty());
        }
    }
    let mut out: Vec<char> = Vec::new();
    push_range(&mut out, s, 0, hi);
    proof {
        assert(out@ =~= s@.take(hi as int));
    }
    out
}

/// `s` with whitespace removed on both sides.
pub open spec fn trim(s: Seq<char>) -> Seq<char> {
    rtrim(ltrim(s))
}

pub proof fn lemma_ltrim_skip(s: Seq<char>, i: int)
    requires
        0 <= i <= s.len(),
        forall|k: int| 0 <= k < i ==> is_space(s[k]),
    ensures
        ltrim(s) == ltrim(s.skip(i)),
    decreases i,
{
    if i > 0 {
        assert(s.len() > 0 && is_space(s[0]));
        assert(s.drop_first() =~= s.skip(1));
        lemma_ltrim_skip(s.skip(1), i - 1);
        assert(s.skip(1).skip(i - 1) =~= s.skip(i));
    } else {
        assert(s.skip(0) =~= s);
    }
}

pub proof fn lemma_rtrim_take(s: Seq<char>, i: int)
    requires
        0 <= i <= s.len(),
        forall|k: int| i <= k < s.len() ==> is_space(s[k]),
    ensures
        rtrim(s) == rtrim(s.take(i)),
    decreases s.len() - i,
{
    if i < s.len() {
        assert(is_space(s[s.len() - 1]));
        assert(s.drop_last() =~= s.take(s.len() - 1));
        lemma_rtrim_take(s.take(s.len() - 1), i);
        assert(s.take(s.len() - 1).take(i) =~= s.take(i));
    } else {
        assert(s.take(i) =~= s);
    }
}

/// The trimmed copy of `s`.
pub fn trim_chars(s: &Vec<char>) -> (r: Vec<char>)
    ensures
        r@ == trim(s@),
{
    let n = s.len();
    let mut lo: usize = 0;
    while lo < n && is_space_char(s[lo])
        invariant
            lo <= n,
            n == s@.len(),
            forall|k: int| 0 <= k < lo ==> is_space(s@[k]),
        decreases n - lo,
    {
        lo += 1;
    }
    proof {
        lemma_ltrim_skip(s@, lo as int);
    }
    if lo == n {
        proof {
            assert(s@.skip(lo as int) =~= Seq::<char>::empty());
            assert(ltrim(s@) =~= Seq::<char>::empty());
        }
        let r: Vec<char> = Vec::new();
        return r;
    }
    // s[lo] is not a space, so ltrim(s) == s[lo..].
    assert(s@.skip(lo as int)[0] == s@[lo as int]);
    let mut hi: usize = n;
    while hi > lo + 1 && is_space_char(s[hi - 1])
        invariant
            lo < hi <= n,
            n == s@.len(),
            !is_space(s@[lo as int]),
            forall|k: int| hi <= k < n ==> is_space(s@[k]),
        decreases hi,
    {
        hi -= 1;
    }
    // Either s[hi-1] is not a space, or hi == lo + 1 and everything right
    // of lo is space.
    let mut out: Vec<char> = Vec::new();
    if is_space_char(s[hi - 1]) {
        // hi == lo + 1: the single character at lo is the whole result.
        proof {
            let tail = s@.skip(lo as int);
            lemma_rtrim_take(tail, 1);
            assert(tail.take(1) =~= seq![s@[lo as int]]);
            assert(rtrim(seq![s@[lo as int]]) =~= seq![s@[lo as int]]);
        }
        out.push(s[lo]);
        assert(out@ =~= seq![s@[lo as int]]);
        return out;
    }
    proof {
        let tail = s@.skip(lo as int);
        lemma_rtrim_take(tail, hi - lo);
        assert(tail.take(hi - lo) =~= s@.subrange(lo as int, hi as int));
        let mid = s@.subrange(lo as int, hi as int);
        assert(mid[mid.len() - 1] == s@[hi - 1]);
        assert(rtrim(mid) =~= mid);
    }
    push_range(&mut out, s, lo, hi);
    out
}

/// `s` split on the separator `sep`, with `cur` the piece gathered so far.
pub open spec fn split_acc(s: Seq<char>, sep: char, cur: Seq<char>) -> Seq<Seq<char>>
    decreases s.len(),
{
    if s.len() == 0 {
        seq![cur]
    } else if s[0] == sep {
        seq![cur] + split_acc(s.drop_first(), sep, Seq::<char>::empty())
    } else {
        split_acc(s.drop_first(), sep, cur.push(s[0]))
    }
}

/// `s` split on `sep`; always at least one piece, and empty pieces are kept.
pub open spec fn split_seq(s: Seq<char>, sep: char) -> Seq<Seq<char>> {
    split_acc(s, sep, Seq::<char>::empty())
}

/// Split `s` on the separator character, keeping empty pieces.
pub fn split_chars(s: &Vec<char>, sep: char) -> (r: Vec<Vec<char>>)
    ensures
        r@.map_values(|p: Vec<char>| p@) == split_seq(s@, sep),
{
    let n = s.len();
    let mut done: Vec<Vec<char>> = Vec::new();
    let mut cur: Vec<char> = Vec::new();
    let mut i: usize = 0;
    proof {
        assert(s@.skip(0) =~= s@);
        assert(done@.map_values(|p: Vec<char>| p@) =~= Seq::<Seq<char>>::empty());
        assert(Seq::<Seq<char>>::empty() + split_acc(s@, sep, cur@) =~= split_acc(s@, sep, cur@));
    }
    while i < n
        invariant
            i <= n,
            n == s@.len(),
            split_seq(s@, sep) == done@.map_values(|p: Vec<char>| p@) + split_acc(
                s@.skip(i as int),
                sep,
                cur@,
            ),
        decreases n - i,
    {
        proof {
            assert(s@.skip(i as int).drop_first() =~= s@.skip(i + 1));
            assert(s@.skip(i as int)[0] == s@[i as int]);
        }
        if s[i] == sep {
            let ghost prev_done = done@.map_values(|p: Vec<char>| p@);
            let ghost oc = cur@;
            let ghost rest = split_acc(s@.skip(i + 1), sep, Seq::<char>::empty());
            done.push(cur);
            cur = Vec::new();
            proof {
                assert(done@.map_values(|p: Vec<char>| p@) =~= prev_done + seq![oc]);
                assert(prev_done + (seq![oc] + rest) =~= (prev_done + seq![oc]) + rest);
            }
        } else {
            cur.push(s[i]);
        }
        i += 1;
    }
    proof {
        assert(s@.skip(n as int) =~= Seq::<char>::empty());
    }
    let ghost prev_done = done@.map_values(|p: Vec<char>| p@);
    let ghost oc = cur@;
    done.push(cur);
    proof {
        assert(done@.map_values(|p: Vec<char>| p@) =~= prev_done + seq![oc]);
    }
    done
}

/// The whitespace-separated words of `s`, with `cur` gathered so far.
pub open spec fn ws_acc(s: Seq<char>, cur: Seq<char>) -> Seq<Seq<char>>
    decreases s.len(),
{
    if s.len() == 0 {
        if cur.len() > 0 {
            seq![cur]
        } else {
            Seq::<Seq<char>>::empty()
        }
    } else if is_space(s[0]) {
        (if cur.len() > 0 {
            seq![cur]
        } else {
            Seq::<Seq<char>>::empty()
        }) + ws_acc(s.drop_first(), Seq::<char>::empty())
    } else {
        ws_acc(s.drop_first(), cur.push(s[0]))
    }
}

/// The whitespace-separated words of `s`; empty pieces are dropped.
pub open spec fn ws_words(s: Seq<char>) -> Seq<Seq<char>> {
    ws_acc(s, Seq::<char>::empty())
}

/// Split on whitespace, dropping empty pieces.
pub fn split_ws(s: &Vec<char>) -> (r: Vec<Vec<char>>)
    ensures
        r@.map_values(|p: Vec<char>| p@) == ws_words(s@),
{
    let n = s.len();
    let mut done: Vec<Vec<char>> = Vec::new();
    let mut cur: Vec<char> = Vec::new();
    let mut i: usize = 0;
    proof {
        assert(s@.skip(0) =~= s@);
        assert(done@.map_values(|p: Vec<char>| p@) =~= Seq::<Seq<char>>::empty());
        assert(Seq::<Seq<char>>::empty() + ws_acc(s@, cur@) =~= ws_acc(s@, cur@));
    }
    while i < n
        invariant
            i <= n,
            n == s@.len(),
            ws_words(s@) == done@.map_values(|p: Vec<char>| p@) + ws_acc(
                s@.skip(i as int),
                cur@,
            ),
        decreases n - i,
    {
        proof {
            assert(s@.skip(i as int).drop_first() =~= s@.skip(i + 1));
            assert(s@.skip(i as int)[0] == s@[i as int]);
        }
        if is_space_char(s[i]) {
            let ghost prev = done@.map_values(|p: Vec<char>| p@);
            let ghost oc = cur@;
            let ghost rest = ws_acc(s@.skip(i + 1), Seq::<char>::empty());
            if cur.len() > 0 {
                done.push(cur);
                cur = Vec::new();
                proof {
                    assert(done@.map_values(|p: Vec<char>| p@) =~= prev + seq![oc]);
                    assert(prev + (seq![oc] + rest) =~= (prev + seq![oc]) + rest);
                }
            } else {
                proof {
                    assert(cur@ =~= Seq::<char>::empty());
                    assert(Seq::<Seq<char>>::empty() + rest =~= rest);
                }
            }
        } else {
            cur.push(s[i]);
        }
        i += 1;
    }
    proof {
        assert(s@.skip(n as int) =~= Seq::<char>::empty());
    }
    let ghost prev = done@.map_values(|p: Vec<char>| p@);
    let ghost oc = cur@;
    if cur.len() > 0 {
        done.push(cur);
        proof {
            assert(done@.map_values(|p: Vec<char>| p@) =~= prev + seq![oc]);
        }
    } else {
        proof {
            assert(prev + Seq::<Seq<char>>::empty() =~= prev);
        }
    }
    done
}

/// The pieces joined with `sep` between them.
pub open spec fn join_with(parts: Seq<Seq<char>>, sep: Seq<char>) -> Seq<char>
    decreases parts.len(),
{
    if parts.len() == 0 {
        Seq::<char>::empty()
    } else if parts.len() == 1 {
        parts[0]
    } else {
        parts[0] + sep + join_with(parts.drop_first(), sep)
    }
}

proof fn lemma_join_step(parts: Seq<Seq<char>>, sep: Seq<char>, i: int)
    requires
        1 <= i < parts.len(),
    ensures
        join_with(parts.take(i + 1), sep) == join_with(parts.take(i), sep) + sep + parts[i],
    decreases i,
{
    let a = parts.take(i + 1);
    let b = parts.take(i);
    if i == 1 {
        let s1 = seq![parts[1]];
        assert(join_with(s1, sep) == parts[1]);
        assert(a.drop_first() =~= s1);
        assert(join_with(a, sep) == a[0] + sep + join_with(a.drop_first(), sep));
        assert(b =~= seq![parts[0]]);
        assert(join_with(b, sep) == parts[0]);
    } else {
        let pd = parts.drop_first();
        lemma_join_step(pd, sep, i - 1);
        assert(a.drop_first() =~= pd.take(i));
        assert(b.drop_first() =~= pd.take(i - 1));
        assert(join_with(a, sep) == a[0] + sep + join_with(pd.take(i), sep));
        assert(join_with(b, sep) == b[0] + sep + join_with(pd.take(i - 1), sep));
        assert(pd[i - 1] == parts[i]);
        let x = join_with(pd.take(i - 1), sep);
        assert(join_with(pd.take(i), sep) == x + sep + parts[i]);
        // Reassociate the concatenation.
        assert(parts[0] + sep + (x + sep + parts[i]) =~= (parts[0] + sep + x) + sep + parts[i]);
    }
}

/// Join the pieces with the separator string.
pub fn join_chars(parts: &Vec<Vec<char>>, sep: &Vec<char>) -> (r: Vec<char>)
    ensures
        r@ == join_with(parts@.map_values(|p: Vec<char>| p@), sep@),
{
    let ghost gparts = parts@.map_values(|p: Vec<char>| p@);
    let mut out: Vec<char> = Vec::new();
    if parts.len() == 0 {
        return out;
    }
    push_all(&mut out, &parts[0]);
    proof {
        assert(gparts.take(1) =~= seq![gparts[0]]);
    }
    let mut i: usize = 1;
    while i < parts.len()
        invariant
            1 <= i <= gparts.len(),
            gparts == parts@.map_values(|p: Vec<char>| p@),
            out@ == join_with(gparts.take(i as int), sep@),
        decreases gparts.len() - i,
    {
        push_all(&mut out, sep);
        push_all(&mut out, &parts[i]);
        proof {
            lemma_join_step(gparts, sep@, i as int);
        }
        i += 1;
    }
    proof {
        assert(gparts.take(gparts.len() as int) =~= gparts);
    }
    out
}

} // verus!
