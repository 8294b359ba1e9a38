//! Path allowlist with purely lexical resolution.
//!
//! A path is modelled as its absoluteness flag plus its list of
//! components, with `.` and empty components dropped and `..` resolved
//! against the stack of components seen so far.  Callers that can
//! consult the filesystem resolve symlinks first and hand the result to
//! the same checks, so a symlink pointing outside an allowed directory
//! is judged by its target.

use vstd::prelude::*;

use crate::text::chars_string;
use crate::text::push_all;
use crate::text::str_chars;

verus! {

/// The `..` component.
pub open spec fn dotdot() -> Seq<char> {
    seq!['.', '.']
}

/// A component worth keeping: non-empty and not `.`.
pub open spec fn keep_comp(c: Seq<char>) -> bool {
    c.len() > 0 && c != seq!['.']
}

/// The kept components of `s`, split on `/`, with `cur` gathered so far.
pub open spec fn comps_acc(s: Seq<char>, cur: Seq<char>) -> Seq<Seq<char>>
    decreases s.len(),
{
    if s.len() == 0 {
        if keep_comp(cur) {
            seq![cur]
        } else {
            Seq::<Seq<char>>::empty()
        }
    } else if s[0] == '/' {
        (if keep_comp(cur) {
            seq![cur]
        } else {
            Seq::<Seq<char>>::empty()
        }) + comps_acc(s.drop_first(), Seq::<char>::empty())
    } else {
        comps_acc(s.drop_first(), cur.push(s[0]))
    }
}

/// The kept components of the path `s`.
pub open spec fn path_comps(s: Seq<char>) -> Seq<Seq<char>> {
    comps_acc(s, Seq::<char>::empty())
}

/// True iff the path is absolute.
pub open spec fn is_abs(s: Seq<char>) -> bool {
    s.len() > 0 && s[0] == '/'
}

/// Lexical normalization: `..` pops the last component when one is
/// there, and disappears at the root.
pub open spec fn norm_comps(comps: Seq<Seq<char>>, acc: Seq<Seq<char>>) -> Seq<Seq<char>>
    decreases comps.len(),
{
    if comps.len() == 0 {
        acc
    } else if comps[0] == dotdot() {
        norm_comps(
            comps.drop_first(),
            if acc.len() > 0 {
                acc.drop_last()
            } else {
                acc
            },
        )
    } else {
        norm_comps(comps.drop_first(), acc.push(comps[0]))
    }
}

/// The normalized component list of the path `s`.
pub open spec fn spec_norm(s: Seq<char>) -> Seq<Seq<char>> {
    norm_comps(path_comps(s), Seq::<Seq<char>>::empty())
}

/// Joining `b` onto `a`: an absolute `b` replaces `a`.
pub open spec fn spec_join(a: Seq<char>, b: Seq<char>) -> Seq<char> {
    if is_abs(b) {
        b
    } else {
        a + seq!['/'] + b
    }
}

/// `b` is a componentwise prefix of `a`.
pub open spec fn comps_prefix(a: Seq<Seq<char>>, b: Seq<Seq<char>>) -> bool {
    b.len() <= a.len() && a.take(b.len() as int) == b
}

/// A resolved path: absoluteness plus normalized components.
pub struct Resolved {
    pub abs: bool,
    pub comps: Vec<Vec<char>>,
}

/// Filesystem allowlist.
///
/// `allowed_paths` and `temp_paths` are directory prefixes; `home_dir`
/// expands a leading `~`; `base_dir` anchors relative paths.
#[derive(Clone, Debug)]
pub struct PathPolicy {
    pub allowed_paths: Vec<String>,
    pub temp_paths: Vec<String>,
    pub home_dir: Option<String>,
    pub base_dir: Option<String>,
}

/// The path `raw` after `~` expansion against the policy's home.
pub open spec fn spec_expand_tilde(home: Option<String>, raw: Seq<char>) -> Seq<char> {
    if home is Some && raw == seq!['~'] {
        (home->0)@
    } else if home is Some && raw.len() >= 2 && raw[0] == '~' && raw[1] == '/' {
        spec_join((home->0)@, raw.skip(2))
    } else {
        raw
    }
}

/// The resolved form of a user-supplied path: `~` expansion, anchoring
/// of relative paths at the base, then lexical normalization.  `None`
/// when a relative path has no base to resolve against.
pub open spec fn spec_resolve(policy: &PathPolicy, raw: Seq<char>) -> Option<(bool, Seq<Seq<
    char,
>>)> {
    let e = spec_expand_tilde(policy.home_dir, raw);
    if is_abs(e) {
        Some((true, spec_norm(e)))
    } else if policy.base_dir is Some {
        let j = spec_join((policy.base_dir->0)@, e);
        Some((is_abs(j), spec_norm(j)))
    } else {
        None
    }
}

/// An allowlist entry after `~` expansion of its first component.
pub open spec fn spec_expand_allowed(home: Option<String>, a: Seq<char>) -> Seq<char> {
    if home is Some && !is_abs(a) && path_comps(a).len() > 0 && path_comps(a)[0] == seq!['~'] {
        spec_join((home->0)@, crate::text::join_with(path_comps(a).drop_first(), seq!['/']))
    } else {
        a
    }
}

/// The resolved form of an allowlist entry.
pub open spec fn spec_resolve_allowed(policy: &PathPolicy, a: Seq<char>) -> Option<(bool, Seq<
    Seq<char>,
>)> {
    let e = spec_expand_allowed(policy.home_dir, a);
    if is_abs(e) {
        Some((true, spec_norm(e)))
    } else if policy.base_dir is Some {
        let j = spec_join((policy.base_dir->0)@, e);
        Some((is_abs(j), spec_norm(j)))
    } else {
        None
    }
}

/// True iff the resolved path sits under the resolved prefix: same
/// absoluteness and a componentwise prefix (equality included).
pub open spec fn spec_under(r: (bool, Seq<Seq<char>>), p: (bool, Seq<Seq<char>>)) -> bool {
    r.0 == p.0 && comps_prefix(r.1, p.1)
}

/// The path-allowlist outcome: the path resolves, and its resolved form
/// sits under some temp prefix or some resolved allowlist entry.
pub open spec fn spec_is_path_allowed(policy: &PathPolicy, raw: Seq<char>) -> bool {
    match spec_resolve(policy, raw) {
        Some(r) => {
            ||| exists|i: int|
                0 <= i < policy.temp_paths@.len() && spec_under(
                    r,
                    (
                        is_abs(policy.temp_paths@[i]@),
                        spec_norm(policy.temp_paths@[i]@),
                    ),
                )
            ||| exists|i: int|
                0 <= i < policy.allowed_paths@.len() && {
                    match spec_resolve_allowed(policy, (#[trigger] policy.allowed_paths@[i])@) {
                        Some(p) => spec_under(r, p),
                        None => false,
                    }
                }
        },
        None => false,
    }
}

/// The kept components of a path.
pub fn comps_of(s: &Vec<char>) -> (r: Vec<Vec<char>>)
    ensures
        r@.map_values(|p: Vec<char>| p@) == path_comps(s@),
{
    let n = s.len();
    let mut done: Vec<Vec<char>> = Vec::new();
    let mut cur: Vec<char> = Vec::new();
    let mut i: usize = 0;
    proof {
        assert(s@.skip(0) =~= s@);
        assert(done@.map_values(|p: Vec<char>| p@) =~= Seq::<Seq<char>>::empty());
        assert(Seq::<Seq<char>>::empty() + comps_acc(s@, cur@) =~= comps_acc(s@, cur@));
    }
    while i < n
        invariant
            i <= n,
            n == s@.len(),
            path_comps(s@) == done@.map_values(|p: Vec<char>| p@) + comps_acc(
                s@.skip(i as int),
                cur@,
            ),
        decreases n - i,
    {
        proof {
            assert(s@.skip(i as int).drop_first() =~= s@.skip(i + 1));
            assert(s@.skip(i as int)[0] == s@[i as int]);
        }
        if s[i] == '/' {
            let keep = cur.len() > 0 && !(cur.len() == 1 && cur[0] == '.');
            proof {
                if cur@.len() == 1 && cur@[0] == '.' {
                    assert(cur@ =~= seq!['.']);
                }
                if cur@ == seq!['.'] {
                    assert(cur@.len() == 1 && cur@[0] == '.');
                }
            }
            let ghost prev_done = done@.map_values(|p: Vec<char>| p@);
            let ghost oc = cur@;
            let ghost rest = comps_acc(s@.skip(i + 1), Seq::<char>::empty());
            if keep {
                done.push(cur);
                proof {
                    assert(done@.map_values(|p: Vec<char>| p@) =~= prev_done + seq![oc]);
                    assert(prev_done + (seq![oc] + rest) =~= (prev_done + seq![oc]) + rest);
                }
            } else {
                proof {
                    assert(Seq::<Seq<char>>::empty() + rest =~= rest);
                }
            }
            cur = Vec::new();
        } else {
            cur.push(s[i]);
        }
        i += 1;
    }
    proof {
        assert(s@.skip(n as int) =~= Seq::<char>::empty());
    }
    let keep = cur.len() > 0 && !(cur.len() == 1 && cur[0] == '.');
    proof {
        if cur@.len() == 1 && cur@[0] == '.' {
            assert(cur@ =~= seq!['.']);
        }
        if cur@ == seq!['.'] {
            assert(cur@.len() == 1 && cur@[0] == '.');
        }
    }
    let ghost prev_done = done@.map_values(|p: Vec<char>| p@);
    let ghost oc = cur@;
    if keep {
        done.push(cur);
        proof {
            assert(done@.map_values(|p: Vec<char>| p@) =~= prev_done + seq![oc]);
        }
    } else {
        proof {
            assert(prev_done + Seq::<Seq<char>>::empty() =~= prev_done);
        }
    }
    done
}

/// Normalize a component list: resolve `..` lexically.
fn normalize_comps(comps: Vec<Vec<char>>) -> (r: Vec<Vec<char>>)
    ensures
        r@.map_values(|p: Vec<char>| p@) == norm_comps(
            comps@.map_values(|p: Vec<char>| p@),
            Seq::<Seq<char>>::empty(),
        ),
{
    let ghost gcomps = comps@.map_values(|p: Vec<char>| p@);
    let mut stack: Vec<Vec<char>> = Vec::new();
    let mut i: usize = 0;
    let mut dd: Vec<char> = Vec::new();
    dd.push('.');
    dd.push('.');
    assert(dd@ =~= dotdot());
    proof {
        assert(gcomps.skip(0) =~= gcomps);
        assert(stack@.map_values(|p: Vec<char>| p@) =~= Seq::<Seq<char>>::empty());
    }
    while i < comps.len()
        invariant
            i <= gcomps.len(),
            gcomps == comps@.map_values(|p: Vec<char>| p@),
            dd@ == dotdot(),
            norm_comps(gcomps, Seq::<Seq<char>>::empty()) == norm_comps(
                gcomps.skip(i as int),
                stack@.map_values(|p: Vec<char>| p@),
            ),
        decreases gcomps.len() - i,
    {
        proof {
            assert(gcomps.skip(i as int).drop_first() =~= gcomps.skip(i + 1));
            assert(gcomps.skip(i as int)[0] == gcomps[i as int]);
            assert(gcomps[i as int] == comps@[i as int]@);
        }
        let ghost prev = stack@.map_values(|p: Vec<char>| p@);
        if crate::text::chars_eq(&comps[i], &dd) {
            if stack.len() > 0 {
                stack.pop();
                proof {
                    assert(stack@.map_values(|p: Vec<char>| p@) =~= prev.drop_last());
                }
            }
        } else {
            let c = comps[i].clone();
            proof {
                assert(c@ == comps@[i as int]@);
            }
            stack.push(c);
            proof {
                assert(stack@.map_values(|p: Vec<char>| p@) =~= prev.push(gcomps[i as int]));
            }
        }
        i += 1;
    }
    proof {
        assert(gcomps.skip(gcomps.len() as int) =~= Seq::<Seq<char>>::empty());
    }
    stack
}

/// Resolve a path string lexically into absoluteness plus components.
fn norm_of(s: &Vec<char>) -> (r: Resolved)
    ensures
        r.abs == is_abs(s@),
        r.comps@.map_values(|p: Vec<char>| p@) == spec_norm(s@),
{
    let abs = s.len() > 0 && s[0] == '/';
    let comps = comps_of(s);
    let normed = normalize_comps(comps);
    Resolved { abs, comps: normed }
}

/// Join `b` onto `a` textually; an absolute `b` stands alone.
fn join_chars_path(a: &Vec<char>, b: &Vec<char>) -> (r: Vec<char>)
    ensures
        r@ == spec_join(a@, b@),
{
    if b.len() > 0 && b[0] == '/' {
        let mut out: Vec<char> = Vec::new();
        push_all(&mut out, b);
        assert(out@ =~= b@);
        return out;
    }
    let mut out: Vec<char> = Vec::new();
    push_all(&mut out, a);
    out.push('/');
    push_all(&mut out, b);
    assert(out@ =~= a@ + seq!['/'] + b@);
    out
}

impl PathPolicy {
    /// Expand a leading `~` or `~/` against the configured home.
    fn expand_tilde(&self, raw: &Vec<char>) -> (r: Vec<char>)
        ensures
            r@ == spec_expand_tilde(self.home_dir, raw@),
    {
        match &self.home_dir {
            Some(home) => {
                let hc = str_chars(home.as_str());
                if raw.len() == 1 && raw[0] == '~' {
                    assert(raw@ =~= seq!['~']);
                    let mut out: Vec<char> = Vec::new();
                    push_all(&mut out, &hc);
                    assert(out@ =~= home@);
                    return out;
                }
                proof {
                    if raw@ == seq!['~'] {
                        assert(raw@.len() == 1 && raw@[0] == '~');
                    }
                }
                if raw.len() >= 2 && raw[0] == '~' && raw[1] == '/' {
                    let mut rest: Vec<char> = Vec::new();
                    crate::text::push_range(&mut rest, raw, 2, raw.len());
                    assert(rest@ =~= raw@.skip(2));
                    return join_chars_path(&hc, &rest);
                }
                let mut out: Vec<char> = Vec::new();
                push_all(&mut out, raw);
                assert(out@ =~= raw@);
                out
            },
            None => {
                let mut out: Vec<char> = Vec::new();
                push_all(&mut out, raw);
                assert(out@ =~= raw@);
                out
            },
        }
    }

    /// Resolve a user-supplied path lexically; `None` when a relative
    /// path has no base directory to resolve against.
    pub fn resolve_user_path(&self, raw: &str) -> (r: Option<Resolved>)
        ensures
            match r {
                Some(res) => spec_resolve(self, raw@) == Some(
                    (res.abs, res.comps@.map_values(|p: Vec<char>| p@)),
                ),
                None => spec_resolve(self, raw@) is None,
            },
    {
        let rc = str_chars(raw);
        let e = self.expand_tilde(&rc);
        if e.len() > 0 && e[0] == '/' {
            return Some(norm_of(&e));
        }
        match &self.base_dir {
            Some(base) => {
                let bc = str_chars(base.as_str());
                let j = join_chars_path(&bc, &e);
                Some(norm_of(&j))
            },
            None => None,
        }
    }

    /// Resolve one allowlist entry, expanding a leading `~` component.
    fn resolve_allowed(&self, a: &Vec<char>) -> (r: Option<Resolved>)
        ensures
            match r {
                Some(res) => spec_resolve_allowed(self, a@) == Some(
                    (res.abs, res.comps@.map_values(|p: Vec<char>| p@)),
                ),
                None => spec_resolve_allowed(self, a@) is None,
            },
    {
        let abs = a.len() > 0 && a[0] == '/';
        let mut e: Vec<char> = Vec::new();
        let mut expanded = false;
        match &self.home_dir {
            Some(home) => {
                if !abs {
                    let comps = comps_of(a);
                    if comps.len() > 0 && comps[0].len() == 1 && comps[0][0] == '~' {
                        proof {
                            assert(comps@.map_values(|p: Vec<char>| p@)[0] =~= seq!['~']);
                        }
                        let hc = str_chars(home.as_str());
                        let mut sep: Vec<char> = Vec::new();
                        sep.push('/');
                        assert(sep@ =~= seq!['/']);
                        let mut tail: Vec<Vec<char>> = Vec::new();
                        let mut k: usize = 1;
                        while k < comps.len()
                            invariant
                                1 <= k <= comps@.len(),
                                tail@.map_values(|p: Vec<char>| p@) == comps@.map_values(
                                    |p: Vec<char>| p@,
                                ).subrange(1, k as int),
                            decreases comps@.len() - k,
                        {
                            let ghost prev = tail@.map_values(|p: Vec<char>| p@);
                            let c = comps[k].clone();
                            proof {
                                assert(c@ == comps@[k as int]@);
                            }
                            tail.push(c);
                            proof {
                                assert(tail@.map_values(|p: Vec<char>| p@) =~= prev.push(
                                    comps@.map_values(|p: Vec<char>| p@)[k as int],
                                ));
                                assert(comps@.map_values(|p: Vec<char>| p@).subrange(
                                    1,
                                    k + 1,
                                ) =~= comps@.map_values(|p: Vec<char>| p@).subrange(
                                    1,
                                    k as int,
                                ).push(comps@.map_values(|p: Vec<char>| p@)[k as int]));
                            }
                            k += 1;
                        }
                        proof {
                            assert(comps@.map_values(|p: Vec<char>| p@).subrange(
                                1,
                                comps@.len() as int,
                            ) =~= comps@.map_values(|p: Vec<char>| p@).drop_first());
                        }
                        let joined = crate::text::join_chars(&tail, &sep);
                        let je = join_chars_path(&hc, &joined);
                        push_all(&mut e, &je);
                        assert(e@ =~= je@);
                        expanded = true;
                    }
                }
            },
            None => {},
        }
        if !expanded {
            push_all(&mut e, a);
            proof {
                assert(e@ =~= a@);
            }
        }
        proof {
            assert(e@ == spec_expand_allowed(self.home_dir, a@));
        }
        if e.len() > 0 && e[0] == '/' {
            return Some(norm_of(&e));
        }
        match &self.base_dir {
            Some(base) => {
                let bc = str_chars(base.as_str());
                let j = join_chars_path(&bc, &e);
                Some(norm_of(&j))
            },
            None => None,
        }
    }

    /// True iff the resolved path sits under some temp prefix or some
    /// allowlist entry; a path that cannot be resolved is denied.
    pub fn is_path_allowed(&self, raw: &str) -> (r: bool)
        ensures
            r == spec_is_path_allowed(self, raw@),
    {
        let resolved = match self.resolve_user_path(raw) {
            Some(r) => r,
            None => {
                return false;
            },
        };
        let mut i: usize = 0;
        while i < self.temp_paths.len()
            invariant
                i <= self.temp_paths@.len(),
                spec_resolve(self, raw@) == Some(
                    (resolved.abs, resolved.comps@.map_values(|p: Vec<char>| p@)),
                ),
                forall|k: int|
                    0 <= k < i ==> !spec_under(
                        (resolved.abs, resolved.comps@.map_values(|p: Vec<char>| p@)),
                        (
                            is_abs(self.temp_paths@[k]@),
                            spec_norm(self.temp_paths@[k]@),
                        ),
                    ),
            decreases self.temp_paths@.len() - i,
        {
            let tc = str_chars(self.temp_paths[i].as_str());
            let t = norm_of(&tc);
            if under(&resolved, &t) {
                return true;
            }
            i += 1;
        }
        let mut j: usize = 0;
        while j < self.allowed_paths.len()
            invariant
                j <= self.allowed_paths@.len(),
                spec_resolve(self, raw@) == Some(
                    (resolved.abs, resolved.comps@.map_values(|p: Vec<char>| p@)),
                ),
                forall|k: int|
                    0 <= k < self.temp_paths@.len() ==> !spec_under(
                        (resolved.abs, resolved.comps@.map_values(|p: Vec<char>| p@)),
                        (
                            is_abs(self.temp_paths@[k]@),
                            spec_norm(self.temp_paths@[k]@),
                        ),
                    ),
                forall|k: int|
                    0 <= k < j ==> match spec_resolve_allowed(
                        self,
                        (#[trigger] self.allowed_paths@[k])@,
                    ) {
                        Some(p) => !spec_under(
                            (resolved.abs, resolved.comps@.map_values(|q: Vec<char>| q@)),
                            p,
                        ),
                        None => true,
                    },
            decreases self.allowed_paths@.len() - j,
        {
            let ac = str_chars(self.allowed_paths[j].as_str());
            match self.resolve_allowed(&ac) {
                Some(p) => {
                    if under(&resolved, &p) {
                        return true;
                    }
                },
                None => {},
            }
            j += 1;
        }
        false
    }
}

/// True iff `r` sits under the prefix `p`.
fn under(r: &Resolved, p: &Resolved) -> (res: bool)
    ensures
        res == spec_under(
            (r.abs, r.comps@.map_values(|q: Vec<char>| q@)),
            (p.abs, p.comps@.map_values(|q: Vec<char>| q@)),
        ),
{
    if r.abs != p.abs {
        return false;
    }
    if p.comps.len() > r.comps.len() {
        return false;
    }
    let ghost gr = r.comps@.map_values(|q: Vec<char>| q@);
    let ghost gp = p.comps@.map_values(|q: Vec<char>| q@);
    let mut i: usize = 0;
    while i < p.comps.len()
        invariant
            i <= gp.len(),
            gp.len() <= gr.len(),
            gr == r.comps@.map_values(|q: Vec<char>| q@),
            gp == p.comps@.map_values(|q: Vec<char>| q@),
            forall|k: int| 0 <= k < i ==> gr[k] == gp[k],
        decreases gp.len() - i,
    {
        if !crate::text::chars_eq(&r.comps[i], &p.comps[i]) {
            proof {
                assert(gr[i as int] != gp[i as int]);
                assert(gr.take(gp.len() as int)[i as int] == gr[i as int]);
            }
            return false;
        }
        i += 1;
    }
    proof {
        assert(gr.take(gp.len() as int) =~= gp);
    }
    true
}

/// Every path that resolves outside all temp prefixes and all resolved
/// allowlist entries is denied, and an unresolvable path is denied too.
pub proof fn lemma_path_outside_all_is_denied(policy: &PathPolicy, raw: Seq<char>)
    requires
        spec_resolve(policy, raw) matches Some(r) ==> {
            &&& forall|i: int|
                0 <= i < policy.temp_paths@.len() ==> !spec_under(
                    r,
                    (
                        is_abs(policy.temp_paths@[i]@),
                        spec_norm(policy.temp_paths@[i]@),
                    ),
                )
            &&& forall|i: int|
                0 <= i < policy.allowed_paths@.len() ==> match spec_resolve_allowed(
                    policy,
                    (#[trigger] policy.allowed_paths@[i])@,
                ) {
                    Some(p) => !spec_under(r, p),
                    None => true,
                }
        },
    ensures
        !spec_is_path_allowed(policy, raw),
{
}

} // verus!
