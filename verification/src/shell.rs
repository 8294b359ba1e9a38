//! Shell-word splitting and the command allowlist check.

use vstd::prelude::*;

use crate::paths::PathPolicy;
use crate::paths::spec_is_path_allowed;
use crate::text::chars_string;
use crate::text::contains_seq;
use crate::text::is_space;
use crate::text::lower_of;
use crate::text::push_all;
use crate::text::str_chars;
use crate::text::to_lowercase;

verus! {

/// The words of `s` under shell quoting: single and double quotes group,
/// a backslash outside single quotes escapes the next character, and
/// unquoted whitespace separates words.  `cur` is the word gathered so
/// far and `done` the words already closed.
pub open spec fn shell_words_acc(
    s: Seq<char>,
    in_single: bool,
    in_double: bool,
    cur: Seq<char>,
    done: Seq<Seq<char>>,
) -> Seq<Seq<char>>
    decreases s.len(),
{
    if s.len() == 0 {
        if cur.len() > 0 {
            done.push(cur)
        } else {
            done
        }
    } else {
        let c = s[0];
        let rest = s.drop_first();
        if c == '\'' && !in_double {
            shell_words_acc(rest, !in_single, in_double, cur, done)
        } else if c == '"' && !in_single {
            shell_words_acc(rest, in_single, !in_double, cur, done)
        } else if c == '\\' && !in_single {
            if rest.len() == 0 {
                if cur.len() > 0 {
                    done.push(cur)
                } else {
                    done
                }
            } else {
                shell_words_acc(rest.drop_first(), in_single, in_double, cur.push(rest[0]), done)
            }
        } else if is_space(c) && !in_single && !in_double {
            if cur.len() > 0 {
                shell_words_acc(rest, in_single, in_double, Seq::<char>::empty(), done.push(cur))
            } else {
                shell_words_acc(rest, in_single, in_double, cur, done)
            }
        } else {
            shell_words_acc(rest, in_single, in_double, cur.push(c), done)
        }
    }
}

/// The shell words of `s`.
pub open spec fn spec_shell_words(s: Seq<char>) -> Seq<Seq<char>> {
    shell_words_acc(s, false, false, Seq::<char>::empty(), Seq::<Seq<char>>::empty())
}

/// Split a command line into shell words, honouring quotes and
/// backslash escapes outside single quotes.
pub fn split_shell_words(s: &str) -> (r: Vec<String>)
    ensures
        r@.map_values(|w: String| w@) == spec_shell_words(s@),
{
    let cs = str_chars(s);
    let n = cs.len();
    let mut done: Vec<String> = Vec::new();
    let mut cur: Vec<char> = Vec::new();
    let mut in_single = false;
    let mut in_double = false;
    let mut i: usize = 0;
    proof {
        assert(cs@.skip(0) =~= cs@);
        assert(done@.map_values(|w: String| w@) =~= Seq::<Seq<char>>::empty());
    }
    while i < n
        invariant
            i <= n,
            n == cs@.len(),
            spec_shell_words(cs@) == shell_words_acc(
                cs@.skip(i as int),
                in_single,
                in_double,
                cur@,
                done@.map_values(|w: String| w@),
            ),
        decreases n - i,
    {
        proof {
            assert(cs@.skip(i as int).drop_first() =~= cs@.skip(i + 1));
            assert(cs@.skip(i as int)[0] == cs@[i as int]);
        }
        let c = cs[i];
        if c == '\'' && !in_double {
            in_single = !in_single;
            i += 1;
        } else if c == '"' && !in_single {
            in_double = !in_double;
            i += 1;
        } else if c == '\\' && !in_single {
            if i + 1 < n {
                proof {
                    assert(cs@.skip(i as int).drop_first().drop_first() =~= cs@.skip(i + 2));
                    assert(cs@.skip(i as int).drop_first()[0] == cs@[i + 1]);
                }
                cur.push(cs[i + 1]);
                i += 2;
            } else {
                proof {
                    assert(cs@.skip(i as int).drop_first().len() == 0);
                }
                i += 1;
            }
        } else if crate::text::is_space_char(c) && !in_single && !in_double {
            if cur.len() > 0 {
                let ghost prev = done@.map_values(|w: String| w@);
                let ghost oc = cur@;
                let word = chars_string(&cur);
                done.push(word);
                cur = Vec::new();
                proof {
                    assert(done@.map_values(|w: String| w@) =~= prev.push(oc));
                }
            }
            i += 1;
        } else {
            cur.push(c);
            i += 1;
        }
    }
    proof {
        assert(cs@.skip(n as int) =~= Seq::<char>::empty());
    }
    if cur.len() > 0 {
        let ghost prev = done@.map_values(|w: String| w@);
        let ghost oc = cur@;
        let word = chars_string(&cur);
        done.push(word);
        proof {
            assert(done@.map_values(|w: String| w@) =~= prev.push(oc));
        }
    }
    done
}

/// The word that invokes `rm`.
pub open spec fn is_rm_word(w: Seq<char>) -> bool {
    w == seq!['r', 'm'] || w == seq!['/', 'b', 'i', 'n', '/', 'r', 'm']
}

/// A blocked-pattern hit at index `i` of the list.
pub open spec fn blocked_hit_at(cmd: Seq<char>, blocked: Seq<String>, i: int) -> bool {
    0 <= i < blocked.len() && contains_seq(lower_of(cmd), lower_of(blocked[i]@))
}

/// The first blocked pattern the command contains, if any.
pub open spec fn first_blocked_index(cmd: Seq<char>, blocked: Seq<String>) -> Option<int> {
    if exists|i: int| blocked_hit_at(cmd, blocked, i) {
        Some(choose|i: int| blocked_hit_at(cmd, blocked, i) && forall|k: int|
            0 <= k < i ==> !blocked_hit_at(cmd, blocked, k))
    } else {
        None
    }
}

/// An offending `rm` argument: after the `rm` word, not a flag, and
/// not an allowed path.
pub open spec fn bad_rm_arg_at(
    policy: &PathPolicy,
    words: Seq<Seq<char>>,
    rm_idx: int,
    k: int,
) -> bool {
    &&& rm_idx < k < words.len()
    &&& !(words[k].len() > 0 && words[k][0] == '-')
    &&& !spec_is_path_allowed(policy, words[k])
}

/// The first offending `rm` argument, if any.
pub open spec fn first_bad_rm_arg(policy: &PathPolicy, words: Seq<Seq<char>>, rm_idx: int) -> Option<
    int,
> {
    if exists|k: int| bad_rm_arg_at(policy, words, rm_idx, k) {
        Some(choose|k: int| bad_rm_arg_at(policy, words, rm_idx, k) && forall|j: int|
            rm_idx < j < k ==> !bad_rm_arg_at(policy, words, rm_idx, j))
    } else {
        None
    }
}

/// The exact reason text the check reports: the first blocked pattern,
/// else the first offending `rm` target, else nothing.
pub open spec fn spec_command_reason(cmd: Seq<char>, blocked: Seq<String>, policy: &PathPolicy) -> Seq<
    char,
> {
    match first_blocked_index(cmd, blocked) {
        Some(i) => "Blocked pattern: "@ + blocked[i]@,
        None => {
            let words = spec_shell_words(cmd);
            match first_rm_index(words) {
                Some(ri) => match first_bad_rm_arg(policy, words, ri) {
                    Some(j) => "rm target outside allowed paths: "@ + words[j],
                    None => Seq::<char>::empty(),
                },
                None => Seq::<char>::empty(),
            }
        },
    }
}

/// The first index naming `rm`, if any.
pub open spec fn first_rm_index(words: Seq<Seq<char>>) -> Option<int> {
    if exists|i: int| 0 <= i < words.len() && is_rm_word(words[i]) {
        Some(choose|i: int| 0 <= i < words.len() && is_rm_word(words[i]) && forall|k: int|
            0 <= k < i ==> !is_rm_word(words[k]))
    } else {
        None
    }
}

/// A blocked pattern occurs in the command, compared lowercase.
pub open spec fn spec_blocked_hit(cmd: Seq<char>, blocked: Seq<String>) -> bool {
    exists|i: int|
        0 <= i < blocked.len() && contains_seq(lower_of(cmd), lower_of((#[trigger] blocked[i])@))
}

/// Every non-flag argument after the `rm` word passes the path policy.
pub open spec fn spec_rm_targets_ok(policy: &PathPolicy, words: Seq<Seq<char>>, rm_idx: int) -> bool {
    forall|k: int|
        rm_idx < k < words.len() ==> ((#[trigger] words[k]).len() > 0 && words[k][0] == '-')
            || spec_is_path_allowed(policy, words[k])
}

/// The command-safety outcome: no blocked substring, and if some word
/// invokes `rm`, every non-flag argument after the first such word is
/// an allowed path.  The `rm` rule fires on the first word naming `rm`
/// wherever it stands in the command, not only in leading position:
/// the stricter reading, deliberately.
pub open spec fn spec_command_ok(cmd: Seq<char>, blocked: Seq<String>, policy: &PathPolicy) -> bool {
    &&& !spec_blocked_hit(cmd, blocked)
    &&& match first_rm_index(spec_shell_words(cmd)) {
        Some(i) => spec_rm_targets_ok(policy, spec_shell_words(cmd), i),
        None => true,
    }
}

/// Check a shell command against the blocked substrings and, for `rm`,
/// against the path policy.  Returns the outcome and, when blocked, a
/// non-empty reason.
pub fn check_command_safety(command: &str, blocked_patterns: &Vec<String>, paths: &PathPolicy) -> (r:
    (bool, String))
    ensures
        r.0 == spec_command_ok(command@, blocked_patterns@, paths),
        r.1@ == spec_command_reason(command@, blocked_patterns@, paths),
        r.0 ==> r.1@ == Seq::<char>::empty(),
        !r.0 ==> r.1@.len() > 0,
{
    let lower = to_lowercase(command);
    let lower_cs = str_chars(lower.as_str());
    let mut bi: usize = 0;
    while bi < blocked_patterns.len()
        invariant
            bi <= blocked_patterns@.len(),
            lower_cs@ == lower_of(command@),
            forall|k: int|
                0 <= k < bi ==> !contains_seq(
                    lower_of(command@),
                    lower_of((#[trigger] blocked_patterns@[k])@),
                ),
        decreases blocked_patterns@.len() - bi,
    {
        let pat = to_lowercase(blocked_patterns[bi].as_str());
        let pat_cs = str_chars(pat.as_str());
        let hit = if pat_cs.len() == 0 {
            // The empty pattern is a substring of anything.
            proof {
                assert(crate::text::matches_at(lower_cs@, pat_cs@, 0));
            }
            true
        } else {
            crate::text::contains_chars(&lower_cs, &pat_cs)
        };
        if hit {
            proof {
                assert(blocked_hit_at(command@, blocked_patterns@, bi as int));
                let gi = first_blocked_index(command@, blocked_patterns@);
                assert(gi is Some);
                let ci = gi->0;
                assert(blocked_hit_at(command@, blocked_patterns@, ci));
                assert(ci == bi as int) by {
                    if ci < bi as int {
                        assert(!blocked_hit_at(command@, blocked_patterns@, ci));
                    }
                    if ci > bi as int {
                        assert(!blocked_hit_at(command@, blocked_patterns@, bi as int));
                    }
                }
                assert(gi == Some(bi as int));
            }
            let mut reason: Vec<char> = Vec::new();
            let prefix = str_chars("Blocked pattern: ");
            push_all(&mut reason, &prefix);
            let pc = str_chars(blocked_patterns[bi].as_str());
            push_all(&mut reason, &pc);
            proof {
                reveal_strlit("Blocked pattern: ");
                assert(prefix@ == "Blocked pattern: "@);
                assert(reason@ =~= "Blocked pattern: "@ + blocked_patterns@[bi as int]@);
                assert(reason@.len() > 0);
            }
            return (false, chars_string(&reason));
        }
        bi += 1;
    }
    proof {
        assert(!spec_blocked_hit(command@, blocked_patterns@));
        assert(forall|i: int| !blocked_hit_at(command@, blocked_patterns@, i));
        assert(first_blocked_index(command@, blocked_patterns@) is None);
    }
    let words = split_shell_words(command);
    let ghost gwords = words@.map_values(|w: String| w@);
    // Find the first word that invokes rm.
    let mut rm_idx: usize = 0;
    let mut found = false;
    let rm_lit = str_chars("rm");
    let bin_rm_lit = str_chars("/bin/rm");
    proof {
        reveal_strlit("rm");
        reveal_strlit("/bin/rm");
        assert(rm_lit@ =~= seq!['r', 'm']);
        assert(bin_rm_lit@ =~= seq!['/', 'b', 'i', 'n', '/', 'r', 'm']);
    }
    let mut wi: usize = 0;
    while wi < words.len() && !found
        invariant
            wi <= gwords.len(),
            gwords == words@.map_values(|w: String| w@),
            rm_lit@ == seq!['r', 'm'],
            bin_rm_lit@ == seq!['/', 'b', 'i', 'n', '/', 'r', 'm'],
            gwords == spec_shell_words(command@),
            !spec_blocked_hit(command@, blocked_patterns@),
            forall|i: int| !blocked_hit_at(command@, blocked_patterns@, i),
            !found ==> forall|k: int| 0 <= k < wi ==> !is_rm_word(gwords[k]),
            found ==> {
                &&& 0 <= rm_idx < gwords.len()
                &&& is_rm_word(gwords[rm_idx as int])
                &&& forall|k: int| 0 <= k < rm_idx ==> !is_rm_word(gwords[k])
            },
        decreases gwords.len() - wi,
    {
        let wc = str_chars(words[wi].as_str());
        proof {
            assert(wc@ == gwords[wi as int]);
        }
        let is_rm = crate::text::chars_eq(&wc, &rm_lit) || crate::text::chars_eq(
            &wc,
            &bin_rm_lit,
        );
        if is_rm {
            rm_idx = wi;
            found = true;
        }
        wi += 1;
    }
    if !found {
        proof {
            assert(first_rm_index(gwords) is None);
        }
        return (true, String::new());
    }
    proof {
        assert(forall|i: int| !blocked_hit_at(command@, blocked_patterns@, i));
        assert(first_blocked_index(command@, blocked_patterns@) is None);
    }
    proof {
        let gi = first_rm_index(gwords);
        assert(gi is Some);
        let ci = gi->0;
        assert(0 <= ci < gwords.len() && is_rm_word(gwords[ci]));
        assert(ci == rm_idx as int) by {
            if ci < rm_idx as int {
                assert(!is_rm_word(gwords[ci]));
            }
            if ci > rm_idx as int {
                assert(!is_rm_word(gwords[rm_idx as int]));
            }
        }
    }
    let mut ai: usize = rm_idx + 1;
    while ai < words.len()
        invariant
            rm_idx < ai <= gwords.len(),
            gwords == words@.map_values(|w: String| w@),
            gwords == spec_shell_words(command@),
            !spec_blocked_hit(command@, blocked_patterns@),
            forall|i: int| !blocked_hit_at(command@, blocked_patterns@, i),
            first_rm_index(gwords) == Some(rm_idx as int),
            forall|k: int|
                rm_idx < k < ai ==> ((#[trigger] gwords[k]).len() > 0 && gwords[k][0] == '-')
                    || spec_is_path_allowed(paths, gwords[k]),
        decreases gwords.len() - ai,
    {
        let wc = str_chars(words[ai].as_str());
        proof {
            assert(wc@ == gwords[ai as int]);
        }
        if wc.len() > 0 && wc[0] == '-' {
            ai += 1;
            continue;
        }
        if !paths.is_path_allowed(words[ai].as_str()) {
            proof {
                assert(!((gwords[ai as int].len() > 0 && gwords[ai as int][0] == '-')
                    || spec_is_path_allowed(paths, gwords[ai as int])));
                assert(!spec_rm_targets_ok(paths, gwords, rm_idx as int));
                assert(bad_rm_arg_at(paths, gwords, rm_idx as int, ai as int));
                let gj = first_bad_rm_arg(paths, gwords, rm_idx as int);
                assert(gj is Some);
                let cj = gj->0;
                assert(bad_rm_arg_at(paths, gwords, rm_idx as int, cj));
                assert(cj == ai as int) by {
                    if cj < ai as int {
                        assert(!bad_rm_arg_at(paths, gwords, rm_idx as int, cj));
                    }
                    if cj > ai as int {
                        assert(!bad_rm_arg_at(paths, gwords, rm_idx as int, ai as int));
                    }
                }
                assert(gj == Some(ai as int));
            }
            let mut reason: Vec<char> = Vec::new();
            let prefix = str_chars("rm target outside allowed paths: ");
            push_all(&mut reason, &prefix);
            push_all(&mut reason, &wc);
            proof {
                reveal_strlit("rm target outside allowed paths: ");
                assert(prefix@ == "rm target outside allowed paths: "@);
                assert(reason@ =~= "rm target outside allowed paths: "@ + gwords[ai as int]);
                assert(reason@.len() > 0);
            }
            return (false, chars_string(&reason));
        }
        ai += 1;
    }
    proof {
        assert(forall|k: int| !bad_rm_arg_at(paths, gwords, rm_idx as int, k));
        assert(first_bad_rm_arg(paths, gwords, rm_idx as int) is None);
        assert(first_blocked_index(command@, blocked_patterns@) is None);
    }
    (true, String::new())
}

} // verus!
