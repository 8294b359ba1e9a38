//! External-tool server configuration and `${VAR}` interpolation.
//!
//! The caller reads the template file and supplies the environment as
//! name-value pairs; the interpolation itself is pure.

use vstd::prelude::*;

use crate::text::chars_string;
use crate::text::find_idx;
use crate::text::push_all;
use crate::text::push_range;
use crate::text::str_chars;

verus! {

/// One tool server: a spawned command or an HTTP endpoint.
#[derive(Clone, Debug)]
pub enum McpServerConfig {
    Stdio { command: String, args: Vec<String>, env: Vec<(String, String)> },
    Http { kind: McpHttpKind, url: String, headers: Vec<(String, String)> },
}

/// The HTTP server tag.
#[derive(Clone, Copy, Debug, PartialEq, Eq, Structural)]
pub enum McpHttpKind {
    Http,
}

/// The stock example-template location under a repository root.
pub fn default_example_path(repo_root: &str) -> (r: String)
    ensures
        r@ == repo_root@ + "/mcp-config.example.json"@,
{
    let mut out: Vec<char> = str_chars(repo_root);
    let sfx = str_chars("/mcp-config.example.json");
    push_all(&mut out, &sfx);
    chars_string(&out)
}

/// The first value bound to `name`, or empty when unset.
pub open spec fn env_lookup(env: Seq<(Seq<char>, Seq<char>)>, name: Seq<char>) -> Seq<char>
    decreases env.len(),
{
    if env.len() == 0 {
        Seq::<char>::empty()
    } else if env[0].0 == name {
        env[0].1
    } else {
        env_lookup(env.drop_first(), name)
    }
}

/// `${NAME}` placeholders replaced from position `i` on; unset names
/// become empty, and a `${` without `}` stays as it is.
pub open spec fn interp_at(s: Seq<char>, i: int, env: Seq<(Seq<char>, Seq<char>)>) -> Seq<char>
    decreases s.len() - i when 0 <= i via interp_at_dec
{
    if i >= s.len() {
        Seq::<char>::empty()
    } else if s[i] == '$' && i + 1 < s.len() && s[i + 1] == '{' {
        let e = find_idx(s, seq!['}'], i + 2);
        if e >= 0 {
            env_lookup(env, s.subrange(i + 2, e)) + interp_at(s, e + 1, env)
        } else {
            seq![s[i]] + interp_at(s, i + 1, env)
        }
    } else {
        seq![s[i]] + interp_at(s, i + 1, env)
    }
}

#[via_fn]
proof fn interp_at_dec(s: Seq<char>, i: int, env: Seq<(Seq<char>, Seq<char>)>) {
    if 0 <= i < s.len() && s[i] == '$' && i + 1 < s.len() && s[i + 1] == '{' {
        crate::text::lemma_find_idx(s, seq!['}'], i + 2);
    }
}

/// The interpolation of a whole string.
pub open spec fn spec_interpolate(s: Seq<char>, env: Seq<(Seq<char>, Seq<char>)>) -> Seq<char> {
    interp_at(s, 0, env)
}

/// Look an environment name up in the supplied pairs.
fn env_lookup_exec(env: &Vec<(String, String)>, name: &Vec<char>) -> (r: Vec<char>)
    ensures
        r@ == env_lookup(env@.map_values(|p: (String, String)| (p.0@, p.1@)), name@),
{
    let ghost genv = env@.map_values(|p: (String, String)| (p.0@, p.1@));
    let mut i: usize = 0;
    proof {
        assert(genv.skip(0) =~= genv);
    }
    while i < env.len()
        invariant
            i <= genv.len(),
            genv == env@.map_values(|p: (String, String)| (p.0@, p.1@)),
            env_lookup(genv, name@) == env_lookup(genv.skip(i as int), name@),
        decreases genv.len() - i,
    {
        proof {
            assert(genv.skip(i as int)[0] == genv[i as int]);
            assert(genv.skip(i as int).drop_first() =~= genv.skip(i + 1));
        }
        let kc = str_chars(env[i].0.as_str());
        if crate::text::chars_eq(&kc, name) {
            let vc = str_chars(env[i].1.as_str());
            return vc;
        }
        i += 1;
    }
    proof {
        assert(genv.skip(genv.len() as int) =~= Seq::<(Seq<char>, Seq<char>)>::empty());
    }
    Vec::new()
}

/// Replace every `${NAME}` with its value from the supplied pairs;
/// unset names become the empty string.
pub fn interpolate_env_str(s: &str, env: &Vec<(String, String)>) -> (r: String)
    ensures
        r@ == spec_interpolate(s@, env@.map_values(|p: (String, String)| (p.0@, p.1@))),
{
    let ghost genv = env@.map_values(|p: (String, String)| (p.0@, p.1@));
    let cs = str_chars(s);
    let n = cs.len();
    let mut out: Vec<char> = Vec::new();
    let mut i: usize = 0;
    let mut rb: Vec<char> = Vec::new();
    rb.push('}');
    assert(rb@ =~= seq!['}']);
    proof {
        assert(Seq::<char>::empty() + interp_at(cs@, 0, genv) =~= interp_at(cs@, 0, genv));
    }
    while i < n
        invariant
            i <= n,
            n == cs@.len(),
            rb@ == seq!['}'],
            genv == env@.map_values(|p: (String, String)| (p.0@, p.1@)),
            spec_interpolate(cs@, genv) == out@ + interp_at(cs@, i as int, genv),
        decreases n - i,
    {
        let ghost prev = out@;
        let mut replaced = false;
        if cs[i] == '$' && i + 1 < n && cs[i + 1] == '{' {
            match crate::text::find_idx_exec(&cs, &rb, i + 2) {
                Some(e) => {
                    proof {
                        crate::text::lemma_find_idx(cs@, seq!['}'], i + 2);
                    }
                    let mut name: Vec<char> = Vec::new();
                    push_range(&mut name, &cs, i + 2, e);
                    proof {
                        assert(name@ =~= cs@.subrange(i + 2, e as int));
                    }
                    let val = env_lookup_exec(env, &name);
                    let ghost rest = interp_at(cs@, e + 1, genv);
                    push_all(&mut out, &val);
                    proof {
                        assert(out@ =~= prev + val@);
                        assert(prev + (val@ + rest) =~= (prev + val@) + rest);
                    }
                    i = e + 1;
                    replaced = true;
                },
                None => {},
            }
        }
        if !replaced {
            let ghost rest = interp_at(cs@, i + 1, genv);
            out.push(cs[i]);
            proof {
                assert(out@ =~= prev + seq![cs@[i as int]]);
                assert(prev + (seq![cs@[i as int]] + rest) =~= (prev + seq![cs@[i as int]])
                    + rest);
            }
            i += 1;
        }
    }
    proof {
        assert(interp_at(cs@, n as int, genv) =~= Seq::<char>::empty());
    }
    chars_string(&out)
}

} // verus!
