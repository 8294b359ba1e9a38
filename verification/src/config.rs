//! Typed configuration and the parsers for its environment values.
//!
//! Reading the environment is the caller's business; the functions here
//! parse the raw values and validate the assembled configuration.

use vstd::prelude::*;

use crate::errors::Error;
use crate::numbers::all_digits;
use crate::numbers::dec_val;
use crate::text::chars_string;
use crate::text::join_with;
use crate::text::lower_of;
use crate::text::push_all;
use crate::text::split_seq;
use crate::text::str_chars;
use crate::text::to_lowercase;
use crate::text::trim;
use crate::text::trim_chars;

verus! {

/// The bot's configuration, immutable after load.  Durations are in
/// milliseconds and paths are strings.
#[derive(Clone, Debug)]
pub struct Config {
    pub telegram_bot_token: String,
    pub telegram_allowed_users: Vec<i64>,
    pub claude_working_dir: String,
    pub openai_api_key: Option<String>,
    pub transcription_prompt: String,
    pub transcription_available: bool,
    pub claude_cli_path: String,
    pub claude_config_dir: Option<String>,
    pub allowed_paths: Vec<String>,
    pub temp_paths: Vec<String>,
    /// Substrings that mark a path as always readable (the assistant's
    /// own configuration directory).
    pub readable_dir_markers: Vec<String>,
    pub blocked_patterns: Vec<String>,
    pub safety_prompt: String,
    pub query_timeout_ms: u64,
    pub temp_dir: String,
    pub session_file: String,
    pub restart_file: String,
    pub telegram_message_limit: usize,
    pub telegram_safe_limit: usize,
    pub streaming_throttle_ms: u64,
    pub button_label_max_length: usize,
    pub default_thinking_tokens: u32,
    pub thinking_keywords: Vec<String>,
    pub thinking_deep_keywords: Vec<String>,
    pub delete_thinking_messages: bool,
    pub delete_tool_messages: bool,
    pub audit_log_path: String,
    pub audit_log_json: bool,
    pub rate_limit_enabled: bool,
    pub rate_limit_requests: u32,
    pub rate_limit_window_ms: u64,
    pub media_group_timeout_ms: u64,
}

impl Config {
    /// The startup invariant: a non-blank bot token, a non-empty user
    /// allowlist, and the safe streaming limit strictly below the hard
    /// message limit.
    pub open spec fn wf(&self) -> bool {
        &&& trim(self.telegram_bot_token@).len() > 0
        &&& 1 <= self.telegram_safe_limit < self.telegram_message_limit
        &&& self.telegram_allowed_users@.len() > 0
    }

    /// Check the invariant of an assembled configuration.
    pub fn validate(&self) -> (r: Result<(), Error>)
        ensures
            r is Ok <==> self.wf(),
            r matches Err(e) ==> e is Config,
    {
        let tc = str_chars(self.telegram_bot_token.as_str());
        let tt = trim_chars(&tc);
        if tt.len() == 0 {
            return Err(Error::Config(lit_string("a bot token is required")));
        }
        if self.telegram_allowed_users.len() == 0 {
            return Err(Error::Config(lit_string("an allowed users list is required")));
        }
        if self.telegram_safe_limit < 1 || self.telegram_safe_limit
            >= self.telegram_message_limit {
            return Err(Error::Config(lit_string("safe limit must stay below message limit")));
        }
        Ok(())
    }
}

fn lit_string(s: &str) -> (r: String)
    ensures
        r@ == s@,
{
    let c = str_chars(s);
    chars_string(&c)
}

/// An environment boolean: present means `Some`, and the value is true
/// exactly for `1`, `true`, `yes` or `on`, any case, trimmed.
pub open spec fn spec_env_bool(v: Option<Seq<char>>) -> Option<bool> {
    match v {
        Some(s) => {
            let l = lower_of(trim(s));
            Some(
                l == seq!['1'] || l == seq!['t', 'r', 'u', 'e'] || l == seq!['y', 'e', 's'] || l
                    == seq!['o', 'n'],
            )
        },
        None => None,
    }
}

/// Parse an environment boolean value.
pub fn env_bool(v: Option<&str>) -> (r: Option<bool>)
    ensures
        r == spec_env_bool(match v {
            Some(s) => Some(s@),
            None => None,
        }),
{
    let s = match v {
        Some(s) => s,
        None => {
            return None;
        },
    };
    let cs = str_chars(s);
    let t = trim_chars(&cs);
    let ts = chars_string(&t);
    let l = to_lowercase(ts.as_str());
    let lc = str_chars(l.as_str());
    let one = str_chars("1");
    let tr = str_chars("true");
    let ye = str_chars("yes");
    let on = str_chars("on");
    proof {
        reveal_strlit("1");
        reveal_strlit("true");
        reveal_strlit("yes");
        reveal_strlit("on");
        assert(one@ =~= seq!['1']);
        assert(tr@ =~= seq!['t', 'r', 'u', 'e']);
        assert(ye@ =~= seq!['y', 'e', 's']);
        assert(on@ =~= seq!['o', 'n']);
    }
    Some(
        crate::text::chars_eq(&lc, &one) || crate::text::chars_eq(&lc, &tr)
            || crate::text::chars_eq(&lc, &ye) || crate::text::chars_eq(&lc, &on),
    )
}

/// An environment number: trimmed digits within range.
pub open spec fn spec_env_u64(v: Option<Seq<char>>) -> Option<u64> {
    match v {
        Some(s) => {
            let t = trim(s);
            if all_digits(t) && t.len() > 0 && dec_val(t) <= u64::MAX {
                Some(dec_val(t) as u64)
            } else {
                None
            }
        },
        None => None,
    }
}

/// Parse an environment `u64` value.
pub fn env_u64(v: Option<&str>) -> (r: Option<u64>)
    ensures
        r == spec_env_u64(match v {
            Some(s) => Some(s@),
            None => None,
        }),
{
    let s = match v {
        Some(s) => s,
        None => {
            return None;
        },
    };
    let cs = str_chars(s);
    let t = trim_chars(&cs);
    crate::numbers::parse_u64_chars(&t)
}

/// Parse an environment `u32` value.
pub fn env_u32(v: Option<&str>) -> (r: Option<u32>)
    ensures
        match r {
            Some(n) => v matches Some(s) && {
                let t = trim(s@);
                all_digits(t) && t.len() > 0 && dec_val(t) == n as int
            },
            None => v matches Some(s) ==> {
                let t = trim(s@);
                !(all_digits(t) && t.len() > 0 && dec_val(t) <= u32::MAX)
            },
        },
{
    let s = match v {
        Some(s) => s,
        None => {
            return None;
        },
    };
    let cs = str_chars(s);
    let t = trim_chars(&cs);
    crate::numbers::parse_u32_chars(&t)
}

/// Parse an environment `usize` value.
pub fn env_usize(v: Option<&str>) -> (r: Option<usize>)
    ensures
        match r {
            Some(n) => v matches Some(s) && {
                let t = trim(s@);
                all_digits(t) && t.len() > 0 && dec_val(t) == n as int
            },
            None => v matches Some(s) ==> {
                let t = trim(s@);
                !(all_digits(t) && t.len() > 0 && dec_val(t) <= usize::MAX)
            },
        },
{
    let s = match v {
        Some(s) => s,
        None => {
            return None;
        },
    };
    let cs = str_chars(s);
    let t = trim_chars(&cs);
    match crate::numbers::parse_u64_chars(&t) {
        Some(n) => {
            if n <= usize::MAX as u64 {
                Some(n as usize)
            } else {
                None
            }
        },
        None => None,
    }
}

/// The comma-separated numbers in the value, trimmed; pieces that are
/// empty or fail to parse are dropped.
pub open spec fn spec_csv_i64(s: Seq<char>) -> Seq<i64> {
    spec_csv_i64_parts(split_seq(s, ','))
}

/// The numbers among the pieces.
pub open spec fn spec_csv_i64_parts(parts: Seq<Seq<char>>) -> Seq<i64>
    decreases parts.len(),
{
    if parts.len() == 0 {
        Seq::<i64>::empty()
    } else {
        let t = trim(parts[0]);
        let rest = spec_csv_i64_parts(parts.drop_first());
        if t.len() > 0 && crate::numbers::is_signed_dec(t) && i64::MIN
            <= crate::numbers::signed_dec_val(t) <= i64::MAX {
            seq![crate::numbers::signed_dec_val(t) as i64] + rest
        } else {
            rest
        }
    }
}

/// Parse a comma-separated list of numeric ids.
pub fn parse_csv_i64(v: Option<&str>) -> (r: Vec<i64>)
    ensures
        r@ == match v {
            Some(s) => spec_csv_i64(s@),
            None => Seq::<i64>::empty(),
        },
{
    let s = match v {
        Some(s) => s,
        None => {
            let out: Vec<i64> = Vec::new();
            proof {
                assert(out@ =~= Seq::<i64>::empty());
            }
            return out;
        },
    };
    let cs = str_chars(s);
    let parts = crate::text::split_chars(&cs, ',');
    let ghost gparts = parts@.map_values(|p: Vec<char>| p@);
    let mut out: Vec<i64> = Vec::new();
    let n = parts.len();
    let mut i: usize = 0;
    proof {
        assert(gparts.skip(0) =~= gparts);
        assert(out@ =~= Seq::<i64>::empty());
        assert(Seq::<i64>::empty() + spec_csv_i64_parts(gparts) =~= spec_csv_i64_parts(gparts));
    }
    while i < n
        invariant
            i <= n,
            n == gparts.len(),
            gparts == parts@.map_values(|p: Vec<char>| p@),
            spec_csv_i64_parts(gparts) == out@ + spec_csv_i64_parts(gparts.skip(i as int)),
        decreases n - i,
    {
        proof {
            assert(gparts.skip(i as int)[0] == gparts[i as int]);
            assert(gparts.skip(i as int).drop_first() =~= gparts.skip(i + 1));
        }
        let ghost prev = out@;
        let ghost rest = spec_csv_i64_parts(gparts.skip(i + 1));
        let t = trim_chars(&parts[i]);
        if t.len() > 0 {
            match crate::numbers::parse_i64_chars(&t) {
                Some(val) => {
                    out.push(val);
                    proof {
                        assert(out@ =~= prev + seq![val]);
                        assert(prev + (seq![val] + rest) =~= (prev + seq![val]) + rest);
                    }
                },
                None => {},
            }
        }
        i += 1;
    }
    proof {
        assert(gparts.skip(n as int) =~= Seq::<Seq<char>>::empty());
    }
    out
}

/// The comma-separated words, trimmed and lowercased, empties dropped.
pub open spec fn spec_csv_lower(parts: Seq<Seq<char>>) -> Seq<Seq<char>>
    decreases parts.len(),
{
    if parts.len() == 0 {
        Seq::<Seq<char>>::empty()
    } else {
        let w = lower_of(trim(parts[0]));
        let rest = spec_csv_lower(parts.drop_first());
        if w.len() > 0 {
            seq![w] + rest
        } else {
            rest
        }
    }
}

/// Parse a comma-separated keyword list, lowercased.
pub fn parse_csv_lower(v: Option<&str>) -> (r: Vec<String>)
    ensures
        r@.map_values(|w: String| w@) == match v {
            Some(s) => spec_csv_lower(split_seq(s@, ',')),
            None => Seq::<Seq<char>>::empty(),
        },
{
    let s = match v {
        Some(s) => s,
        None => {
            let out: Vec<String> = Vec::new();
            proof {
                assert(out@.map_values(|w: String| w@) =~= Seq::<Seq<char>>::empty());
            }
            return out;
        },
    };
    let cs = str_chars(s);
    let parts = crate::text::split_chars(&cs, ',');
    let ghost gparts = parts@.map_values(|p: Vec<char>| p@);
    let mut out: Vec<String> = Vec::new();
    let n = parts.len();
    let mut i: usize = 0;
    proof {
        assert(gparts.skip(0) =~= gparts);
        assert(out@.map_values(|w: String| w@) =~= Seq::<Seq<char>>::empty());
        assert(Seq::<Seq<char>>::empty() + spec_csv_lower(gparts) =~= spec_csv_lower(gparts));
    }
    while i < n
        invariant
            i <= n,
            n == gparts.len(),
            gparts == parts@.map_values(|p: Vec<char>| p@),
            spec_csv_lower(gparts) == out@.map_values(|w: String| w@) + spec_csv_lower(
                gparts.skip(i as int),
            ),
        decreases n - i,
    {
        proof {
            assert(gparts.skip(i as int)[0] == gparts[i as int]);
            assert(gparts.skip(i as int).drop_first() =~= gparts.skip(i + 1));
        }
        let ghost prev = out@.map_values(|w: String| w@);
        let ghost rest = spec_csv_lower(gparts.skip(i + 1));
        let t = trim_chars(&parts[i]);
        let ts = chars_string(&t);
        let w = to_lowercase(ts.as_str());
        if w.unicode_len() > 0 {
            let ghost gw = w@;
            out.push(w);
            proof {
                assert(out@.map_values(|x: String| x@) =~= prev + seq![gw]);
                assert(prev + (seq![gw] + rest) =~= (prev + seq![gw]) + rest);
            }
        }
        i += 1;
    }
    proof {
        assert(gparts.skip(n as int) =~= Seq::<Seq<char>>::empty());
    }
    out
}

/// The comma-separated paths, trimmed, empties dropped.
pub open spec fn spec_csv_paths(parts: Seq<Seq<char>>) -> Seq<Seq<char>>
    decreases parts.len(),
{
    if parts.len() == 0 {
        Seq::<Seq<char>>::empty()
    } else {
        let w = trim(parts[0]);
        let rest = spec_csv_paths(parts.drop_first());
        if w.len() > 0 {
            seq![w] + rest
        } else {
            rest
        }
    }
}

/// Parse a comma-separated path list; `None` when nothing remains.
pub fn parse_csv_paths(v: Option<&str>) -> (r: Option<Vec<String>>)
    ensures
        match r {
            Some(paths) => v matches Some(s) && paths@.map_values(|w: String| w@)
                == spec_csv_paths(split_seq(s@, ',')) && paths@.len() > 0,
            None => match v {
                Some(s) => spec_csv_paths(split_seq(s@, ',')).len() == 0,
                None => true,
            },
        },
{
    let s = match v {
        Some(s) => s,
        None => {
            return None;
        },
    };
    let cs = str_chars(s);
    let parts = crate::text::split_chars(&cs, ',');
    let ghost gparts = parts@.map_values(|p: Vec<char>| p@);
    let mut out: Vec<String> = Vec::new();
    let n = parts.len();
    let mut i: usize = 0;
    proof {
        assert(gparts.skip(0) =~= gparts);
        assert(out@.map_values(|w: String| w@) =~= Seq::<Seq<char>>::empty());
        assert(Seq::<Seq<char>>::empty() + spec_csv_paths(gparts) =~= spec_csv_paths(gparts));
    }
    while i < n
        invariant
            i <= n,
            n == gparts.len(),
            gparts == parts@.map_values(|p: Vec<char>| p@),
            spec_csv_paths(gparts) == out@.map_values(|w: String| w@) + spec_csv_paths(
                gparts.skip(i as int),
            ),
        decreases n - i,
    {
        proof {
            assert(gparts.skip(i as int)[0] == gparts[i as int]);
            assert(gparts.skip(i as int).drop_first() =~= gparts.skip(i + 1));
        }
        let ghost prev = out@.map_values(|w: String| w@);
        let ghost rest = spec_csv_paths(gparts.skip(i + 1));
        let t = trim_chars(&parts[i]);
        if t.len() > 0 {
            let ghost gt = t@;
            out.push(chars_string(&t));
            proof {
                assert(out@.map_values(|x: String| x@) =~= prev + seq![gt]);
                assert(prev + (seq![gt] + rest) =~= (prev + seq![gt]) + rest);
            }
        }
        i += 1;
    }
    proof {
        assert(gparts.skip(n as int) =~= Seq::<Seq<char>>::empty());
    }
    if out.len() == 0 {
        return None;
    }
    Some(out)
}

/// `None` for a blank string, the string otherwise.
pub fn non_empty(s: String) -> (r: Option<String>)
    ensures
        match r {
            Some(out) => trim(s@).len() > 0 && out@ == s@,
            None => trim(s@).len() == 0,
        },
{
    let cs = str_chars(s.as_str());
    let t = trim_chars(&cs);
    if t.len() == 0 {
        None
    } else {
        Some(s)
    }
}

/// The fixed safety rules handed to the assistant, with the allowed
/// directories listed in the middle.
pub fn build_safety_prompt(allowed_paths: &Vec<String>) -> (r: String)
    ensures
        r@.len() > 0,
{
    let mut out: Vec<char> = str_chars(
        "\nCRITICAL SAFETY RULES FOR TELEGRAM BOT:\n\n1. NEVER delete, remove, or overwrite files without EXPLICIT confirmation from the user.\n   - If user asks to delete something, respond: \"Are you sure you want to delete [file]? Reply 'yes delete it' to confirm.\"\n   - Only proceed with deletion if user replies with explicit confirmation like \"yes delete it\", \"confirm delete\"\n   - This applies to: rm, trash, unlink, shred, or any file deletion\n\n2. You can ONLY access files in these directories:\n",
    );
    let mut i: usize = 0;
    while i < allowed_paths.len()
        decreases allowed_paths@.len() - i,
    {
        let pre = str_chars("   - ");
        crate::text::push_all(&mut out, &pre);
        let pc = str_chars(allowed_paths[i].as_str());
        crate::text::push_all(&mut out, &pc);
        let post = str_chars(" (and subdirectories)\n");
        crate::text::push_all(&mut out, &post);
        i += 1;
    }
    let tail = str_chars(
        "   - REFUSE any file operations outside these paths\n\n3. NEVER run dangerous commands like:\n   - rm -rf (recursive force delete)\n   - Any command that affects files outside allowed directories\n   - Commands that could damage the system\n\n4. For any destructive or irreversible action, ALWAYS ask for confirmation first.\n\nYou are running via Telegram, so the user cannot easily undo mistakes. Be extra careful!\n",
    );
    crate::text::push_all(&mut out, &tail);
    proof {
        assert(out@.len() >= tail@.len());
        reveal_strlit(
            "   - REFUSE any file operations outside these paths\n\n3. NEVER run dangerous commands like:\n   - rm -rf (recursive force delete)\n   - Any command that affects files outside allowed directories\n   - Commands that could damage the system\n\n4. For any destructive or irreversible action, ALWAYS ask for confirmation first.\n\nYou are running via Telegram, so the user cannot easily undo mistakes. Be extra careful!\n",
        );
    }
    chars_string(&out)
}

/// The transcription instructions, with optional extra context below.
pub fn build_transcription_prompt(context: Option<&str>) -> (r: String)
    ensures
        r@.len() > 0,
{
    let base = str_chars(
        "Transcribe this voice message accurately.\nThe speaker may use multiple languages (English, and possibly others).\nFocus on accuracy for proper nouns, technical terms, and commands.",
    );
    let mut out: Vec<char> = Vec::new();
    crate::text::push_all(&mut out, &base);
    match context {
        Some(ctx) => {
            let mid = str_chars("\n\nAdditional context:\n");
            crate::text::push_all(&mut out, &mid);
            let cc = str_chars(ctx);
            crate::text::push_all(&mut out, &cc);
        },
        None => {},
    }
    proof {
        reveal_strlit(
            "Transcribe this voice message accurately.\nThe speaker may use multiple languages (English, and possibly others).\nFocus on accuracy for proper nouns, technical terms, and commands.",
        );
    }
    chars_string(&out)
}

} // verus!
