//! Command dispatch decisions: parsing `/command` text and building
//! each command's reply from plain values.  Sending, sleeping and
//! process control stay with the caller.

use vstd::prelude::*;

use crate::formatting::escape_html;
use crate::formatting::spec_escape;
use crate::numbers::dec_digits;
use crate::numbers::u64_to_dec;
use crate::session::SessionStats;
use crate::text::chars_string;
use crate::text::is_space;
use crate::text::lower_of;
use crate::text::push_all;
use crate::text::str_chars;
use crate::text::to_lowercase;
use crate::text::trim;
use crate::text::trim_chars;
use crate::utils::spec_duration;
use crate::utils::spec_truncate;

verus! {

/// The index of the first whitespace character, or the length.
pub open spec fn first_space(s: Seq<char>) -> int
    decreases s.len(),
{
    if s.len() == 0 {
        0
    } else if is_space(s[0]) {
        0
    } else {
        1 + first_space(s.drop_first())
    }
}

proof fn lemma_first_space(s: Seq<char>)
    ensures
        0 <= first_space(s) <= s.len(),
    decreases s.len(),
{
    if s.len() > 0 && !is_space(s[0]) {
        lemma_first_space(s.drop_first());
    }
}

/// The command name of the first word: the leading slashes dropped,
/// cut at the first `@`, lowercased.
pub open spec fn spec_command_name(first: Seq<char>) -> Seq<char> {
    let unslashed = if first.len() > 0 && first[0] == '/' {
        first.drop_first()
    } else {
        first
    };
    let upto = crate::text::find_idx(unslashed, seq!['@'], 0);
    if upto >= 0 {
        lower_of(unslashed.take(upto))
    } else {
        lower_of(unslashed)
    }
}

/// A command message split into its lowercased name and its argument.
pub open spec fn spec_parse_command(text: Seq<char>) -> (Seq<char>, Seq<char>) {
    let t = trim(text);
    let sp = first_space(t);
    let first = t.take(sp);
    let rest = if sp < t.len() {
        trim(t.skip(sp + 1))
    } else {
        Seq::<char>::empty()
    };
    (spec_command_name(first), rest)
}

/// Split `/cmd@bot args` into the lowercased command and its argument.
pub fn parse_command(text: &str) -> (r: (String, String))
    ensures
        (r.0@, r.1@) == spec_parse_command(text@),
{
    let cs = str_chars(text);
    let t = trim_chars(&cs);
    let n = t.len();
    let mut sp: usize = 0;
    proof {
        assert(first_space(t@) == 0 + first_space(t@.skip(0))) by {
            assert(t@.skip(0) =~= t@);
        }
    }
    while sp < n && !crate::text::is_space_char(t[sp])
        invariant
            sp <= n,
            n == t@.len(),
            first_space(t@) == sp + first_space(t@.skip(sp as int)),
        decreases n - sp,
    {
        proof {
            assert(t@.skip(sp as int)[0] == t@[sp as int]);
            assert(t@.skip(sp as int).drop_first() =~= t@.skip(sp + 1));
        }
        sp += 1;
    }
    proof {
        lemma_first_space(t@.skip(sp as int));
        if sp < n {
            assert(t@.skip(sp as int)[0] == t@[sp as int]);
            assert(first_space(t@.skip(sp as int)) == 0);
        } else {
            assert(t@.skip(sp as int) =~= Seq::<char>::empty());
        }
        assert(first_space(t@) == sp as int);
    }
    let mut first: Vec<char> = Vec::new();
    crate::text::push_range(&mut first, &t, 0, sp);
    proof {
        assert(first@ =~= t@.take(sp as int));
    }
    let rest: String = if sp < n {
        let mut rv: Vec<char> = Vec::new();
        crate::text::push_range(&mut rv, &t, sp + 1, n);
        proof {
            assert(rv@ =~= t@.skip(sp + 1));
        }
        let rt = trim_chars(&rv);
        chars_string(&rt)
    } else {
        String::new()
    };
    // Strip one leading slash and cut at `@`.
    let unslashed: Vec<char> = if first.len() > 0 && first[0] == '/' {
        let mut u: Vec<char> = Vec::new();
        crate::text::push_range(&mut u, &first, 1, first.len());
        proof {
            assert(u@ =~= first@.drop_first());
        }
        u
    } else {
        first
    };
    let mut at: Vec<char> = Vec::new();
    at.push('@');
    assert(at@ =~= seq!['@']);
    let name_part: Vec<char> = match crate::text::find_idx_exec(&unslashed, &at, 0) {
        Some(p) => {
            proof {
                crate::text::lemma_find_idx(unslashed@, seq!['@'], 0);
            }
            let mut np: Vec<char> = Vec::new();
            crate::text::push_range(&mut np, &unslashed, 0, p);
            proof {
                assert(np@ =~= unslashed@.take(p as int));
            }
            np
        },
        None => unslashed,
    };
    let name_s = chars_string(&name_part);
    let cmd = to_lowercase(name_s.as_str());
    (cmd, rest)
}

/// What a command decides: a reply to send, silence, or an effect the
/// caller must perform besides replying.
pub enum CommandReply {
    Html(String),
    Silent,
}

/// The fresh-session notice.
pub fn new_session_reply() -> (r: String)
    ensures
        r@ == "\u{1F195} Session cleared. Next message starts fresh."@,
{
    copy_str("\u{1F195} Session cleared. Next message starts fresh.")
}

/// The help text: current status, working directory, the command list
/// and the usage tips.
pub open spec fn spec_help_html(active: bool, working_dir: Seq<char>) -> Seq<char> {
    "\u{1F916} <b>Assistant Telegram Bot</b>\n\nStatus: "@ + (if active {
        "Active session"@
    } else {
        "No active session"@
    }) + "\nWorking directory: <code>"@ + spec_escape(working_dir)
        + "</code>\n\n<b>\u{1F4CB} Commands:</b>\n/start - Show this help message\n/new - Start fresh session\n/stop - Stop current query (silent)\n/status - Show current session status\n/stats - Show token usage stats\n/resume - Resume last saved session\n/retry - Retry last message\n/cron [reload] - Scheduled jobs status/reload\n/restart - Restart the bot process\n\n<b>\u{1F4A1} Tips:</b>\n\u{2022} Prefix with <code>!</code> to interrupt current query\n\u{2022} Use \"think\" keyword for extended reasoning\n\u{2022} Use \"ultrathink\" for deep analysis\n\u{2022} Send photos, voice messages, or documents\n\u{2022} Multiple photos = album (auto-grouped)"@
}

/// Build the help reply.
pub fn help_reply(active: bool, working_dir: &str) -> (r: String)
    ensures
        r@ == spec_help_html(active, working_dir@),
{
    let mut out: Vec<char> = str_chars("\u{1F916} <b>Assistant Telegram Bot</b>\n\nStatus: ");
    let status = if active {
        str_chars("Active session")
    } else {
        str_chars("No active session")
    };
    push_all(&mut out, &status);
    let mid = str_chars("\nWorking directory: <code>");
    push_all(&mut out, &mid);
    let esc = escape_html(working_dir);
    let ec = str_chars(esc.as_str());
    push_all(&mut out, &ec);
    let tail = str_chars(
        "</code>\n\n<b>\u{1F4CB} Commands:</b>\n/start - Show this help message\n/new - Start fresh session\n/stop - Stop current query (silent)\n/status - Show current session status\n/stats - Show token usage stats\n/resume - Resume last saved session\n/retry - Retry last message\n/cron [reload] - Scheduled jobs status/reload\n/restart - Restart the bot process\n\n<b>\u{1F4A1} Tips:</b>\n\u{2022} Prefix with <code>!</code> to interrupt current query\n\u{2022} Use \"think\" keyword for extended reasoning\n\u{2022} Use \"ultrathink\" for deep analysis\n\u{2022} Send photos, voice messages, or documents\n\u{2022} Multiple photos = album (auto-grouped)",
    );
    push_all(&mut out, &tail);
    proof {
        assert(out@ =~= spec_help_html(active, working_dir@));
    }
    chars_string(&out)
}

/// The status reply: session presence, duration, query state, last
/// usage and the working directory.
pub fn status_reply(stats: &SessionStats, working_dir: &str, duration_secs: Option<u64>) -> (r:
    String)
    ensures
        r@.len() > 0,
{
    let mut out: Vec<char> = str_chars("\u{1F4CA} <b>Bot Status</b>\n\n");
    match &stats.session {
        Some(sref) => {
            let line = str_chars("\u{2705} Session: Active (");
            push_all(&mut out, &line);
            let short = crate::utils::short_id(sref.id.as_str());
            let sc = str_chars(short.as_str());
            push_all(&mut out, &sc);
            let close = str_chars("...)\n");
            push_all(&mut out, &close);
            match duration_secs {
                Some(d) => {
                    let dl = str_chars("   \u{2514}\u{2500} Duration: ");
                    push_all(&mut out, &dl);
                    let ds = crate::utils::format_duration(d);
                    let dc = str_chars(ds.as_str());
                    push_all(&mut out, &dc);
                    let ql = str_chars(" | ");
                    push_all(&mut out, &ql);
                    let qd = u64_to_dec(stats.total_queries);
                    push_all(&mut out, &qd);
                    let qt = str_chars(" queries\n");
                    push_all(&mut out, &qt);
                },
                None => {},
            }
        },
        None => {
            let line = str_chars("\u{26AA} Session: None\n");
            push_all(&mut out, &line);
        },
    }
    let q = if stats.is_running {
        str_chars("\u{1F504} Query: Running\n")
    } else {
        str_chars("\u{26AA} Query: Idle\n")
    };
    push_all(&mut out, &q);
    match &stats.last_usage {
        Some(u) => {
            let hl = str_chars("\n\u{1F4C8} Last query usage:\n   Input: ");
            push_all(&mut out, &hl);
            let iv = u64_to_dec(u.input_tokens);
            push_all(&mut out, &iv);
            let ol = str_chars(" tokens\n   Output: ");
            push_all(&mut out, &ol);
            let ov = u64_to_dec(u.output_tokens);
            push_all(&mut out, &ov);
            let te = str_chars(" tokens\n");
            push_all(&mut out, &te);
            if u.cache_read_input_tokens > 0 {
                let cl = str_chars("   Cache read: ");
                push_all(&mut out, &cl);
                let cv = u64_to_dec(u.cache_read_input_tokens);
                push_all(&mut out, &cv);
                out.push('\n');
            }
        },
        None => {},
    }
    let wl = str_chars("\n\u{1F4C1} Working dir: <code>");
    push_all(&mut out, &wl);
    let esc = escape_html(working_dir);
    let ec = str_chars(esc.as_str());
    push_all(&mut out, &ec);
    let wc = str_chars("</code>");
    push_all(&mut out, &wc);
    proof {
        reveal_strlit("\u{1F4CA} <b>Bot Status</b>\n\n");
        assert(out@.len() > 0);
    }
    chars_string(&out)
}

/// The statistics reply: session duration and integer token totals
/// with per-query averages.
pub fn stats_reply(stats: &SessionStats, duration_secs: Option<u64>) -> (r: String)
    ensures
        r@.len() > 0,
{
    let mut out: Vec<char> = str_chars("\u{1F4CA} <b>Session Statistics</b>\n\n");
    match duration_secs {
        Some(d) => {
            let dl = str_chars("\u{23F1}\u{FE0F} Session duration: ");
            push_all(&mut out, &dl);
            let ds = crate::utils::format_duration(d);
            let dc = str_chars(ds.as_str());
            push_all(&mut out, &dc);
            let ql = str_chars("\n\u{1F522} Total queries: ");
            push_all(&mut out, &ql);
            let qd = u64_to_dec(stats.total_queries);
            push_all(&mut out, &qd);
            out.push('\n');
        },
        None => {
            let nl = str_chars("\u{26AA} No active session\n");
            push_all(&mut out, &nl);
        },
    }
    if stats.total_queries > 0 {
        let hl = str_chars("\n\u{1F9E0} <b>Token Usage</b>\n   Input: ");
        push_all(&mut out, &hl);
        let iv = u64_to_dec(stats.total_input_tokens);
        push_all(&mut out, &iv);
        let ol = str_chars(" tokens\n   Output: ");
        push_all(&mut out, &ol);
        let ov = u64_to_dec(stats.total_output_tokens);
        push_all(&mut out, &ov);
        let tl = str_chars(" tokens\n");
        push_all(&mut out, &tl);
        let cache = stats.total_cache_read_tokens as u128 + stats.total_cache_create_tokens
            as u128;
        if cache > 0 {
            let cl = str_chars("   Cache read: ");
            push_all(&mut out, &cl);
            let cr = u64_to_dec(stats.total_cache_read_tokens);
            push_all(&mut out, &cr);
            let c2 = str_chars("\n   Cache create: ");
            push_all(&mut out, &c2);
            let cc = u64_to_dec(stats.total_cache_create_tokens);
            push_all(&mut out, &cc);
            out.push('\n');
        }
        if stats.total_queries > 1 {
            let al = str_chars("\n\u{1F4C8} <b>Per Query Average</b>\n   Input: ");
            push_all(&mut out, &al);
            let ai = u64_to_dec(stats.total_input_tokens / stats.total_queries);
            push_all(&mut out, &ai);
            let am = str_chars(" tokens\n   Output: ");
            push_all(&mut out, &am);
            let ao = u64_to_dec(stats.total_output_tokens / stats.total_queries);
            push_all(&mut out, &ao);
            let at = str_chars(" tokens");
            push_all(&mut out, &at);
        }
    } else {
        let el = str_chars("\n\u{1F4ED} No queries in this session yet");
        push_all(&mut out, &el);
    }
    proof {
        reveal_strlit("\u{1F4CA} <b>Session Statistics</b>\n\n");
        assert(out@.len() > 0);
    }
    chars_string(&out)
}

/// The resume outcome marked with a check or a cross, escaped.
pub fn resume_reply(ok: bool, message: &str) -> (r: String)
    ensures
        ok ==> r@ == "\u{2705} "@ + spec_escape(message@),
        !ok ==> r@ == "\u{274C} "@ + spec_escape(message@),
{
    let mut out: Vec<char> = if ok {
        str_chars("\u{2705} ")
    } else {
        str_chars("\u{274C} ")
    };
    let esc = escape_html(message);
    let ec = str_chars(esc.as_str());
    push_all(&mut out, &ec);
    proof {
        if ok {
            assert(out@ =~= "\u{2705} "@ + spec_escape(message@));
        } else {
            assert(out@ =~= "\u{274C} "@ + spec_escape(message@));
        }
    }
    chars_string(&out)
}

/// The session-already-active notice for `/resume`.
pub fn resume_busy_reply() -> (r: String)
    ensures
        r@ == "Session already active. Use /new to start fresh first."@,
{
    copy_str("Session already active. Use /new to start fresh first.")
}

/// The reload reply: a warning when nothing was loaded, else the count
/// with the right plural.
pub open spec fn spec_cron_reload_html(count: int) -> Seq<char> {
    if count == 0 {
        "\u{26A0}\u{FE0F} No schedules found in cron.yaml"@
    } else if count == 1 {
        "\u{1F504} Reloaded "@ + dec_digits(count as nat) + " scheduled job"@
    } else {
        "\u{1F504} Reloaded "@ + dec_digits(count as nat) + " scheduled jobs"@
    }
}

/// Build the `/cron reload` reply.
pub fn cron_reload_reply(count: u64) -> (r: String)
    ensures
        r@ == spec_cron_reload_html(count as int),
{
    if count == 0 {
        return copy_str("\u{26A0}\u{FE0F} No schedules found in cron.yaml");
    }
    let mut out: Vec<char> = str_chars("\u{1F504} Reloaded ");
    let cd = u64_to_dec(count);
    push_all(&mut out, &cd);
    let sfx = if count == 1 {
        str_chars(" scheduled job")
    } else {
        str_chars(" scheduled jobs")
    };
    push_all(&mut out, &sfx);
    proof {
        if count == 1 {
            assert(out@ =~= spec_cron_reload_html(count as int));
        } else {
            assert(out@ =~= spec_cron_reload_html(count as int));
        }
    }
    chars_string(&out)
}

/// The footer under the cron status display.
pub fn cron_status_note() -> (r: String)
    ensures
        r@
            == "\n\n<i>cron.yaml is auto-monitored for changes.\nYou can also use /cron reload to force reload.</i>"@,
{
    copy_str(
        "\n\n<i>cron.yaml is auto-monitored for changes.\nYou can also use /cron reload to force reload.</i>",
    )
}

/// The `/retry` decision: nothing to retry, a query still running, or
/// the retry notice with a fifty-character preview.
pub enum RetryDecision {
    NothingToRetry { html: String },
    StillRunning { html: String },
    Retry { notice_html: String, prompt: String },
}

/// Decide `/retry` from the remembered message and the running flag.
pub fn retry_decision(last_message: Option<&str>, is_running: bool) -> (r: RetryDecision)
    ensures
        last_message is None ==> (r matches RetryDecision::NothingToRetry { html } && html@
            == "\u{274C} No message to retry."@),
        last_message matches Some(m) ==> (is_running ==> (r
            matches RetryDecision::StillRunning { html } && html@
            == "\u{23F3} A query is already running. Use /stop first."@)) && (!is_running ==> (r
            matches RetryDecision::Retry { notice_html, prompt } && prompt@ == m@ && notice_html@
            == "\u{1F504} Retrying: \""@ + spec_truncate(m@, 50) + "\""@)),
{
    let m = match last_message {
        Some(m) => m,
        None => {
            return RetryDecision::NothingToRetry {
                html: copy_str("\u{274C} No message to retry."),
            };
        },
    };
    if is_running {
        return RetryDecision::StillRunning {
            html: copy_str("\u{23F3} A query is already running. Use /stop first."),
        };
    }
    let preview = crate::utils::truncate_text(m, 50);
    let mut out: Vec<char> = str_chars("\u{1F504} Retrying: \"");
    let pc = str_chars(preview.as_str());
    push_all(&mut out, &pc);
    out.push('"');
    proof {
        assert(out@ =~= "\u{1F504} Retrying: \""@ + spec_truncate(m@, 50) + "\""@) by {
            reveal_strlit("\"");
        }
    }
    RetryDecision::Retry { notice_html: chars_string(&out), prompt: copy_str(m) }
}

/// The unknown-command reply.
pub fn unknown_command_reply(cmd: &str) -> (r: String)
    ensures
        r@ == "Unknown command: /"@ + spec_escape(cmd@),
{
    let mut out: Vec<char> = str_chars("Unknown command: /");
    let esc = escape_html(cmd);
    let ec = str_chars(esc.as_str());
    push_all(&mut out, &ec);
    proof {
        assert(out@ =~= "Unknown command: /"@ + spec_escape(cmd@));
    }
    chars_string(&out)
}

/// The voice precheck: without a transcription provider the handler
/// replies with the setup notice and stops.
pub enum VoiceAction {
    NotConfigured { reply: String },
    Transcribe,
}

/// Decide what a voice message does before any download happens.
pub fn voice_decision(transcription_available: bool) -> (r: VoiceAction)
    ensures
        !transcription_available ==> (r matches VoiceAction::NotConfigured { reply } && reply@
            == "Voice transcription is not configured. Set OPENAI_API_KEY in .env"@),
        transcription_available ==> r is Transcribe,
{
    if !transcription_available {
        VoiceAction::NotConfigured {
            reply: copy_str("Voice transcription is not configured. Set OPENAI_API_KEY in .env"),
        }
    } else {
        VoiceAction::Transcribe
    }
}

/// One extracted document: name and content.
pub open spec fn spec_doc_entry(idx: int, name: Seq<char>, content: Seq<char>) -> Seq<char> {
    "--- Document "@ + dec_digits(idx as nat) + ": "@ + name + " ---\n"@ + content
}

/// The numbered document list, two blank lines between entries.
pub open spec fn spec_doc_list(docs: Seq<(Seq<char>, Seq<char>)>, i: int) -> Seq<char>
    decreases docs.len() - i when 0 <= i
{
    if i >= docs.len() {
        Seq::<char>::empty()
    } else if i + 1 == docs.len() {
        spec_doc_entry(i + 1, docs[i].0, docs[i].1)
    } else {
        spec_doc_entry(i + 1, docs[i].0, docs[i].1) + "\n\n"@ + spec_doc_list(docs, i + 1)
    }
}

/// The prompt built from extracted documents and an optional caption:
/// one document inline, several as a numbered list; a non-blank
/// caption goes below a separator, else an analyze request leads.
pub fn build_documents_prompt(docs: &Vec<(String, String)>, caption: Option<&str>) -> (r: String)
    ensures
        r@.len() > 0 || docs@.len() == 0,
        docs@.len() == 1 && (match caption {
            Some(c) => trim(c@).len() == 0,
            None => true,
        }) ==> r@ == "Please analyze this document ("@ + docs@[0].0@ + "):\n\n"@ + docs@[0].1@,
{
    if docs.len() == 1 {
        let name = docs[0].0.as_str();
        let content = docs[0].1.as_str();
        let captioned = match caption {
            Some(c) => {
                let cc = str_chars(c);
                let ct = trim_chars(&cc);
                ct.len() > 0
            },
            None => false,
        };
        if captioned {
            let mut out: Vec<char> = str_chars("Document: ");
            let nc = str_chars(name);
            push_all(&mut out, &nc);
            let mid = str_chars("\n\nContent:\n");
            push_all(&mut out, &mid);
            let cv = str_chars(content);
            push_all(&mut out, &cv);
            let sep = str_chars("\n\n---\n\n");
            push_all(&mut out, &sep);
            match caption {
                Some(c) => {
                    let cap = str_chars(c);
                    push_all(&mut out, &cap);
                },
                None => {},
            }
            proof {
                reveal_strlit("Document: ");
                assert(out@.len() > 0);
            }
            return chars_string(&out);
        }
        let mut out: Vec<char> = str_chars("Please analyze this document (");
        let nc = str_chars(name);
        push_all(&mut out, &nc);
        let close = str_chars("):\n\n");
        push_all(&mut out, &close);
        let cv = str_chars(content);
        push_all(&mut out, &cv);
        proof {
            assert(out@ =~= "Please analyze this document ("@ + docs@[0].0@ + "):\n\n"@
                + docs@[0].1@);
            reveal_strlit("Please analyze this document (");
            assert(out@.len() > 0);
        }
        return chars_string(&out);
    }
    // Several documents: a numbered list.
    let ghost gdocs = docs@.map_values(|d: (String, String)| (d.0@, d.1@));
    let mut list: Vec<char> = Vec::new();
    let mut i: usize = 0;
    while i < docs.len()
        decreases docs@.len() - i,
    {
        if i > 0 {
            let sep = str_chars("\n\n");
            push_all(&mut list, &sep);
        }
        let head = str_chars("--- Document ");
        push_all(&mut list, &head);
        if i < usize::MAX {
            let nd = u64_to_dec((i + 1) as u64);
            push_all(&mut list, &nd);
        }
        let colon = str_chars(": ");
        push_all(&mut list, &colon);
        let nc = str_chars(docs[i].0.as_str());
        push_all(&mut list, &nc);
        let tail = str_chars(" ---\n");
        push_all(&mut list, &tail);
        let cv = str_chars(docs[i].1.as_str());
        push_all(&mut list, &cv);
        i += 1;
    }
    let captioned = match caption {
        Some(c) => {
            let cc = str_chars(c);
            let ct = trim_chars(&cc);
            ct.len() > 0
        },
        None => false,
    };
    let mut out: Vec<char> = Vec::new();
    if captioned {
        let cd = u64_to_dec(docs.len() as u64);
        push_all(&mut out, &cd);
        let head = str_chars(" Documents:\n\n");
        push_all(&mut out, &head);
        push_all(&mut out, &list);
        let sep = str_chars("\n\n---\n\n");
        push_all(&mut out, &sep);
        match caption {
            Some(c) => {
                let cap = str_chars(c);
                push_all(&mut out, &cap);
            },
            None => {},
        }
    } else {
        let head = str_chars("Please analyze these ");
        push_all(&mut out, &head);
        let cd = u64_to_dec(docs.len() as u64);
        push_all(&mut out, &cd);
        let mid = str_chars(" documents:\n\n");
        push_all(&mut out, &mid);
        push_all(&mut out, &list);
    }
    proof {
        if docs@.len() > 0 {
            if captioned {
                assert(out@.len() > 0);
            } else {
                reveal_strlit("Please analyze these ");
                assert(out@.len() > 0);
            }
        }
    }
    chars_string(&out)
}

/// A copied string.
fn copy_str(s: &str) -> (r: String)
    ensures
        r@ == s@,
{
    let c = str_chars(s);
    chars_string(&c)
}

} // verus!
