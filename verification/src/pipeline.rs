//! The per-turn event pipeline: classify provider events, reconcile
//! snapshot and delta text, split segments on tool use, enforce the
//! tool safety policy, and drive the ask-user rendezvous.
//!
//! The pipeline owns a streaming state and returns action lists; the
//! caller performs the port operations, cancels the model, and scans
//! the rendezvous directory when asked.

use vstd::prelude::*;

use crate::config::Config;
use crate::domain::ChatId;
use crate::errors::Error;
use crate::formatting::ToolInput;
use crate::jsonio::json_array_get;
use crate::jsonio::json_array_len;
use crate::jsonio::json_as_i64;
use crate::jsonio::json_as_string;
use crate::jsonio::json_as_u64;
use crate::jsonio::json_clone;
use crate::jsonio::json_get;
use crate::jsonio::json_set_string;
use crate::jsonio::json_to_string;
use crate::model_types::ProviderKind;
use crate::model_types::SessionRef;
use crate::model_types::TokenUsage;
use crate::paths::PathPolicy;
use crate::streamui::ClockMark;
use crate::streamui::MsgOp;
use crate::streamui::StatusType;
use crate::streamui::StreamingState;
use crate::text::chars_string;
use crate::text::matches_at;
use crate::text::push_all;
use crate::text::str_chars;

verus! {

/// Provider events, classified by their `type` field; the raw JSON is
/// kept so later stages can read what they need.
pub enum ModelEvent {
    SystemInit { raw: serde_json::Value },
    Assistant { raw: serde_json::Value },
    Tool { raw: serde_json::Value },
    Result { raw: serde_json::Value },
    Unknown { raw: serde_json::Value },
}

/// The class a `type` string names.
#[derive(Clone, Copy, Debug, PartialEq, Eq, Structural)]
pub enum EventClass {
    SystemInit,
    Assistant,
    Tool,
    Result,
    Unknown,
}

/// The event class of a `type` string: `system`, `assistant` and
/// `result` name their own classes, both tool progress spellings land
/// in `Tool`, and anything else is `Unknown`.
pub open spec fn spec_event_class(ty: Seq<char>) -> EventClass {
    if ty == "system"@ {
        EventClass::SystemInit
    } else if ty == "assistant"@ {
        EventClass::Assistant
    } else if ty == "result"@ {
        EventClass::Result
    } else if ty == "tool_progress"@ || ty == "tool_use_summary"@ {
        EventClass::Tool
    } else {
        EventClass::Unknown
    }
}

/// The exact `type`-string mapping behind event classification.
pub fn classify_type(ty: &str) -> (r: EventClass)
    ensures
        r == spec_event_class(ty@),
{
    let tc = str_chars(ty);
    let sys = str_chars("system");
    let asst = str_chars("assistant");
    let res = str_chars("result");
    let tp = str_chars("tool_progress");
    let ts = str_chars("tool_use_summary");
    if crate::text::chars_eq(&tc, &sys) {
        EventClass::SystemInit
    } else if crate::text::chars_eq(&tc, &asst) {
        EventClass::Assistant
    } else if crate::text::chars_eq(&tc, &res) {
        EventClass::Result
    } else if crate::text::chars_eq(&tc, &tp) || crate::text::chars_eq(&tc, &ts) {
        EventClass::Tool
    } else {
        EventClass::Unknown
    }
}

/// Classify one event by its `type` field, per `spec_event_class` of
/// the extracted string (a missing or non-string `type` reads empty);
/// the raw value rides along unchanged whichever class it lands in.
pub fn classify_event(raw: serde_json::Value) -> (r: ModelEvent)
    ensures
        match r {
            ModelEvent::SystemInit { raw: x } => x == raw,
            ModelEvent::Assistant { raw: x } => x == raw,
            ModelEvent::Tool { raw: x } => x == raw,
            ModelEvent::Result { raw: x } => x == raw,
            ModelEvent::Unknown { raw: x } => x == raw,
        },
{
    let ty = match json_get(&raw, "type") {
        Some(t) => match json_as_string(t) {
            Some(s) => s,
            None => String::new(),
        },
        None => String::new(),
    };
    match classify_type(ty.as_str()) {
        EventClass::SystemInit => ModelEvent::SystemInit { raw },
        EventClass::Assistant => ModelEvent::Assistant { raw },
        EventClass::Tool => ModelEvent::Tool { raw },
        EventClass::Result => ModelEvent::Result { raw },
        EventClass::Unknown => ModelEvent::Unknown { raw },
    }
}

/// Read a usage object's token counts; missing fields read zero.
pub fn parse_usage(v: &serde_json::Value) -> (r: TokenUsage)
{
    let input_tokens = match json_get(v, "input_tokens") {
        Some(x) => match json_as_u64(x) {
            Some(n) => n,
            None => 0,
        },
        None => 0,
    };
    let output_tokens = match json_get(v, "output_tokens") {
        Some(x) => match json_as_u64(x) {
            Some(n) => n,
            None => 0,
        },
        None => 0,
    };
    let cache_read_input_tokens = match json_get(v, "cache_read_input_tokens") {
        Some(x) => match json_as_u64(x) {
            Some(n) => n,
            None => 0,
        },
        None => 0,
    };
    let cache_creation_input_tokens = match json_get(v, "cache_creation_input_tokens") {
        Some(x) => match json_as_u64(x) {
            Some(n) => n,
            None => 0,
        },
        None => 0,
    };
    TokenUsage { input_tokens, output_tokens, cache_read_input_tokens, cache_creation_input_tokens }
}

/// Read the string under `key`, or empty.
fn get_str_field(v: &serde_json::Value, key: &str) -> (r: String)
{
    match json_get(v, key) {
        Some(x) => match json_as_string(x) {
            Some(s) => s,
            None => String::new(),
        },
        None => String::new(),
    }
}

/// Extract the plain tool-input fields the renderer and the safety
/// checks read.
pub fn extract_tool_input(v: Option<&serde_json::Value>) -> (r: ToolInput)
{
    match v {
        Some(val) => ToolInput {
            file_path: get_str_field(val, "file_path"),
            command: get_str_field(val, "command"),
            description: get_str_field(val, "description"),
            pattern: get_str_field(val, "pattern"),
            path: get_str_field(val, "path"),
            query: get_str_field(val, "query"),
            url: get_str_field(val, "url"),
        },
        None => ToolInput::new_empty(),
    }
}

/// A tool that asks the user: the rendezvous server's tools or the
/// built-in question tool.
pub open spec fn spec_is_ask_user_tool(name: Seq<char>) -> bool {
    matches_at(
        name,
        seq!['m', 'c', 'p', '_', '_', 'a', 's', 'k', '-', 'u', 's', 'e', 'r'],
        0,
    ) || name == seq![
        'A',
        's',
        'k',
        'U',
        's',
        'e',
        'r',
        'Q',
        'u',
        'e',
        's',
        't',
        'i',
        'o',
        'n',
    ]
}

/// True iff the tool name triggers the ask-user rendezvous.
pub fn is_ask_user_tool(tool_name: &str) -> (r: bool)
    ensures
        r == spec_is_ask_user_tool(tool_name@),
{
    let nc = str_chars(tool_name);
    let prefix = str_chars("mcp__ask-user");
    let exact = str_chars("AskUserQuestion");
    proof {
        reveal_strlit("mcp__ask-user");
        reveal_strlit("AskUserQuestion");
        assert(prefix@ =~= seq!['m', 'c', 'p', '_', '_', 'a', 's', 'k', '-', 'u', 's', 'e', 'r']);
        assert(exact@ =~= seq![
            'A',
            's',
            'k',
            'U',
            's',
            'e',
            'r',
            'Q',
            'u',
            'e',
            's',
            't',
            'i',
            'o',
            'n',
        ]);
    }
    crate::text::starts_with_chars(&nc, &prefix) || crate::text::chars_eq(&nc, &exact)
}

/// An ASCII capital folded to its lowercase; everything else as is.
pub open spec fn spec_fold_ascii(c: char) -> char {
    if 'A' <= c && c <= 'Z' {
        ((c as int + 32) as u8) as char
    } else {
        c
    }
}

/// ASCII case-insensitive equality of character sequences.
pub open spec fn spec_ascii_eq(a: Seq<char>, b: Seq<char>) -> bool {
    a.map_values(|c: char| spec_fold_ascii(c)) == b.map_values(|c: char| spec_fold_ascii(c))
}

/// ASCII case-insensitive equality of a name against a literal.
fn eq_ignore_ascii(a: &Vec<char>, b: &Vec<char>) -> (r: bool)
    ensures
        r == spec_ascii_eq(a@, b@),
{
    let ghost fa = a@.map_values(|c: char| spec_fold_ascii(c));
    let ghost fb = b@.map_values(|c: char| spec_fold_ascii(c));
    if a.len() != b.len() {
        proof {
            assert(fa.len() != fb.len());
        }
        return false;
    }
    let mut i: usize = 0;
    while i < a.len()
        invariant
            i <= a@.len(),
            a@.len() == b@.len(),
            fa == a@.map_values(|c: char| spec_fold_ascii(c)),
            fb == b@.map_values(|c: char| spec_fold_ascii(c)),
            forall|k: int| 0 <= k < i ==> fa[k] == fb[k],
        decreases a@.len() - i,
    {
        let ca = fold_ascii(a[i]);
        let cb = fold_ascii(b[i]);
        if ca != cb {
            proof {
                assert(fa[i as int] != fb[i as int]);
            }
            return false;
        }
        i += 1;
    }
    proof {
        assert(fa =~= fb);
    }
    true
}

/// Lowercase an ASCII letter; other characters pass through.
fn fold_ascii(c: char) -> (r: char)
    ensures
        r == spec_fold_ascii(c),
{
    if 'A' <= c && c <= 'Z' {
        (((c as u32) + 32) as u8) as char
    } else {
        c
    }
}

/// The file-operation allowance: a `Read` under a configured marker or
/// temp prefix is always allowed; everything else must pass the path
/// policy.
pub open spec fn spec_file_access_allowed(
    is_read: bool,
    fp: Seq<char>,
    markers: Seq<String>,
    temps: Seq<String>,
    policy: &PathPolicy,
) -> bool {
    ||| (is_read && exists|i: int|
        0 <= i < markers.len() && (#[trigger] markers[i])@.len() >= 1 && crate::text::contains_seq(
            fp,
            markers[i]@,
        ))
    ||| (is_read && exists|i: int|
        0 <= i < temps.len() && (#[trigger] temps[i])@.len() >= 1 && matches_at(fp, temps[i]@, 0))
    ||| crate::paths::spec_is_path_allowed(policy, fp)
}

/// Decide one file operation against the markers, the temp prefixes
/// and the path policy.
pub fn file_access_decision(
    is_read: bool,
    file_path: &str,
    markers: &Vec<String>,
    temp_paths: &Vec<String>,
    policy: &PathPolicy,
) -> (r: bool)
    ensures
        r == spec_file_access_allowed(is_read, file_path@, markers@, temp_paths@, policy),
{
    let fp_cs = str_chars(file_path);
    if is_read {
        let mut mi: usize = 0;
        while mi < markers.len()
            invariant
                is_read,
                mi <= markers@.len(),
                fp_cs@ == file_path@,
                forall|k: int|
                    0 <= k < mi ==> !((#[trigger] markers@[k])@.len() >= 1
                        && crate::text::contains_seq(file_path@, markers@[k]@)),
            decreases markers@.len() - mi,
        {
            let mk = str_chars(markers[mi].as_str());
            if mk.len() >= 1 && crate::text::contains_chars(&fp_cs, &mk) {
                proof {
                    assert((#[trigger] markers@[mi as int])@.len() >= 1
                        && crate::text::contains_seq(file_path@, markers@[mi as int]@));
                }
                return true;
            }
            mi += 1;
        }
        let mut ti: usize = 0;
        while ti < temp_paths.len()
            invariant
                is_read,
                ti <= temp_paths@.len(),
                fp_cs@ == file_path@,
                forall|k: int|
                    0 <= k < ti ==> !((#[trigger] temp_paths@[k])@.len() >= 1 && matches_at(
                        file_path@,
                        temp_paths@[k]@,
                        0,
                    )),
            decreases temp_paths@.len() - ti,
        {
            let tp = str_chars(temp_paths[ti].as_str());
            if tp.len() >= 1 && crate::text::starts_with_chars(&fp_cs, &tp) {
                proof {
                    assert((#[trigger] temp_paths@[ti as int])@.len() >= 1 && matches_at(
                        file_path@,
                        temp_paths@[ti as int]@,
                        0,
                    ));
                }
                return true;
            }
            ti += 1;
        }
    }
    policy.is_path_allowed(file_path)
}

/// An action the caller must perform.
#[derive(Debug)]
pub enum PipelineAction {
    /// A port operation from the streaming layer.
    Port(MsgOp),
    /// Cancel the model subprocess.
    CancelModel,
    /// Scan the rendezvous directory for pending ask-user requests and
    /// feed them back through `on_ask_user_records`.
    ScanAskUser,
}

/// An action that sends a message through the port.
pub open spec fn spec_is_send_port(a: PipelineAction) -> bool {
    a matches PipelineAction::Port(MsgOp::SendHtml { .. })
}

/// How many cancel actions a list holds.
pub open spec fn count_cancels(actions: Seq<PipelineAction>) -> int
    decreases actions.len(),
{
    if actions.len() == 0 {
        0
    } else {
        count_cancels(actions.drop_last()) + (if actions.last() is CancelModel {
            1int
        } else {
            0int
        })
    }
}

/// A Bash invocation that the command allowlist refuses.
pub open spec fn spec_bash_denied(
    name: Seq<char>,
    ti: &ToolInput,
    cfg: &Config,
    paths: &PathPolicy,
) -> bool {
    spec_ascii_eq(name, "Bash"@) && !crate::shell::spec_command_ok(
        ti.command@,
        cfg.blocked_patterns@,
        paths,
    )
}

/// A file tool whose non-empty path the access rule refuses.
pub open spec fn spec_file_denied(
    name: Seq<char>,
    ti: &ToolInput,
    cfg: &Config,
    paths: &PathPolicy,
) -> bool {
    &&& (spec_ascii_eq(name, "Read"@) || spec_ascii_eq(name, "Write"@) || spec_ascii_eq(
        name,
        "Edit"@,
    ))
    &&& ti.file_path@.len() > 0
    &&& !spec_file_access_allowed(
        spec_ascii_eq(name, "Read"@),
        ti.file_path@,
        cfg.readable_dir_markers@,
        cfg.temp_paths@,
        paths,
    )
}

/// A port message that announces a safety block.
pub open spec fn spec_is_blocked_notice(a: PipelineAction) -> bool {
    a matches PipelineAction::Port(MsgOp::SendHtml { html, .. }) && (matches_at(
        html@,
        "BLOCKED: "@,
        0,
    ) || matches_at(html@, "Access denied: "@, 0))
}

/// What every safety block leaves in the action list: a cancel of the
/// model and a blocked notice.
pub open spec fn spec_security_actions(actions: Seq<PipelineAction>) -> bool {
    &&& exists|j: int| 0 <= j < actions.len() && (#[trigger] actions[j]) is CancelModel
    &&& exists|j: int| 0 <= j < actions.len() && spec_is_blocked_notice(#[trigger] actions[j])
}

/// One parsed ask-user request file.
pub struct AskUserRecord {
    /// Where the record lives, as the scanner reported it.
    pub path: String,
    pub request_id: String,
    pub chat_id: Option<i64>,
    pub status: String,
    pub question: String,
    pub options: Vec<String>,
    /// The raw record, kept so the status can be rewritten in place.
    pub raw: serde_json::Value,
}

/// Parse one rendezvous file's JSON into a record.  The chat id may be
/// a number or a numeric string.
pub fn parse_ask_user_record(path: String, v: serde_json::Value) -> (r: AskUserRecord)
{
    let request_id = get_str_field(&v, "request_id");
    let status = get_str_field(&v, "status");
    let question = get_str_field(&v, "question");
    let chat_id: Option<i64> = match json_get(&v, "chat_id") {
        Some(c) => match json_as_i64(c) {
            Some(n) => Some(n),
            None => match json_as_string(c) {
                Some(s) => {
                    let cs = str_chars(s.as_str());
                    crate::numbers::parse_i64_chars(&cs)
                },
                None => None,
            },
        },
        None => None,
    };
    let mut options: Vec<String> = Vec::new();
    match json_get(&v, "options") {
        Some(o) => {
            let n = match json_array_len(o) {
                Some(n) => n,
                None => 0,
            };
            let mut i: usize = 0;
            while i < n
                decreases n - i,
            {
                match json_array_get(o, i) {
                    Some(x) => match json_as_string(x) {
                        Some(s) => {
                            options.push(s);
                        },
                        None => {},
                    },
                    None => {},
                }
                i += 1;
            }
        },
        None => {},
    }
    AskUserRecord { path, request_id, chat_id, status, question, options, raw: v }
}

/// What a button tap decides once the request record was read.
pub enum CallbackOutcome {
    /// Forward the selected option as the user's next message; edit
    /// the keyboard message and answer the query with the texts given.
    Forward { selected: String, confirm_edit: String, answer: String },
    /// The index does not name an option.
    InvalidOption { answer: String },
    /// The record is missing or belongs to another chat.
    Expired { answer: String },
}

/// Decide a tapped ask-user button against the request record: a
/// missing record or a chat mismatch expires, an out-of-range index is
/// invalid, and otherwise the option at the index is forwarded.  A
/// record without a chat id passes the chat check.
pub fn askuser_callback_decision(
    rec: Option<&AskUserRecord>,
    chat: ChatId,
    option_index: usize,
) -> (r: CallbackOutcome)
    ensures
        rec is None ==> (r matches CallbackOutcome::Expired { answer } && answer@
            == "Request expired or invalid"@),
        rec matches Some(record) ==> {
            &&& (record.chat_id matches Some(c) && c != chat.0) ==> (r
                matches CallbackOutcome::Expired { answer } && answer@
                == "Request expired or invalid"@)
            &&& (!(record.chat_id matches Some(c) && c != chat.0) && option_index
                >= record.options@.len()) ==> (r matches CallbackOutcome::InvalidOption {
                answer,
            } && answer@ == "Invalid option"@)
            &&& (!(record.chat_id matches Some(c) && c != chat.0) && option_index
                < record.options@.len()) ==> (r matches CallbackOutcome::Forward {
                selected,
                confirm_edit,
                answer,
            } && selected@ == record.options@[option_index as int]@ && confirm_edit@
                == "\u{2713} "@ + record.options@[option_index as int]@ && answer@
                == "Selected: "@ + crate::utils::spec_truncate(
                record.options@[option_index as int]@,
                50,
            ))
        },
{
    let record = match rec {
        Some(record) => record,
        None => {
            return CallbackOutcome::Expired { answer: lit_copy("Request expired or invalid") };
        },
    };
    match record.chat_id {
        Some(c) => {
            if c != chat.0 {
                return CallbackOutcome::Expired {
                    answer: lit_copy("Request expired or invalid"),
                };
            }
        },
        None => {},
    }
    if option_index >= record.options.len() {
        return CallbackOutcome::InvalidOption { answer: lit_copy("Invalid option") };
    }
    let selected = lit_copy(record.options[option_index].as_str());
    let mut edit: Vec<char> = str_chars("\u{2713} ");
    let sc = str_chars(selected.as_str());
    push_all(&mut edit, &sc);
    proof {
        assert(edit@ =~= "\u{2713} "@ + record.options@[option_index as int]@);
    }
    let preview = crate::utils::truncate_text(selected.as_str(), 50);
    let mut ans: Vec<char> = str_chars("Selected: ");
    let pc = str_chars(preview.as_str());
    push_all(&mut ans, &pc);
    proof {
        assert(ans@ =~= "Selected: "@ + crate::utils::spec_truncate(
            record.options@[option_index as int]@,
            50,
        ));
    }
    CallbackOutcome::Forward {
        selected,
        confirm_edit: chars_string(&edit),
        answer: chars_string(&ans),
    }
}

/// What one turn produced.
#[derive(Clone, Debug)]
pub struct TurnOutput {
    pub text: String,
    pub waiting_for_user: bool,
    pub usage: Option<TokenUsage>,
    pub session: Option<SessionRef>,
}

/// Per-turn pipeline state around the streaming layer.
pub struct EventPipeline {
    pub stream: StreamingState,
    pub response_parts: Vec<String>,
    pub current_segment_id: u32,
    pub current_segment_text: String,
    pub last_snapshot_text: String,
    pub last_text_emit: Option<u64>,
    pub observed_session: Option<SessionRef>,
    pub last_usage: Option<TokenUsage>,
    pub ask_user_triggered: bool,
    pub ask_user_buttons_sent: bool,
    pub final_result_text: Option<String>,
}

/// The streaming emission rule: more than twenty characters gathered,
/// and either nothing was emitted yet or the throttle window passed.
pub open spec fn spec_should_emit(
    segment: Seq<char>,
    last_emit: Option<u64>,
    now_ms: u64,
    throttle_ms: u64,
) -> bool {
    segment.len() > 20 && match last_emit {
        Some(last) => (if now_ms >= last {
            now_ms - last
        } else {
            0
        }) > throttle_ms,
        None => true,
    }
}

/// The concatenation of the gathered response parts.
pub open spec fn spec_joined(parts: Seq<Seq<char>>) -> Seq<char>
    decreases parts.len(),
{
    if parts.len() == 0 {
        Seq::<char>::empty()
    } else {
        spec_joined(parts.drop_last()) + parts.last()
    }
}

impl EventPipeline {
    /// A fresh pipeline for one turn in a chat.
    pub fn new(chat_id: ChatId) -> (r: EventPipeline)
        ensures
            r.current_segment_id == 0,
            r.current_segment_text@ == Seq::<char>::empty(),
            r.last_snapshot_text@ == Seq::<char>::empty(),
            r.response_parts@.len() == 0,
            !r.ask_user_triggered,
            !r.ask_user_buttons_sent,
            r.observed_session is None,
            r.final_result_text is None,
            r.last_usage is None,
            r.last_text_emit is None,
    {
        EventPipeline {
            stream: StreamingState::new(chat_id),
            response_parts: Vec::new(),
            current_segment_id: 0,
            current_segment_text: String::new(),
            last_snapshot_text: String::new(),
            last_text_emit: None,
            observed_session: None,
            last_usage: None,
            ask_user_triggered: false,
            ask_user_buttons_sent: false,
            final_result_text: None,
        }
    }

    /// The consumer breaks out early once ask-user was triggered.
    pub fn should_stop_early(&self) -> (r: bool)
        ensures
            r == self.ask_user_triggered,
    {
        self.ask_user_triggered
    }

    /// Record the session id of an event, the first time one appears.
    fn observe_session_id(&mut self, raw: &serde_json::Value)
        ensures
            old(self).observed_session is Some ==> final(self).observed_session == old(self).observed_session,
            final(self).stream == old(self).stream,
            final(self).current_segment_text == old(self).current_segment_text,
            final(self).last_snapshot_text == old(self).last_snapshot_text,
            final(self).response_parts == old(self).response_parts,
            final(self).current_segment_id == old(self).current_segment_id,
            final(self).ask_user_triggered == old(self).ask_user_triggered,
    {
        if self.observed_session.is_some() {
            return ;
        }
        match json_get(raw, "session_id") {
            Some(v) => match json_as_string(v) {
                Some(id) => {
                    self.observed_session = Some(
                        SessionRef { provider: ProviderKind::ClaudeCli, id },
                    );
                },
                None => {},
            },
            None => {},
        }
    }

    /// Record a result event's final text and usage.
    fn handle_result_raw(&mut self, raw: &serde_json::Value)
    {
        match json_get(raw, "result") {
            Some(v) => match json_as_string(v) {
                Some(s) => {
                    self.final_result_text = Some(s);
                },
                None => {},
            },
            None => {},
        }
        match json_get(raw, "usage") {
            Some(u) => {
                self.last_usage = Some(parse_usage(u));
            },
            None => {},
        }
    }

    /// Append a text delta: it joins the response parts, the current
    /// segment and the snapshot mirror, and past the emission rules a
    /// `Text` event goes to the streaming layer.
    pub fn append_text_delta(&mut self, cfg: &Config, text: &str, clock: &ClockMark) -> (r: Vec<
        MsgOp,
    >)
        ensures
            final(self).response_parts@.map_values(|p: String| p@) == old(self).response_parts@.map_values(|p: String| p@).push(text@),
            final(self).current_segment_text@ == old(self).current_segment_text@ + text@,
            final(self).last_snapshot_text@ == old(self).last_snapshot_text@ + text@,
            final(self).current_segment_id == old(self).current_segment_id,
            final(self).ask_user_triggered == old(self).ask_user_triggered,
            final(self).observed_session == old(self).observed_session,
            final(self).last_text_emit == if spec_should_emit(
                old(self).current_segment_text@ + text@,
                old(self).last_text_emit,
                clock.now_ms,
                cfg.streaming_throttle_ms,
            ) {
                Some(clock.now_ms)
            } else {
                old(self).last_text_emit
            },
            !spec_should_emit(
                old(self).current_segment_text@ + text@,
                old(self).last_text_emit,
                clock.now_ms,
                cfg.streaming_throttle_ms,
            ) ==> r@.len() == 0 && final(self).stream == old(self).stream,
    {
        let ghost old_parts = self.response_parts@.map_values(|p: String| p@);
        let copy = lit_copy(text);
        self.response_parts.push(copy);
        proof {
            assert(self.response_parts@.map_values(|p: String| p@) =~= old_parts.push(text@));
        }
        let mut seg = str_chars(self.current_segment_text.as_str());
        let tc = str_chars(text);
        push_all(&mut seg, &tc);
        self.current_segment_text = chars_string(&seg);
        let mut snap = str_chars(self.last_snapshot_text.as_str());
        push_all(&mut snap, &tc);
        self.last_snapshot_text = chars_string(&snap);

        let seg_len = seg.len();
        let should_emit = seg_len > 20 && (match self.last_text_emit {
            Some(last) => {
                let since_ms = if clock.now_ms >= last {
                    clock.now_ms - last
                } else {
                    0
                };
                since_ms > cfg.streaming_throttle_ms
            },
            None => true,
        });
        if should_emit {
            let ops = self.stream.on_status_at(
                cfg,
                StatusType::Text,
                self.current_segment_text.as_str(),
                Some(self.current_segment_id),
                clock,
            );
            self.last_text_emit = Some(clock.now_ms);
            ops
        } else {
            Vec::new()
        }
    }

    /// Reconcile a full-text snapshot against the last one: a snapshot
    /// that extends the previous text contributes only its delta; any
    /// other shape is taken as a delta itself, and segment state is
    /// never reset here.
    pub fn handle_text_snapshot(&mut self, cfg: &Config, snapshot: &str, clock: &ClockMark) -> (r:
        Vec<MsgOp>)
        ensures
            matches_at(snapshot@, old(self).last_snapshot_text@, 0) ==> {
                let delta = snapshot@.skip(old(self).last_snapshot_text@.len() as int);
                &&& final(self).last_snapshot_text@ == snapshot@
                &&& final(self).current_segment_text@ == old(self).current_segment_text@ + delta
                &&& (delta.len() > 0 ==> final(self).response_parts@.map_values(|p: String| p@)
                    == old(self).response_parts@.map_values(|p: String| p@).push(delta))
                &&& (delta.len() == 0 ==> final(self).response_parts@ == old(
                    self,
                ).response_parts@)
            },
            !matches_at(snapshot@, old(self).last_snapshot_text@, 0) ==> {
                &&& (snapshot@.len() > 0 ==> final(self).current_segment_text@ == old(
                    self,
                ).current_segment_text@ + snapshot@ && final(self).response_parts@.map_values(
                    |p: String| p@,
                ) == old(self).response_parts@.map_values(|p: String| p@).push(snapshot@))
                &&& (snapshot@.len() == 0 ==> final(self).current_segment_text@ == old(
                    self,
                ).current_segment_text@ && final(self).response_parts@ == old(
                    self,
                ).response_parts@)
                &&& final(self).last_snapshot_text@ == final(self).current_segment_text@
            },
            final(self).current_segment_id == old(self).current_segment_id,
            final(self).ask_user_triggered == old(self).ask_user_triggered,
    {
        let snap_cs = str_chars(snapshot);
        let last_cs = str_chars(self.last_snapshot_text.as_str());
        if crate::text::starts_with_chars(&snap_cs, &last_cs) {
            let mut delta: Vec<char> = Vec::new();
            crate::text::push_range(&mut delta, &snap_cs, last_cs.len(), snap_cs.len());
            proof {
                assert(delta@ =~= snapshot@.skip(old(self).last_snapshot_text@.len() as int));
            }
            let r = if delta.len() > 0 {
                let ds = chars_string(&delta);
                self.append_text_delta(cfg, ds.as_str(), clock)
            } else {
                Vec::new()
            };
            let snap_copy = lit_copy(snapshot);
            proof {
                assert(old(self).last_snapshot_text@ + snapshot@.skip(
                    old(self).last_snapshot_text@.len() as int,
                ) =~= snapshot@);
            }
            self.last_snapshot_text = snap_copy;
            return r;
        }
        // Unrelated snapshot: best effort, treat it as a delta.
        let r = if snap_cs.len() > 0 {
            self.append_text_delta(cfg, snapshot, clock)
        } else {
            Vec::new()
        };
        let seg_copy = lit_copy(self.current_segment_text.as_str());
        self.last_snapshot_text = seg_copy;
        r
    }

    /// Handle one `tool_use` block: run the safety checks, end the
    /// current segment, and either trigger the ask-user flow or render
    /// a tool status line.
    ///
    /// The outcome is `Err` exactly when a Bash command fails the
    /// allowlist or a file tool names a disallowed path, and a
    /// `Security` outcome always comes with exactly one `CancelModel`
    /// action and a blocked-notice port message in the returned list.
    pub fn handle_tool_use(
        &mut self,
        cfg: &Config,
        paths: &PathPolicy,
        tool_name: &str,
        ti: &ToolInput,
        clock: &ClockMark,
    ) -> (r: (Vec<PipelineAction>, Result<(), Error>))
        ensures
            r.1 is Err <==> spec_bash_denied(tool_name@, ti, cfg, paths) || spec_file_denied(
                tool_name@,
                ti,
                cfg,
                paths,
            ),
            spec_bash_denied(tool_name@, ti, cfg, paths) ==> (r.1 matches Err(e) && e matches Error::Security(m)
                && m@ == "Unsafe command blocked: "@ + crate::shell::spec_command_reason(
                ti.command@,
                cfg.blocked_patterns@,
                paths,
            )),
            !spec_bash_denied(tool_name@, ti, cfg, paths) && spec_file_denied(
                tool_name@,
                ti,
                cfg,
                paths,
            ) ==> (r.1 matches Err(e) && e matches Error::Security(m) && m@
                == "File access blocked: "@ + ti.file_path@),
            r.1 matches Err(e) ==> e is Security && r.0@.len() > 0 && r.0@[0] is CancelModel
                && spec_security_actions(r.0@) && count_cancels(r.0@) == 1 && (forall|j: int|
                1 <= j < r.0@.len() ==> (#[trigger] r.0@[j]) is Port),
            r.1 is Ok && spec_is_ask_user_tool(tool_name@) ==> final(self).ask_user_triggered
                && r.0@.len() >= 2 && r.0@[r.0@.len() - 2] is ScanAskUser
                && r.0@[r.0@.len() - 1] is CancelModel && count_cancels(r.0@) == 1 && (forall|j: int|
                0 <= j < r.0@.len() - 2 ==> (#[trigger] r.0@[j]) is Port),
            r.1 is Ok && !spec_is_ask_user_tool(tool_name@) ==> count_cancels(r.0@) == 0 && (
            exists|j: int|
                0 <= j < r.0@.len() && ((#[trigger] r.0@[j]) matches PipelineAction::Port(
                    MsgOp::SendHtml { html, .. },
                ) && html@ == crate::formatting::spec_tool_status(tool_name@, ti))),
            r.1 is Ok ==> final(self).current_segment_text@ == Seq::<char>::empty(),
            r.1 is Ok && old(self).current_segment_text@.len() > 0 ==> final(self).current_segment_id == old(self).current_segment_id + 1 || old(self).current_segment_id == u32::MAX,
            r.1 is Ok && old(self).current_segment_text@.len() == 0 ==> final(self).current_segment_id == old(self).current_segment_id,
    {
        let mut actions: Vec<PipelineAction> = Vec::new();
        let name_cs = str_chars(tool_name);
        let bash = str_chars("Bash");
        let read = str_chars("Read");
        let write = str_chars("Write");
        let edit = str_chars("Edit");
        // Bash commands go through the command allowlist.
        if eq_ignore_ascii(&name_cs, &bash) {
            let (ok, reason) = crate::shell::check_command_safety(
                ti.command.as_str(),
                &cfg.blocked_patterns,
                paths,
            );
            if !ok {
                actions.push(PipelineAction::CancelModel);
                proof {
                    assert(actions@.drop_last().len() == 0);
                    assert(count_cancels(actions@.drop_last()) == 0);
                    assert(count_cancels(actions@) == 1);
                }
                let esc = crate::formatting::escape_html(reason.as_str());
                let mut msg: Vec<char> = str_chars("BLOCKED: ");
                let ec = str_chars(esc.as_str());
                push_all(&mut msg, &ec);
                let ghost gmsg = msg@;
                proof {
                    assert(matches_at(gmsg, "BLOCKED: "@, 0)) by {
                        assert(forall|k: int|
                            0 <= k < "BLOCKED: "@.len() ==> gmsg[k] == "BLOCKED: "@[k]);
                    }
                }
                let msg_s = chars_string(&msg);
                let ops = self.stream.on_status_at(cfg, StatusType::Tool, msg_s.as_str(), None, clock);
                let ghost jj = choose|j: int|
                    0 <= j < ops@.len() && ((#[trigger] ops@[j]) matches MsgOp::SendHtml{
                        html,
                        ..
                    } && html@ == gmsg);
                let mut oi: usize = 0;
                while oi < ops.len()
                    invariant
                        oi <= ops@.len(),
                        actions@.len() > 0,
                        actions@[0] is CancelModel,
                        actions@.len() == 1 + oi,
                        count_cancels(actions@) == 1,
                        forall|j: int|
                            1 <= j < actions@.len() ==> (#[trigger] actions@[j]) is Port,
                        0 <= jj < ops@.len(),
                        (ops@[jj]) matches MsgOp::SendHtml{ html, .. } && html@ == gmsg,
                        matches_at(gmsg, "BLOCKED: "@, 0),
                        oi > jj ==> 1 + jj < actions@.len() && spec_is_blocked_notice(
                            actions@[1 + jj],
                        ),
                    decreases ops@.len() - oi,
                {
                    let ghost at = actions@.len();
                    let ghost prev = actions@;
                    actions.push(PipelineAction::Port(op_clone(&ops[oi])));
                    proof {
                        assert(actions@.drop_last() =~= prev);
                        assert(count_cancels(actions@) == count_cancels(prev));
                        if oi == jj {
                            assert(spec_is_blocked_notice(actions@[at as int]));
                        }
                    }
                    oi += 1;
                }
                proof {
                    assert(spec_is_blocked_notice(actions@[1 + jj]));
                    assert(spec_security_actions(actions@));
                }
                let mut err: Vec<char> = str_chars("Unsafe command blocked: ");
                let rc = str_chars(reason.as_str());
                push_all(&mut err, &rc);
                proof {
                    assert(err@ =~= "Unsafe command blocked: "@ + reason@);
                }
                return (actions, Err(Error::Security(chars_string(&err))));
            }
        }
        // File operations go through the path allowlist.
        let is_read = eq_ignore_ascii(&name_cs, &read);
        let is_file_op = is_read || eq_ignore_ascii(&name_cs, &write) || eq_ignore_ascii(
            &name_cs,
            &edit,
        );
        if is_file_op {
            let fp_cs = str_chars(ti.file_path.as_str());
            if fp_cs.len() > 0 {
                let allowed = file_access_decision(
                    is_read,
                    ti.file_path.as_str(),
                    &cfg.readable_dir_markers,
                    &cfg.temp_paths,
                    paths,
                );
                if !allowed {
                    actions.push(PipelineAction::CancelModel);
                    proof {
                        assert(actions@.drop_last().len() == 0);
                        assert(count_cancels(actions@.drop_last()) == 0);
                        assert(count_cancels(actions@) == 1);
                    }
                    let esc = crate::formatting::escape_html(ti.file_path.as_str());
                    let mut msg: Vec<char> = str_chars("Access denied: ");
                    let ec = str_chars(esc.as_str());
                    push_all(&mut msg, &ec);
                    let ghost gmsg = msg@;
                    proof {
                        assert(matches_at(gmsg, "Access denied: "@, 0)) by {
                            assert(forall|k: int|
                                0 <= k < "Access denied: "@.len() ==> gmsg[k]
                                    == "Access denied: "@[k]);
                        }
                    }
                    let msg_s = chars_string(&msg);
                    let ops = self.stream.on_status_at(
                        cfg,
                        StatusType::Tool,
                        msg_s.as_str(),
                        None,
                        clock,
                    );
                    let ghost jj = choose|j: int|
                        0 <= j < ops@.len() && ((#[trigger] ops@[j]) matches MsgOp::SendHtml{
                            html,
                            ..
                        } && html@ == gmsg);
                    let mut oi: usize = 0;
                    while oi < ops.len()
                        invariant
                            oi <= ops@.len(),
                            actions@.len() > 0,
                            actions@[0] is CancelModel,
                            actions@.len() == 1 + oi,
                            count_cancels(actions@) == 1,
                            forall|j: int|
                                1 <= j < actions@.len() ==> (#[trigger] actions@[j]) is Port,
                            0 <= jj < ops@.len(),
                            (ops@[jj]) matches MsgOp::SendHtml{ html, .. } && html@ == gmsg,
                            matches_at(gmsg, "Access denied: "@, 0),
                            oi > jj ==> 1 + jj < actions@.len() && spec_is_blocked_notice(
                                actions@[1 + jj],
                            ),
                        decreases ops@.len() - oi,
                    {
                        let ghost at = actions@.len();
                        let ghost prev = actions@;
                        actions.push(PipelineAction::Port(op_clone(&ops[oi])));
                        proof {
                            assert(actions@.drop_last() =~= prev);
                            assert(count_cancels(actions@) == count_cancels(prev));
                            if oi == jj {
                                assert(spec_is_blocked_notice(actions@[at as int]));
                            }
                        }
                        oi += 1;
                    }
                    proof {
                        assert(spec_is_blocked_notice(actions@[1 + jj]));
                        assert(spec_security_actions(actions@));
                    }
                    let mut err: Vec<char> = str_chars("File access blocked: ");
                    let fc = str_chars(ti.file_path.as_str());
                    push_all(&mut err, &fc);
                    proof {
                        assert(err@ =~= "File access blocked: "@ + ti.file_path@);
                    }
                    return (actions, Err(Error::Security(chars_string(&err))));
                }
            }
        }
        // A tool invocation ends the running text segment.
        let seg_cs = str_chars(self.current_segment_text.as_str());
        if seg_cs.len() > 0 {
            let ops = self.stream.on_status_at(
                cfg,
                StatusType::SegmentEnd,
                self.current_segment_text.as_str(),
                Some(self.current_segment_id),
                clock,
            );
            let mut oi: usize = 0;
            while oi < ops.len()
                invariant
                    oi <= ops@.len(),
                    count_cancels(actions@) == 0,
                    forall|j: int|
                        0 <= j < actions@.len() ==> (#[trigger] actions@[j]) is Port,
                decreases ops@.len() - oi,
            {
                let ghost prev = actions@;
                actions.push(PipelineAction::Port(op_clone(&ops[oi])));
                proof {
                    assert(actions@.drop_last() =~= prev);
                    assert(count_cancels(actions@) == count_cancels(prev));
                }
                oi += 1;
            }
            if self.current_segment_id < u32::MAX {
                self.current_segment_id = self.current_segment_id + 1;
            }
            self.current_segment_text = String::new();
            self.last_snapshot_text = String::new();
            self.last_text_emit = None;
        } else {
            self.current_segment_text = String::new();
        }
        // Ask-user tools suspend the turn instead of rendering status.
        if is_ask_user_tool(tool_name) {
            self.ask_user_triggered = true;
            let ghost before = actions@;
            actions.push(PipelineAction::ScanAskUser);
            proof {
                if before.len() == 0 {
                    assert(count_cancels(before) == 0);
                }
                assert(actions@.drop_last() =~= before);
                assert(count_cancels(actions@) == 0);
            }
            let ghost mid = actions@;
            actions.push(PipelineAction::CancelModel);
            proof {
                assert(actions@.drop_last() =~= mid);
                assert(count_cancels(actions@) == 1);
                assert((actions@[actions@.len() - 2]) is ScanAskUser);
                assert((actions@[actions@.len() - 1]) is CancelModel);
                assert(forall|j: int|
                    0 <= j < actions@.len() - 2 ==> (#[trigger] actions@[j]) is Port);
            }
            return (actions, Ok(()));
        }
        let display = crate::formatting::format_tool_status(tool_name, ti);
        let ops = self.stream.on_status_at(cfg, StatusType::Tool, display.as_str(), None, clock);
        let ghost base = actions@.len();
        let ghost jj = choose|j: int|
            0 <= j < ops@.len() && ((#[trigger] ops@[j]) matches MsgOp::SendHtml{ html, .. }
                && html@ == display@);
        let mut oi: usize = 0;
        while oi < ops.len()
            invariant
                oi <= ops@.len(),
                actions@.len() == base + oi,
                count_cancels(actions@) == 0,
                display@ == crate::formatting::spec_tool_status(tool_name@, ti),
                0 <= jj < ops@.len(),
                (ops@[jj]) matches MsgOp::SendHtml{ html, .. } && html@ == display@,
                oi > jj ==> base + jj < actions@.len() && ((actions@[base + jj]) matches PipelineAction::Port(
                    MsgOp::SendHtml { html, .. },
                ) && html@ == display@),
            decreases ops@.len() - oi,
        {
            let ghost at = actions@.len();
            let ghost prev = actions@;
            actions.push(PipelineAction::Port(op_clone(&ops[oi])));
            proof {
                assert(actions@.drop_last() =~= prev);
                assert(count_cancels(actions@) == count_cancels(prev));
                if oi == jj {
                    assert((actions@[at as int]) matches PipelineAction::Port(
                        MsgOp::SendHtml { html, .. },
                    ) && html@ == display@);
                }
            }
            oi += 1;
        }
        proof {
            assert((actions@[base + jj]) matches PipelineAction::Port(
                MsgOp::SendHtml { html, .. },
            ) && html@ == display@);
        }
        (actions, Ok(()))
    }

    /// Walk an assistant event's content blocks: an all-text event is
    /// one snapshot; otherwise thinking, tool-use and text blocks are
    /// handled in order.
    pub fn handle_assistant_raw(
        &mut self,
        cfg: &Config,
        paths: &PathPolicy,
        raw: &serde_json::Value,
        clock: &ClockMark,
    ) -> (r: (Vec<PipelineAction>, Result<(), Error>))
        ensures
            r.1 matches Err(e) ==> e is Security && spec_security_actions(r.0@),
    {
        let mut actions: Vec<PipelineAction> = Vec::new();
        let content = match json_get(raw, "message") {
            Some(m) => match json_get(m, "content") {
                Some(c) => c,
                None => {
                    return (actions, Ok(()));
                },
            },
            None => {
                return (actions, Ok(()));
            },
        };
        let n = match json_array_len(content) {
            Some(n) => n,
            None => {
                return (actions, Ok(()));
            },
        };
        // Is every block a text block?
        let text_lit = str_chars("text");
        let mut all_text = true;
        let mut i: usize = 0;
        while i < n
            decreases n - i,
        {
            let is_text = match json_array_get(content, i) {
                Some(b) => match json_get(b, "type") {
                    Some(t) => match json_as_string(t) {
                        Some(s) => crate::text::chars_eq(&str_chars(s.as_str()), &text_lit),
                        None => false,
                    },
                    None => false,
                },
                None => false,
            };
            if !is_text {
                all_text = false;
            }
            i += 1;
        }
        if all_text {
            // Concatenate the blocks into one snapshot.
            let mut snap: Vec<char> = Vec::new();
            let mut i: usize = 0;
            while i < n
                decreases n - i,
            {
                match json_array_get(content, i) {
                    Some(b) => match json_get(b, "text") {
                        Some(t) => match json_as_string(t) {
                            Some(s) => {
                                let sc = str_chars(s.as_str());
                                push_all(&mut snap, &sc);
                            },
                            None => {},
                        },
                        None => {},
                    },
                    None => {},
                }
                i += 1;
            }
            let snap_s = chars_string(&snap);
            let ops = self.handle_text_snapshot(cfg, snap_s.as_str(), clock);
            let mut oi: usize = 0;
            while oi < ops.len()
                decreases ops@.len() - oi,
            {
                actions.push(PipelineAction::Port(op_clone(&ops[oi])));
                oi += 1;
            }
            return (actions, Ok(()));
        }
        // Mixed blocks: handle each in order.
        let thinking_lit = str_chars("thinking");
        let tool_use_lit = str_chars("tool_use");
        let mut i: usize = 0;
        while i < n
            decreases n - i,
        {
            let b = match json_array_get(content, i) {
                Some(b) => b,
                None => {
                    i += 1;
                    continue;
                },
            };
            let ty = match json_get(b, "type") {
                Some(t) => match json_as_string(t) {
                    Some(s) => s,
                    None => {
                        i += 1;
                        continue;
                    },
                },
                None => {
                    i += 1;
                    continue;
                },
            };
            let tyc = str_chars(ty.as_str());
            if crate::text::chars_eq(&tyc, &thinking_lit) {
                match json_get(b, "thinking") {
                    Some(t) => match json_as_string(t) {
                        Some(s) => {
                            let ops = self.stream.on_status_at(
                                cfg,
                                StatusType::Thinking,
                                s.as_str(),
                                None,
                                clock,
                            );
                            let mut oi: usize = 0;
                            while oi < ops.len()
                                decreases ops@.len() - oi,
                            {
                                actions.push(PipelineAction::Port(op_clone(&ops[oi])));
                                oi += 1;
                            }
                        },
                        None => {},
                    },
                    None => {},
                }
            } else if crate::text::chars_eq(&tyc, &tool_use_lit) {
                let name = match json_get(b, "name") {
                    Some(nv) => match json_as_string(nv) {
                        Some(s) => s,
                        None => lit_copy("Tool"),
                    },
                    None => lit_copy("Tool"),
                };
                let input = json_get(b, "input");
                let ti = extract_tool_input(input);
                let (acts, res) = self.handle_tool_use(cfg, paths, name.as_str(), &ti, clock);
                let ghost base = actions@.len();
                let mut ai: usize = 0;
                while ai < acts.len()
                    invariant
                        ai <= acts@.len(),
                        actions@.len() == base + ai,
                        forall|k: int|
                            0 <= k < ai ==> (((#[trigger] acts@[k]) is CancelModel
                                ==> actions@[base + k] is CancelModel) && (spec_is_blocked_notice(
                                acts@[k],
                            ) ==> spec_is_blocked_notice(actions@[base + k]))),
                    decreases acts@.len() - ai,
                {
                    actions.push(action_clone(&acts[ai]));
                    ai += 1;
                }
                match res {
                    Ok(()) => {
                        if self.ask_user_triggered {
                            return (actions, Ok(()));
                        }
                    },
                    Err(e) => {
                        proof {
                            let j1 = choose|j: int|
                                0 <= j < acts@.len() && (#[trigger] acts@[j]) is CancelModel;
                            let j2 = choose|j: int|
                                0 <= j < acts@.len() && spec_is_blocked_notice(
                                    #[trigger] acts@[j],
                                );
                            assert((actions@[base + j1]) is CancelModel);
                            assert(spec_is_blocked_notice(actions@[base + j2]));
                            assert(spec_security_actions(actions@));
                        }
                        return (actions, Err(e));
                    },
                }
            } else if crate::text::chars_eq(&tyc, &text_lit) {
                match json_get(b, "text") {
                    Some(t) => match json_as_string(t) {
                        Some(s) => {
                            let ops = self.append_text_delta(cfg, s.as_str(), clock);
                            let mut oi: usize = 0;
                            while oi < ops.len()
                                decreases ops@.len() - oi,
                            {
                                actions.push(PipelineAction::Port(op_clone(&ops[oi])));
                                oi += 1;
                            }
                        },
                        None => {},
                    },
                    None => {},
                }
            }
            i += 1;
        }
        (actions, Ok(()))
    }

    /// Feed one classified event through the pipeline: the actions the
    /// caller must perform, and whether a safety policy was breached.
    pub fn handle_event(
        &mut self,
        cfg: &Config,
        paths: &PathPolicy,
        ev: &ModelEvent,
        clock: &ClockMark,
    ) -> (r: (Vec<PipelineAction>, Result<(), Error>))
        ensures
            r.1 matches Err(e) ==> e is Security && spec_security_actions(r.0@),
    {
        match ev {
            ModelEvent::SystemInit { raw } => {
                self.observe_session_id(raw);
                (Vec::new(), Ok(()))
            },
            ModelEvent::Assistant { raw } => {
                self.observe_session_id(raw);
                self.handle_assistant_raw(cfg, paths, raw, clock)
            },
            ModelEvent::Tool { raw } => {
                self.observe_session_id(raw);
                (Vec::new(), Ok(()))
            },
            ModelEvent::Result { raw } => {
                self.observe_session_id(raw);
                self.handle_result_raw(raw);
                (Vec::new(), Ok(()))
            },
            ModelEvent::Unknown { raw } => {
                self.observe_session_id(raw);
                (Vec::new(), Ok(()))
            },
        }
    }

    /// A record the rendezvous acts on: pending, addressed to this
    /// chat, with a request id and at least one option.
    pub open spec fn spec_record_qualifies(rec: &AskUserRecord, chat_id: ChatId) -> bool {
        &&& rec.status@ == "pending"@
        &&& rec.chat_id == Some(chat_id.0)
        &&& rec.request_id@.len() > 0
        &&& rec.options@.len() > 0
    }

    /// The action sends this record's keyboard.
    pub open spec fn spec_keyboard_action_for(
        a: PipelineAction,
        rec: &AskUserRecord,
        max_label: int,
    ) -> bool {
        a matches PipelineAction::Port(MsgOp::SendKeyboard { html, keyboard, .. }) && html@
            == seq!['\u{2753}', ' '] + crate::formatting::spec_escape(rec.question@)
            && keyboard.buttons@.len() == rec.options@.len() && (forall|k: int|
            0 <= k < rec.options@.len() ==> {
                &&& (#[trigger] keyboard.buttons@[k]).label@
                    == crate::messaging::spec_button_label(rec.options@[k]@, max_label)
                &&& keyboard.buttons@[k].callback_data@ == crate::messaging::spec_callback_data(
                    rec.request_id@,
                    k,
                )
            })
    }

    /// The action rewrites this record's file.
    pub open spec fn spec_mark_action_for(a: PipelineAction, rec: &AskUserRecord) -> bool {
        a matches PipelineAction::Port(MsgOp::MarkAskUserSent { path, .. }) && path@ == rec.path@
    }

    /// What the rendezvous owes: the flag reports whether any record
    /// qualified, every qualifying record has its keyboard action and
    /// its file rewrite among the actions, and every action is such a
    /// keyboard or rewrite for some qualifying record — nothing else is
    /// acted on.
    pub open spec fn spec_rendezvous_outcome(
        records: Seq<AskUserRecord>,
        chat_id: ChatId,
        actions: Seq<PipelineAction>,
        any: bool,
        max_label: int,
    ) -> bool {
        &&& any == exists|i: int|
            0 <= i < records.len() && #[trigger] Self::spec_record_qualifies(
                &records[i],
                chat_id,
            )
        &&& forall|i: int|
            0 <= i < records.len() && #[trigger] Self::spec_record_qualifies(
                &records[i],
                chat_id,
            ) ==> (exists|j: int|
                0 <= j < actions.len() && #[trigger] Self::spec_keyboard_action_for(
                    actions[j],
                    &records[i],
                    max_label,
                )) && (exists|j: int|
                0 <= j < actions.len() && #[trigger] Self::spec_mark_action_for(
                    actions[j],
                    &records[i],
                ))
        &&& forall|j: int|
            0 <= j < actions.len() ==> ((#[trigger] actions[j]) matches PipelineAction::Port(op)
                && (op matches MsgOp::SendKeyboard { .. } || op matches MsgOp::MarkAskUserSent {
                    ..
                }))
        &&& !any ==> actions.len() == 0
    }

    /// Handle the records an ask-user scan found: each pending record
    /// for this chat gets an inline keyboard and a rewrite of its file,
    /// and nothing else is acted on.  Returns the actions and whether
    /// any keyboard went out.
    /// Build the keyboard action for one qualifying record.
    fn keyboard_action_for(cfg: &Config, rec: &AskUserRecord, kid: u32) -> (a: PipelineAction)
        ensures
            Self::spec_keyboard_action_for(a, rec, cfg.button_label_max_length as int),
    {
        let keyboard = crate::messaging::InlineKeyboard::one_per_row(
            rec.request_id.as_str(),
            &rec.options,
            cfg.button_label_max_length,
        );
        let esc = crate::formatting::escape_html(rec.question.as_str());
        let mut html: Vec<char> = Vec::new();
        html.push('\u{2753}');
        html.push(' ');
        let ec = str_chars(esc.as_str());
        push_all(&mut html, &ec);
        proof {
            assert(html@ =~= seq!['\u{2753}', ' '] + crate::formatting::spec_escape(
                rec.question@,
            ));
        }
        PipelineAction::Port(
            MsgOp::SendKeyboard { local_id: kid, html: chars_string(&html), keyboard },
        )
    }

    /// Push the keyboard and file-rewrite actions for one qualifying
    /// record, leaving everything already in the list untouched.
    fn push_record_actions(
        actions: &mut Vec<PipelineAction>,
        cfg: &Config,
        rec: &AskUserRecord,
        kid: u32,
    )
        ensures
            final(actions)@.len() == old(actions)@.len() + 2,
            forall|j: int|
                0 <= j < old(actions)@.len() ==> final(actions)@[j] == old(actions)@[j],
            Self::spec_keyboard_action_for(
                final(actions)@[old(actions)@.len() as int],
                rec,
                cfg.button_label_max_length as int,
            ),
            Self::spec_mark_action_for(
                final(actions)@[old(actions)@.len() as int + 1],
                rec,
            ),
    {
        let a1 = Self::keyboard_action_for(cfg, rec, kid);
        let ghost ga1 = a1;
        actions.push(a1);
        let a2 = Self::mark_action_for(rec);
        let ghost ga2 = a2;
        actions.push(a2);
        proof {
            assert(actions@ == old(actions)@.push(ga1).push(ga2));
            assert(actions@[old(actions)@.len() as int] == ga1);
            assert(actions@[old(actions)@.len() as int + 1] == ga2);
        }
    }

    /// Build the file-rewrite action for one qualifying record.
    fn mark_action_for(rec: &AskUserRecord) -> (a: PipelineAction)
        ensures
            Self::spec_mark_action_for(a, rec),
    {
        let mut raw2 = json_clone(&rec.raw);
        json_set_string(&mut raw2, "status", "sent");
        let content = json_to_string(&raw2);
        PipelineAction::Port(
            MsgOp::MarkAskUserSent { path: lit_copy(rec.path.as_str()), content },
        )
    }

    #[verifier::rlimit(80)]
    pub fn on_ask_user_records(
        &mut self,
        cfg: &Config,
        chat_id: ChatId,
        records: Vec<AskUserRecord>,
    ) -> (r: (Vec<PipelineAction>, bool))
        ensures
            r.1 ==> final(self).ask_user_buttons_sent,
            Self::spec_rendezvous_outcome(
                records@,
                chat_id,
                r.0@,
                r.1,
                cfg.button_label_max_length as int,
            ),
    {
        let ghost ml = cfg.button_label_max_length as int;
        let ghost grecords = records@;
        let mut actions: Vec<PipelineAction> = Vec::new();
        let mut any_sent = false;
        let pending = str_chars("pending");
        let mut i: usize = 0;
        let n = records.len();
        let recs = records;
        while i < n
            invariant
                i <= n,
                n == recs@.len(),
                recs@ == grecords,
                ml == cfg.button_label_max_length as int,
                pending@ == "pending"@,
                any_sent ==> self.ask_user_buttons_sent,
                any_sent == exists|q: int|
                    0 <= q < i && #[trigger] Self::spec_record_qualifies(&recs@[q], chat_id),
                forall|q: int|
                    0 <= q < i && #[trigger] Self::spec_record_qualifies(&recs@[q], chat_id)
                        ==> (exists|j: int|
                        0 <= j < actions@.len() && #[trigger] Self::spec_keyboard_action_for(
                            actions@[j],
                            &recs@[q],
                            ml,
                        )) && (exists|j: int|
                        0 <= j < actions@.len() && #[trigger] Self::spec_mark_action_for(
                            actions@[j],
                            &recs@[q],
                        )),
                forall|j: int|
                    0 <= j < actions@.len() ==> ((#[trigger] actions@[j]) matches PipelineAction::Port(
                        op,
                    ) && (op matches MsgOp::SendKeyboard { .. }
                        || op matches MsgOp::MarkAskUserSent { .. })),
                !any_sent ==> actions@.len() == 0,
            decreases n - i,
        {
            let rec = &recs[i];
            let st = str_chars(rec.status.as_str());
            let matches_chat = match rec.chat_id {
                Some(c) => c == chat_id.0,
                None => false,
            };
            let rid = str_chars(rec.request_id.as_str());
            let qualifies = crate::text::chars_eq(&st, &pending) && matches_chat && rid.len() > 0
                && rec.options.len() > 0;
            proof {
                assert(qualifies == Self::spec_record_qualifies(&recs@[i as int], chat_id));
            }
            if qualifies {
                // Send the question with one button per option, and
                // rewrite the record as sent.
                let kid = self.stream.alloc_local();
                let ghost before = actions@;
                Self::push_record_actions(&mut actions, cfg, rec, kid);
                any_sent = true;
                self.ask_user_buttons_sent = true;
                proof {
                    assert(Self::spec_keyboard_action_for(
                        actions@[before.len() as int],
                        &recs@[i as int],
                        ml,
                    ));
                    assert(Self::spec_mark_action_for(
                        actions@[before.len() as int + 1],
                        &recs@[i as int],
                    ));
                }
            }
            i += 1;
        }
        proof {
            assert(Self::spec_rendezvous_outcome(recs@, chat_id, actions@, any_sent, ml));
            assert(recs@ == records@);
        }
        (actions, any_sent)
    }

    /// Finish the turn: flush the open segment, close the progress
    /// display, and assemble the outcome.  After an ask-user trigger
    /// the turn reports that it waits for the user.
    pub fn finish(&mut self, cfg: &Config, clock: &ClockMark) -> (r: (
        TurnOutput,
        Vec<PipelineAction>,
    ))
        ensures
            r.0.waiting_for_user == old(self).ask_user_triggered,
            old(self).ask_user_triggered && old(self).ask_user_buttons_sent
                ==> r.0.text@ == "[Waiting for user selection]"@,
            old(self).ask_user_triggered && !old(self).ask_user_buttons_sent
                ==> r.0.text@ == "[Waiting for user selection (no request file found yet)]"@,
            !old(self).ask_user_triggered && old(self).response_parts@.len() > 0 ==> r.0.text@
                == spec_joined(old(self).response_parts@.map_values(|p: String| p@)),
            old(self).final_result_text matches Some(t) ==> ((!old(self).ask_user_triggered
                && old(self).response_parts@.len() == 0) ==> r.0.text@ == t@),
            !old(self).ask_user_triggered && old(self).response_parts@.len() == 0 && old(
                self,
            ).final_result_text is None ==> r.0.text@ == "No response from the assistant."@,
    {
        let mut actions: Vec<PipelineAction> = Vec::new();
        if self.ask_user_triggered {
            let ops = self.stream.on_status_at(cfg, StatusType::Done, "", None, clock);
            let mut oi: usize = 0;
            while oi < ops.len()
                decreases ops@.len() - oi,
            {
                actions.push(PipelineAction::Port(op_clone(&ops[oi])));
                oi += 1;
            }
            let text = if self.ask_user_buttons_sent {
                lit_copy("[Waiting for user selection]")
            } else {
                lit_copy("[Waiting for user selection (no request file found yet)]")
            };
            let usage = usage_clone(&self.last_usage);
            let session = session_clone(&self.observed_session);
            return (TurnOutput { text, waiting_for_user: true, usage, session }, actions);
        }
        let seg_cs = str_chars(self.current_segment_text.as_str());
        if seg_cs.len() > 0 {
            let ops = self.stream.on_status_at(
                cfg,
                StatusType::SegmentEnd,
                self.current_segment_text.as_str(),
                Some(self.current_segment_id),
                clock,
            );
            let mut oi: usize = 0;
            while oi < ops.len()
                decreases ops@.len() - oi,
            {
                actions.push(PipelineAction::Port(op_clone(&ops[oi])));
                oi += 1;
            }
        }
        let ops = self.stream.on_status_at(cfg, StatusType::Done, "", None, clock);
        let mut oi: usize = 0;
        while oi < ops.len()
            decreases ops@.len() - oi,
        {
            actions.push(PipelineAction::Port(op_clone(&ops[oi])));
            oi += 1;
        }
        // The user-visible text: the joined parts, else the result
        // field, else a fixed notice.
        let ghost gparts = self.response_parts@.map_values(|p: String| p@);
        let mut joined: Vec<char> = Vec::new();
        let mut pi: usize = 0;
        proof {
            assert(gparts.take(0) =~= Seq::<Seq<char>>::empty());
        }
        while pi < self.response_parts.len()
            invariant
                pi <= gparts.len(),
                gparts == self.response_parts@.map_values(|p: String| p@),
                joined@ == spec_joined(gparts.take(pi as int)),
            decreases self.response_parts@.len() - pi,
        {
            let pc = str_chars(self.response_parts[pi].as_str());
            push_all(&mut joined, &pc);
            proof {
                assert(gparts.take(pi + 1).drop_last() =~= gparts.take(pi as int));
                assert(gparts.take(pi + 1).last() == gparts[pi as int]);
            }
            pi += 1;
        }
        proof {
            assert(gparts.take(gparts.len() as int) =~= gparts);
        }
        let text = if self.response_parts.len() > 0 {
            chars_string(&joined)
        } else {
            match &self.final_result_text {
                Some(t) => lit_copy(t.as_str()),
                None => lit_copy("No response from the assistant."),
            }
        };
        let usage = usage_clone(&self.last_usage);
        let session = session_clone(&self.observed_session);
        (TurnOutput { text, waiting_for_user: false, usage, session }, actions)
    }
}

/// A copied string.
fn lit_copy(s: &str) -> (r: String)
    ensures
        r@ == s@,
{
    let c = str_chars(s);
    chars_string(&c)
}

/// A structural copy of a port operation.
fn op_clone(op: &MsgOp) -> (r: MsgOp)
    ensures
        (*op) matches MsgOp::SendHtml{ local_id, html } ==> (r matches MsgOp::SendHtml{
            local_id: l2,
            html: h2,
        } && l2 == local_id && h2@ == html@),
{
    match op {
        MsgOp::SendHtml { local_id, html } => MsgOp::SendHtml {
            local_id: *local_id,
            html: lit_copy(html.as_str()),
        },
        MsgOp::EditHtml { local_id, html } => MsgOp::EditHtml {
            local_id: *local_id,
            html: lit_copy(html.as_str()),
        },
        MsgOp::DeleteMessage { local_id } => MsgOp::DeleteMessage { local_id: *local_id },
        MsgOp::SetReaction { local_id, emoji } => MsgOp::SetReaction {
            local_id: *local_id,
            emoji: lit_copy(emoji.as_str()),
        },
        MsgOp::SendKeyboard { local_id, html, keyboard } => {
            let mut buttons: Vec<crate::messaging::InlineButton> = Vec::new();
            let mut i: usize = 0;
            while i < keyboard.buttons.len()
                decreases keyboard.buttons@.len() - i,
            {
                buttons.push(
                    crate::messaging::InlineButton {
                        label: lit_copy(keyboard.buttons[i].label.as_str()),
                        callback_data: lit_copy(keyboard.buttons[i].callback_data.as_str()),
                    },
                );
                i += 1;
            }
            MsgOp::SendKeyboard {
                local_id: *local_id,
                html: lit_copy(html.as_str()),
                keyboard: crate::messaging::InlineKeyboard { buttons },
            }
        },
        MsgOp::MarkAskUserSent { path, content } => MsgOp::MarkAskUserSent {
            path: lit_copy(path.as_str()),
            content: lit_copy(content.as_str()),
        },
    }
}

/// A structural copy of a pipeline action.
fn action_clone(a: &PipelineAction) -> (r: PipelineAction)
    ensures
        (*a) is CancelModel ==> r is CancelModel,
        (*a) is ScanAskUser ==> r is ScanAskUser,
        spec_is_blocked_notice(*a) ==> spec_is_blocked_notice(r),
{
    match a {
        PipelineAction::Port(op) => PipelineAction::Port(op_clone(op)),
        PipelineAction::CancelModel => PipelineAction::CancelModel,
        PipelineAction::ScanAskUser => PipelineAction::ScanAskUser,
    }
}

/// A copy of an optional usage.
fn usage_clone(u: &Option<TokenUsage>) -> (r: Option<TokenUsage>)
{
    match u {
        Some(x) => Some(
            TokenUsage {
                input_tokens: x.input_tokens,
                output_tokens: x.output_tokens,
                cache_read_input_tokens: x.cache_read_input_tokens,
                cache_creation_input_tokens: x.cache_creation_input_tokens,
            },
        ),
        None => None,
    }
}

/// A copy of an optional session reference.
fn session_clone(s: &Option<SessionRef>) -> (r: Option<SessionRef>)
    ensures
        (*s) matches Some(y) ==> r matches Some(x) && x.provider == y.provider && x.id@ == y.id@,
        (*s) is None ==> r is None,
{
    match s {
        Some(x) => Some(SessionRef { provider: x.provider, id: lit_copy(x.id.as_str()) }),
        None => None,
    }
}

} // verus!
