//! Audit events and the logger's pure half: truncation and rendering.
//! Appending to the log file is the caller's business.

use vstd::prelude::*;

use crate::session::jesc;
use crate::text::chars_string;
use crate::text::push_all;
use crate::text::str_chars;
use crate::utils::spec_truncate;

verus! {

/// The longest text an audit record keeps per field.
pub open spec fn audit_max_text() -> int {
    500
}

/// One audit record; absent fields stay out of the rendering.
#[derive(Clone, Debug)]
pub struct AuditEvent {
    pub timestamp: String,
    pub event: String,
    pub user_id: Option<i64>,
    pub username: Option<String>,
    pub message_type: Option<String>,
    pub content: Option<String>,
    pub response: Option<String>,
    pub authorized: Option<bool>,
    pub tool_name: Option<String>,
    pub tool_input: Option<String>,
    pub blocked: Option<bool>,
    pub reason: Option<String>,
    pub error: Option<String>,
    pub context: Option<String>,
    pub retry_after_ms: Option<u64>,
}

impl AuditEvent {
    /// A message event.
    pub fn message(
        timestamp: String,
        user_id: i64,
        username: &str,
        message_type: &str,
        content: &str,
        response: Option<&str>,
    ) -> (r: AuditEvent)
        ensures
            r.event@ == "message"@,
            r.user_id == Some(user_id),
            r.content matches Some(c) && c@ == content@,
    {
        AuditEvent {
            timestamp,
            event: copy_str("message"),
            user_id: Some(user_id),
            username: Some(copy_str(username)),
            message_type: Some(copy_str(message_type)),
            content: Some(copy_str(content)),
            response: match response {
                Some(s) => Some(copy_str(s)),
                None => None,
            },
            authorized: None,
            tool_name: None,
            tool_input: None,
            blocked: None,
            reason: None,
            error: None,
            context: None,
            retry_after_ms: None,
        }
    }

    /// An authorization event.
    pub fn auth(timestamp: String, user_id: i64, username: &str, authorized: bool) -> (r:
        AuditEvent)
        ensures
            r.event@ == "auth"@,
            r.authorized == Some(authorized),
    {
        AuditEvent {
            timestamp,
            event: copy_str("auth"),
            user_id: Some(user_id),
            username: Some(copy_str(username)),
            message_type: None,
            content: None,
            response: None,
            authorized: Some(authorized),
            tool_name: None,
            tool_input: None,
            blocked: None,
            reason: None,
            error: None,
            context: None,
            retry_after_ms: None,
        }
    }

    /// A tool-use event.
    pub fn tool_use(
        timestamp: String,
        user_id: i64,
        username: &str,
        tool_name: &str,
        tool_input: String,
        blocked: bool,
        reason: Option<&str>,
    ) -> (r: AuditEvent)
        ensures
            r.event@ == "tool_use"@,
            r.blocked == Some(blocked),
    {
        AuditEvent {
            timestamp,
            event: copy_str("tool_use"),
            user_id: Some(user_id),
            username: Some(copy_str(username)),
            message_type: None,
            content: None,
            response: None,
            authorized: None,
            tool_name: Some(copy_str(tool_name)),
            tool_input: Some(tool_input),
            blocked: Some(blocked),
            reason: match reason {
                Some(s) => Some(copy_str(s)),
                None => None,
            },
            error: None,
            context: None,
            retry_after_ms: None,
        }
    }

    /// An error event.
    pub fn error(
        timestamp: String,
        user_id: i64,
        username: &str,
        error: &str,
        context: Option<&str>,
    ) -> (r: AuditEvent)
        ensures
            r.event@ == "error"@,
            r.error matches Some(e) && e@ == error@,
    {
        AuditEvent {
            timestamp,
            event: copy_str("error"),
            user_id: Some(user_id),
            username: Some(copy_str(username)),
            message_type: None,
            content: None,
            response: None,
            authorized: None,
            tool_name: None,
            tool_input: None,
            blocked: None,
            reason: None,
            error: Some(copy_str(error)),
            context: match context {
                Some(s) => Some(copy_str(s)),
                None => None,
            },
            retry_after_ms: None,
        }
    }

    /// A rate-limit event.
    pub fn rate_limit(timestamp: String, user_id: i64, username: &str, retry_after_ms: u64) -> (r:
        AuditEvent)
        ensures
            r.event@ == "rate_limit"@,
            r.retry_after_ms == Some(retry_after_ms),
    {
        AuditEvent {
            timestamp,
            event: copy_str("rate_limit"),
            user_id: Some(user_id),
            username: Some(copy_str(username)),
            message_type: None,
            content: None,
            response: None,
            authorized: None,
            tool_name: None,
            tool_input: None,
            blocked: None,
            reason: None,
            error: None,
            context: None,
            retry_after_ms: Some(retry_after_ms),
        }
    }

    /// The record with its large payloads cut to the audit limit:
    /// content, response and tool input truncated with an ellipsis.
    pub fn truncated_for_write(&self) -> (r: AuditEvent)
        ensures
            self.content matches Some(c) ==> (r.content matches Some(t) && t@ == spec_truncate(
                c@,
                audit_max_text(),
            )),
            self.response matches Some(c) ==> (r.response matches Some(t) && t@ == spec_truncate(
                c@,
                audit_max_text(),
            )),
            self.tool_input matches Some(c) ==> (r.tool_input matches Some(t) && t@
                == spec_truncate(c@, audit_max_text())),
            r.event@ == self.event@,
            r.timestamp@ == self.timestamp@,
    {
        AuditEvent {
            timestamp: copy_str(self.timestamp.as_str()),
            event: copy_str(self.event.as_str()),
            user_id: self.user_id,
            username: copy_opt(&self.username),
            message_type: copy_opt(&self.message_type),
            content: trunc_opt(&self.content),
            response: trunc_opt(&self.response),
            authorized: self.authorized,
            tool_name: copy_opt(&self.tool_name),
            tool_input: trunc_opt(&self.tool_input),
            blocked: self.blocked,
            reason: copy_opt(&self.reason),
            error: copy_opt(&self.error),
            context: copy_opt(&self.context),
            retry_after_ms: self.retry_after_ms,
        }
    }

    /// The record as one JSON line, absent fields skipped.
    pub fn render_json_line(&self) -> (r: String)
        ensures
            r@ == spec_json_line(*self),
            r@.len() > 0,
    {
        let mut out: Vec<char> = str_chars("{\"timestamp\":\"");
        let tv = jesc_pub(&str_chars(self.timestamp.as_str()));
        push_all(&mut out, &tv);
        let ev_key = str_chars("\",\"event\":\"");
        push_all(&mut out, &ev_key);
        let ev = jesc_pub(&str_chars(self.event.as_str()));
        push_all(&mut out, &ev);
        out.push('"');
        proof {
            assert(out@ =~= spec_json_head(*self));
        }
        let ghost a0 = out@;
        match self.user_id {
            Some(uid) => {
                let key = str_chars(",\"user_id\":");
                push_all(&mut out, &key);
                if uid < 0 {
                    out.push('-');
                    let mag = if uid == i64::MIN {
                        9223372036854775808u64
                    } else {
                        (-uid) as u64
                    };
                    let digits = crate::numbers::u64_to_dec(mag);
                    push_all(&mut out, &digits);
                    proof {
                        assert(spec_i64_dec(uid as int) =~= seq!['-']
                            + crate::numbers::dec_digits(mag as nat));
                        assert(out@ =~= a0 + spec_opt_i64_field(
                            ",\"user_id\":"@,
                            self.user_id,
                        ));
                    }
                } else {
                    let digits = crate::numbers::u64_to_dec(uid as u64);
                    push_all(&mut out, &digits);
                    proof {
                        assert(out@ =~= a0 + spec_opt_i64_field(
                            ",\"user_id\":"@,
                            self.user_id,
                        ));
                    }
                }
            },
            None => {
                proof {
                    assert(out@ =~= a0 + spec_opt_i64_field(",\"user_id\":"@, self.user_id));
                }
            },
        }
        push_str_field(&mut out, ",\"username\":\"", &self.username);
        push_str_field(&mut out, ",\"message_type\":\"", &self.message_type);
        push_str_field(&mut out, ",\"content\":\"", &self.content);
        push_str_field(&mut out, ",\"response\":\"", &self.response);
        let ghost a1 = out@;
        match self.authorized {
            Some(b) => {
                let key = str_chars(",\"authorized\":");
                push_all(&mut out, &key);
                let v = if b {
                    str_chars("true")
                } else {
                    str_chars("false")
                };
                push_all(&mut out, &v);
            },
            None => {},
        }
        proof {
            assert(out@ =~= a1 + spec_opt_bool_field(",\"authorized\":"@, self.authorized));
        }
        push_str_field(&mut out, ",\"tool_name\":\"", &self.tool_name);
        push_str_field(&mut out, ",\"tool_input\":\"", &self.tool_input);
        let ghost a2 = out@;
        match self.blocked {
            Some(b) => {
                let key = str_chars(",\"blocked\":");
                push_all(&mut out, &key);
                let v = if b {
                    str_chars("true")
                } else {
                    str_chars("false")
                };
                push_all(&mut out, &v);
            },
            None => {},
        }
        proof {
            assert(out@ =~= a2 + spec_opt_bool_field(",\"blocked\":"@, self.blocked));
        }
        push_str_field(&mut out, ",\"reason\":\"", &self.reason);
        push_str_field(&mut out, ",\"error\":\"", &self.error);
        push_str_field(&mut out, ",\"context\":\"", &self.context);
        let ghost a3 = out@;
        match self.retry_after_ms {
            Some(ms) => {
                let key = str_chars(",\"retry_after_ms\":");
                push_all(&mut out, &key);
                let digits = crate::numbers::u64_to_dec(ms);
                push_all(&mut out, &digits);
            },
            None => {},
        }
        proof {
            assert(out@ =~= a3 + spec_opt_u64_field(
                ",\"retry_after_ms\":"@,
                self.retry_after_ms,
            ));
        }
        out.push('}');
        proof {
            assert(out@ =~= spec_json_line(*self));
            assert(out@.len() > 0);
        }
        chars_string(&out)
    }
}

impl AuditEvent {
    /// The record as a plain-text block: a rule of sixty equals signs,
    /// then one `key: value` line per present field, keys in
    /// alphabetical order, and a closing newline.
    pub fn render_text_block(&self) -> (r: String)
        ensures
            r@ == spec_text_block(*self),
            r@.len() > 0,
    {
        let mut out: Vec<char> = Vec::new();
        out.push('\n');
        let mut k: usize = 0;
        while k < 60
            invariant
                k <= 60,
                out@ =~= seq!['\n'] + Seq::<char>::new(k as nat, |q: int| '='),
            decreases 60 - k,
        {
            out.push('=');
            proof {
                assert(out@ =~= seq!['\n'] + Seq::<char>::new((k + 1) as nat, |q: int| '='));
            }
            k += 1;
        }
        proof {
            assert(out@ =~= spec_block_head());
        }
        let ghost h = out@;
        match self.authorized {
            Some(b) => {
                let key = str_chars("\nauthorized: ");
                push_all(&mut out, &key);
                let v = if b {
                    str_chars("true")
                } else {
                    str_chars("false")
                };
                push_all(&mut out, &v);
            },
            None => {},
        }
        proof {
            assert(out@ =~= h + spec_opt_bool_field("\nauthorized: "@, self.authorized));
        }
        let ghost h2 = out@;
        match self.blocked {
            Some(b) => {
                let key = str_chars("\nblocked: ");
                push_all(&mut out, &key);
                let v = if b {
                    str_chars("true")
                } else {
                    str_chars("false")
                };
                push_all(&mut out, &v);
            },
            None => {},
        }
        proof {
            assert(out@ =~= h2 + spec_opt_bool_field("\nblocked: "@, self.blocked));
        }
        push_text_field(&mut out, "\ncontent: ", &self.content);
        push_text_field(&mut out, "\ncontext: ", &self.context);
        push_text_field(&mut out, "\nerror: ", &self.error);
        let ekey = str_chars("\nevent: ");
        push_all(&mut out, &ekey);
        let ev = str_chars(self.event.as_str());
        push_all(&mut out, &ev);
        push_text_field(&mut out, "\nmessage_type: ", &self.message_type);
        push_text_field(&mut out, "\nreason: ", &self.reason);
        push_text_field(&mut out, "\nresponse: ", &self.response);
        let ghost h3 = out@;
        match self.retry_after_ms {
            Some(ms) => {
                let key = str_chars("\nretry_after_ms: ");
                push_all(&mut out, &key);
                let digits = crate::numbers::u64_to_dec(ms);
                push_all(&mut out, &digits);
            },
            None => {},
        }
        proof {
            assert(out@ =~= h3 + spec_opt_u64_field(
                "\nretry_after_ms: "@,
                self.retry_after_ms,
            ));
        }
        let tkey = str_chars("\ntimestamp: ");
        push_all(&mut out, &tkey);
        let tv = str_chars(self.timestamp.as_str());
        push_all(&mut out, &tv);
        push_text_field(&mut out, "\ntool_name: ", &self.tool_name);
        push_text_field(&mut out, "\ntool_input: ", &self.tool_input);
        let ghost h4 = out@;
        match self.user_id {
            Some(uid) => {
                let key = str_chars("\nuser_id: ");
                push_all(&mut out, &key);
                if uid < 0 {
                    out.push('-');
                    let mag = if uid == i64::MIN {
                        9223372036854775808u64
                    } else {
                        (-uid) as u64
                    };
                    let digits = crate::numbers::u64_to_dec(mag);
                    push_all(&mut out, &digits);
                    proof {
                        assert(spec_i64_dec(uid as int) =~= seq!['-']
                            + crate::numbers::dec_digits(mag as nat));
                    }
                } else {
                    let digits = crate::numbers::u64_to_dec(uid as u64);
                    push_all(&mut out, &digits);
                }
            },
            None => {},
        }
        proof {
            assert(out@ =~= h4 + spec_opt_i64_field("\nuser_id: "@, self.user_id));
        }
        push_text_field(&mut out, "\nusername: ", &self.username);
        out.push('\n');
        proof {
            assert(out@ =~= spec_text_block(*self));
            assert(out@.len() > 0);
        }
        chars_string(&out)
    }
}

/// The opening of a text block: a newline and sixty equals signs.
pub open spec fn spec_block_head() -> Seq<char> {
    seq!['\n'] + Seq::<char>::new(60, |q: int| '=')
}

/// A `\nkey: value` piece for a present text field, else nothing.
pub open spec fn spec_opt_text_field(key: Seq<char>, v: Option<Seq<char>>) -> Seq<char> {
    match v {
        Some(s) => key + s,
        None => Seq::<char>::empty(),
    }
}

/// The whole plain-text block, keys in alphabetical order.
pub open spec fn spec_text_block(e: AuditEvent) -> Seq<char> {
    spec_block_head() + spec_opt_bool_field("\nauthorized: "@, e.authorized)
        + spec_opt_bool_field("\nblocked: "@, e.blocked) + spec_opt_text_field(
        "\ncontent: "@,
        opt_view(e.content),
    ) + spec_opt_text_field("\ncontext: "@, opt_view(e.context)) + spec_opt_text_field(
        "\nerror: "@,
        opt_view(e.error),
    ) + "\nevent: "@ + e.event@ + spec_opt_text_field(
        "\nmessage_type: "@,
        opt_view(e.message_type),
    ) + spec_opt_text_field("\nreason: "@, opt_view(e.reason)) + spec_opt_text_field(
        "\nresponse: "@,
        opt_view(e.response),
    ) + spec_opt_u64_field("\nretry_after_ms: "@, e.retry_after_ms) + "\ntimestamp: "@
        + e.timestamp@ + spec_opt_text_field("\ntool_name: "@, opt_view(e.tool_name))
        + spec_opt_text_field("\ntool_input: "@, opt_view(e.tool_input)) + spec_opt_i64_field(
        "\nuser_id: "@,
        e.user_id,
    ) + spec_opt_text_field("\nusername: "@, opt_view(e.username)) + seq!['\n']
}

/// Append a `\nkey: value` piece for a present field, unescaped.
fn push_text_field(out: &mut Vec<char>, key: &str, value: &Option<String>)
    ensures
        final(out)@ == old(out)@ + spec_opt_text_field(key@, opt_view(*value)),
{
    match value {
        Some(v) => {
            let kc = str_chars(key);
            push_all(out, &kc);
            let vc = str_chars(v.as_str());
            push_all(out, &vc);
            proof {
                assert(out@ =~= old(out)@ + spec_opt_text_field(key@, opt_view(*value)));
            }
        },
        None => {
            proof {
                assert(out@ =~= old(out)@ + spec_opt_text_field(key@, opt_view(*value)));
            }
        },
    }
}

/// A signed decimal rendering.
pub open spec fn spec_i64_dec(n: int) -> Seq<char> {
    if n < 0 {
        seq!['-'] + crate::numbers::dec_digits((-n) as nat)
    } else {
        crate::numbers::dec_digits(n as nat)
    }
}

/// A `,"key":N` piece for a present signed number, else nothing.
pub open spec fn spec_opt_i64_field(key: Seq<char>, v: Option<i64>) -> Seq<char> {
    match v {
        Some(n) => key + spec_i64_dec(n as int),
        None => Seq::<char>::empty(),
    }
}

/// A `,"key":N` piece for a present unsigned number, else nothing.
pub open spec fn spec_opt_u64_field(key: Seq<char>, v: Option<u64>) -> Seq<char> {
    match v {
        Some(n) => key + crate::numbers::dec_digits(n as nat),
        None => Seq::<char>::empty(),
    }
}

/// A `,"key":"value"` piece for a present escaped string, else nothing.
pub open spec fn spec_opt_str_field(key: Seq<char>, v: Option<Seq<char>>) -> Seq<char> {
    match v {
        Some(s) => key + jesc(s) + seq!['"'],
        None => Seq::<char>::empty(),
    }
}

/// A `,"key":B` piece for a present boolean, else nothing.
pub open spec fn spec_opt_bool_field(key: Seq<char>, v: Option<bool>) -> Seq<char> {
    match v {
        Some(b) => key + (if b {
            "true"@
        } else {
            "false"@
        }),
        None => Seq::<char>::empty(),
    }
}

/// The view of an optional string.
pub open spec fn opt_view(v: Option<String>) -> Option<Seq<char>> {
    match v {
        Some(s) => Some(s@),
        None => None,
    }
}

/// The always-present head of the rendered line: escaped timestamp and
/// event name.
pub open spec fn spec_json_head(e: AuditEvent) -> Seq<char> {
    "{\"timestamp\":\""@ + jesc(e.timestamp@) + "\",\"event\":\""@ + jesc(e.event@) + seq!['"']
}

/// The whole rendered JSON line, in field order, absent fields skipped.
pub open spec fn spec_json_line(e: AuditEvent) -> Seq<char> {
    spec_json_head(e) + spec_opt_i64_field(",\"user_id\":"@, e.user_id) + spec_opt_str_field(
        ",\"username\":\""@,
        opt_view(e.username),
    ) + spec_opt_str_field(",\"message_type\":\""@, opt_view(e.message_type)) + spec_opt_str_field(
        ",\"content\":\""@,
        opt_view(e.content),
    ) + spec_opt_str_field(",\"response\":\""@, opt_view(e.response)) + spec_opt_bool_field(
        ",\"authorized\":"@,
        e.authorized,
    ) + spec_opt_str_field(",\"tool_name\":\""@, opt_view(e.tool_name)) + spec_opt_str_field(
        ",\"tool_input\":\""@,
        opt_view(e.tool_input),
    ) + spec_opt_bool_field(",\"blocked\":"@, e.blocked) + spec_opt_str_field(
        ",\"reason\":\""@,
        opt_view(e.reason),
    ) + spec_opt_str_field(",\"error\":\""@, opt_view(e.error)) + spec_opt_str_field(
        ",\"context\":\""@,
        opt_view(e.context),
    ) + spec_opt_u64_field(",\"retry_after_ms\":"@, e.retry_after_ms) + seq!['}']
}

/// Append a `,"key":"value"` piece for a present field.
fn push_str_field(out: &mut Vec<char>, key: &str, value: &Option<String>)
    ensures
        final(out)@ == old(out)@ + spec_opt_str_field(key@, opt_view(*value)),
{
    match value {
        Some(v) => {
            let kc = str_chars(key);
            push_all(out, &kc);
            let vc = jesc_pub(&str_chars(v.as_str()));
            push_all(out, &vc);
            out.push('"');
            proof {
                assert(out@ =~= old(out)@ + spec_opt_str_field(key@, opt_view(*value)));
            }
        },
        None => {
            proof {
                assert(out@ =~= old(out)@ + spec_opt_str_field(key@, opt_view(*value)));
            }
        },
    }
}

/// Escape a string for a JSON value.
fn jesc_pub(s: &Vec<char>) -> (r: Vec<char>)
    ensures
        r@ == jesc(s@),
{
    let n = s.len();
    let mut out: Vec<char> = Vec::new();
    let mut i: usize = 0;
    proof {
        assert(s@.skip(0) =~= s@);
        assert(Seq::<char>::empty() + jesc(s@) =~= jesc(s@));
    }
    while i < n
        invariant
            i <= n,
            n == s@.len(),
            jesc(s@) == out@ + jesc(s@.skip(i as int)),
        decreases n - i,
    {
        proof {
            assert(s@.skip(i as int)[0] == s@[i as int]);
            assert(s@.skip(i as int).drop_first() =~= s@.skip(i + 1));
        }
        let ghost prev = out@;
        let ghost rest = jesc(s@.skip(i + 1));
        let c = s[i];
        if c == '"' {
            out.push('\\');
            out.push('"');
        } else if c == '\\' {
            out.push('\\');
            out.push('\\');
        } else if c == '\n' {
            out.push('\\');
            out.push('n');
        } else if c == '\r' {
            out.push('\\');
            out.push('r');
        } else if c == '\t' {
            out.push('\\');
            out.push('t');
        } else {
            out.push(c);
        }
        proof {
            assert(out@ =~= prev + crate::session::jesc_char(s@[i as int]));
            assert(prev + (crate::session::jesc_char(s@[i as int]) + rest) =~= (prev
                + crate::session::jesc_char(s@[i as int])) + rest);
        }
        i += 1;
    }
    proof {
        assert(s@.skip(n as int) =~= Seq::<char>::empty());
    }
    out
}

/// The audit logger: its file location and output mode.  Writing the
/// rendered line to the file is the caller's business.
#[derive(Clone, Debug)]
pub struct AuditLogger {
    pub log_path: String,
    pub json: bool,
}

impl AuditLogger {
    /// A logger writing to the given path.
    pub fn new(path: String, json: bool) -> (r: AuditLogger)
        ensures
            r.json == json,
    {
        AuditLogger { log_path: path, json }
    }

    /// The log file's location.
    pub fn path(&self) -> (r: &str)
    {
        self.log_path.as_str()
    }
}

/// A copied string.
fn copy_str(s: &str) -> (r: String)
    ensures
        r@ == s@,
{
    let c = str_chars(s);
    chars_string(&c)
}

/// A copied optional string.
fn copy_opt(s: &Option<String>) -> (r: Option<String>)
    ensures
        s matches Some(v) ==> (r matches Some(w) && w@ == v@),
        s is None ==> r is None,
{
    match s {
        Some(v) => Some(copy_str(v.as_str())),
        None => None,
    }
}

/// A truncated optional string.
fn trunc_opt(s: &Option<String>) -> (r: Option<String>)
    ensures
        s matches Some(v) ==> (r matches Some(w) && w@ == spec_truncate(v@, audit_max_text())),
        s is None ==> r is None,
{
    match s {
        Some(v) => Some(crate::utils::truncate_text(v.as_str(), 500)),
        None => None,
    }
}

} // verus!
