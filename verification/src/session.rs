//! Session bookkeeping: run flags, usage totals, resume persistence
//! and the save-id format.

use vstd::prelude::*;

use crate::errors::Error;
use crate::model_types::ProviderKind;
use crate::model_types::SessionRef;
use crate::model_types::TokenUsage;
use crate::numbers::is_digit;
use crate::text::chars_string;
use crate::text::contains_seq;
use crate::text::lower_of;
use crate::text::matches_at;
use crate::text::push_all;
use crate::text::str_chars;

verus! {

/// The JSON escape of one character, as this library writes strings.
pub open spec fn jesc_char(c: char) -> Seq<char> {
    if c == '"' {
        seq!['\\', '"']
    } else if c == '\\' {
        seq!['\\', '\\']
    } else if c == '\n' {
        seq!['\\', 'n']
    } else if c == '\r' {
        seq!['\\', 'r']
    } else if c == '\t' {
        seq!['\\', 't']
    } else {
        seq![c]
    }
}

/// The JSON escape of a string.
pub open spec fn jesc(s: Seq<char>) -> Seq<char>
    decreases s.len(),
{
    if s.len() == 0 {
        Seq::<char>::empty()
    } else {
        jesc_char(s[0]) + jesc(s.drop_first())
    }
}

/// Escape a string for a JSON value.
fn jesc_exec(s: &Vec<char>) -> (r: Vec<char>)
    ensures
        r@ == jesc(s@),
{
    let n = s.len();
    let mut out: Vec<char> = Vec::new();
    let mut i: usize = 0;
    proof {
        assert(s@.skip(0) =~= s@);
        assert(Seq::<char>::empty() + jesc(s@) =~= jesc(s@));
    }
    while i < n
        invariant
            i <= n,
            n == s@.len(),
            jesc(s@) == out@ + jesc(s@.skip(i as int)),
        decreases n - i,
    {
        proof {
            assert(s@.skip(i as int)[0] == s@[i as int]);
            assert(s@.skip(i as int).drop_first() =~= s@.skip(i + 1));
        }
        let ghost prev = out@;
        let ghost rest = jesc(s@.skip(i + 1));
        let c = s[i];
        if c == '"' {
            out.push('\\');
            out.push('"');
        } else if c == '\\' {
            out.push('\\');
            out.push('\\');
        } else if c == '\n' {
            out.push('\\');
            out.push('n');
        } else if c == '\r' {
            out.push('\\');
            out.push('r');
        } else if c == '\t' {
            out.push('\\');
            out.push('t');
        } else {
            out.push(c);
        }
        proof {
            assert(out@ =~= prev + jesc_char(s@[i as int]));
            assert(prev + (jesc_char(s@[i as int]) + rest) =~= (prev + jesc_char(s@[i as int]))
                + rest);
        }
        i += 1;
    }
    proof {
        assert(s@.skip(n as int) =~= Seq::<char>::empty());
    }
    out
}

/// Reading an escaped string: the characters up to the first unescaped
/// quote, together with what follows that quote; `None` without a
/// closing quote.
pub open spec fn junread(s: Seq<char>) -> Option<(Seq<char>, Seq<char>)>
    decreases s.len(),
{
    if s.len() == 0 {
        None
    } else if s[0] == '"' {
        Some((Seq::<char>::empty(), s.drop_first()))
    } else if s[0] == '\\' {
        if s.len() < 2 {
            None
        } else {
            let c = s[1];
            let unc = if c == 'n' {
                '\n'
            } else if c == 'r' {
                '\r'
            } else if c == 't' {
                '\t'
            } else {
                c
            };
            match junread(s.skip(2)) {
                Some(p) => Some((seq![unc] + p.0, p.1)),
                None => None,
            }
        }
    } else {
        match junread(s.drop_first()) {
            Some(p) => Some((seq![s[0]] + p.0, p.1)),
            None => None,
        }
    }
}

/// Reading back an escaped string followed by its closing quote gives
/// the original string and the trailing rest.
pub proof fn lemma_junread_of_jesc(s: Seq<char>, rest: Seq<char>)
    ensures
        junread(jesc(s) + seq!['"'] + rest) == Some((s, rest)),
    decreases s.len(),
{
    if s.len() == 0 {
        assert(jesc(s) + seq!['"'] + rest =~= seq!['"'] + rest);
        assert((seq!['"'] + rest)[0] == '"');
        assert((seq!['"'] + rest).drop_first() =~= rest);
    } else {
        lemma_junread_of_jesc(s.drop_first(), rest);
        let whole = jesc(s) + seq!['"'] + rest;
        let tail = jesc(s.drop_first()) + seq!['"'] + rest;
        let c = s[0];
        if c == '"' || c == '\\' || c == '\n' || c == '\r' || c == '\t' {
            assert(jesc_char(c).len() == 2);
            assert(whole =~= jesc_char(c) + tail);
            assert(whole[0] == '\\');
            assert(whole.len() >= 2);
            assert(whole.skip(2) =~= tail);
            assert(seq![s[0]] + s.drop_first() =~= s);
        } else {
            assert(whole =~= seq![c] + tail);
            assert(whole[0] == c);
            assert(c != '"' && c != '\\');
            assert(whole.drop_first() =~= tail);
            assert(seq![s[0]] + s.drop_first() =~= s);
        }
    }
}

/// The persisted session record.
#[derive(Clone, Debug)]
pub struct SessionFileData {
    pub provider: String,
    pub session_id: String,
    pub saved_at: String,
    pub working_dir: String,
}

/// The exact text this library persists for a session.
pub open spec fn spec_emit_session(p: Seq<char>, id: Seq<char>, at: Seq<char>, wd: Seq<
    char,
>) -> Seq<char> {
    "{\"provider\":\""@ + jesc(p) + "\",\"session_id\":\""@ + jesc(id) + "\",\"saved_at\":\""@
        + jesc(at) + "\",\"working_dir\":\""@ + jesc(wd) + "\"}"@
}

/// Serialize a session record.
pub fn emit_session_file(data: &SessionFileData) -> (r: String)
    ensures
        r@ == spec_emit_session(
            data.provider@,
            data.session_id@,
            data.saved_at@,
            data.working_dir@,
        ),
{
    let mut out: Vec<char> = Vec::new();
    let k1 = str_chars("{\"provider\":\"");
    push_all(&mut out, &k1);
    let pv = jesc_exec(&str_chars(data.provider.as_str()));
    push_all(&mut out, &pv);
    let k2 = str_chars("\",\"session_id\":\"");
    push_all(&mut out, &k2);
    let iv = jesc_exec(&str_chars(data.session_id.as_str()));
    push_all(&mut out, &iv);
    let k3 = str_chars("\",\"saved_at\":\"");
    push_all(&mut out, &k3);
    let av = jesc_exec(&str_chars(data.saved_at.as_str()));
    push_all(&mut out, &av);
    let k4 = str_chars("\",\"working_dir\":\"");
    push_all(&mut out, &k4);
    let wv = jesc_exec(&str_chars(data.working_dir.as_str()));
    push_all(&mut out, &wv);
    let k5 = str_chars("\"}");
    push_all(&mut out, &k5);
    proof {
        assert(out@ =~= spec_emit_session(
            data.provider@,
            data.session_id@,
            data.saved_at@,
            data.working_dir@,
        ));
    }
    chars_string(&out)
}

/// The parse of a persisted record: the library's own fixed shape.
pub open spec fn spec_parse_session(s: Seq<char>) -> Option<(
    Seq<char>,
    Seq<char>,
    Seq<char>,
    Seq<char>,
)> {
    let h1 = "{\"provider\":\""@;
    if s.len() >= h1.len() && s.take(h1.len() as int) == h1 {
        match junread(s.skip(h1.len() as int)) {
            Some(p1) => {
                let h2 = ",\"session_id\":\""@;
                if p1.1.len() >= h2.len() && p1.1.take(h2.len() as int) == h2 {
                    match junread(p1.1.skip(h2.len() as int)) {
                        Some(p2) => {
                            let h3 = ",\"saved_at\":\""@;
                            if p2.1.len() >= h3.len() && p2.1.take(h3.len() as int) == h3 {
                                match junread(p2.1.skip(h3.len() as int)) {
                                    Some(p3) => {
                                        let h4 = ",\"working_dir\":\""@;
                                        if p3.1.len() >= h4.len() && p3.1.take(h4.len() as int)
                                            == h4 {
                                            match junread(p3.1.skip(h4.len() as int)) {
                                                Some(p4) => {
                                                    if p4.1 == "}"@ {
                                                        Some((p1.0, p2.0, p3.0, p4.0))
                                                    } else {
                                                        None
                                                    }
                                                },
                                                None => None,
                                            }
                                        } else {
                                            None
                                        }
                                    },
                                    None => None,
                                }
                            } else {
                                None
                            }
                        },
                        None => None,
                    }
                } else {
                    None
                }
            },
            None => None,
        }
    } else {
        None
    }
}

/// Read an escaped string off the front of `s`, returning the string
/// and the position after its closing quote.
fn junread_exec(s: &Vec<char>, from: usize) -> (r: Option<(Vec<char>, usize)>)
    requires
        from <= s@.len(),
    ensures
        match r {
            Some(p) => {
                &&& junread(s@.skip(from as int)) matches Some(q) && p.0@ == q.0 && q.1
                    == s@.skip(p.1 as int)
                &&& from <= p.1 <= s@.len()
            },
            None => junread(s@.skip(from as int)) is None,
        },
    decreases s@.len() - from,
{
    if from >= s.len() {
        proof {
            assert(s@.skip(from as int) =~= Seq::<char>::empty());
        }
        return None;
    }
    proof {
        assert(s@.skip(from as int)[0] == s@[from as int]);
        assert(s@.skip(from as int).drop_first() =~= s@.skip(from + 1));
    }
    let c = s[from];
    if c == '"' {
        let out: Vec<char> = Vec::new();
        proof {
            assert(out@ =~= Seq::<char>::empty());
        }
        return Some((out, from + 1));
    }
    if c == '\\' {
        if from + 1 >= s.len() {
            proof {
                assert(s@.skip(from as int).len() < 2);
            }
            return None;
        }
        proof {
            assert(s@.skip(from as int)[1] == s@[from + 1]);
            assert(s@.skip(from as int).skip(2) =~= s@.skip(from + 2));
        }
        let e = s[from + 1];
        let unc = if e == 'n' {
            '\n'
        } else if e == 'r' {
            '\r'
        } else if e == 't' {
            '\t'
        } else {
            e
        };
        match junread_exec(s, from + 2) {
            Some(p) => {
                let mut out: Vec<char> = Vec::new();
                out.push(unc);
                push_all(&mut out, &p.0);
                proof {
                    assert(out@ =~= seq![unc] + p.0@);
                }
                return Some((out, p.1));
            },
            None => {
                return None;
            },
        }
    }
    match junread_exec(s, from + 1) {
        Some(p) => {
            let mut out: Vec<char> = Vec::new();
            out.push(c);
            push_all(&mut out, &p.0);
            proof {
                assert(out@ =~= seq![s@[from as int]] + p.0@);
            }
            Some((out, p.1))
        },
        None => None,
    }
}

/// Expect a literal at a position; the position after it, or `None`.
fn expect_lit(s: &Vec<char>, from: usize, lit: &Vec<char>) -> (r: Option<usize>)
    requires
        from <= s@.len(),
    ensures
        match r {
            Some(p) => {
                &&& p == from + lit@.len()
                &&& p <= s@.len()
                &&& s@.skip(from as int).len() >= lit@.len()
                &&& s@.skip(from as int).take(lit@.len() as int) == lit@
            },
            None => !(s@.skip(from as int).len() >= lit@.len() && s@.skip(from as int).take(
                lit@.len() as int,
            ) == lit@),
        },
{
    if lit.len() > s.len() - from {
        proof {
            assert(s@.skip(from as int).len() < lit@.len());
        }
        return None;
    }
    let ok = crate::text::matches_prefix_at(s, lit, from);
    proof {
        let tail = s@.skip(from as int);
        if matches_at(s@, lit@, from as int) {
            assert(tail.take(lit@.len() as int) =~= lit@);
        } else {
            if tail.take(lit@.len() as int) == lit@ {
                assert(matches_at(s@, lit@, from as int)) by {
                    assert(forall|j: int|
                        0 <= j < lit@.len() ==> s@[from + j] == #[trigger] tail.take(
                            lit@.len() as int,
                        )[j]);
                }
            }
        }
    }
    if ok {
        Some(from + lit.len())
    } else {
        None
    }
}

/// Parse a persisted session record of this library's shape.
pub fn parse_session_file(text: &str) -> (r: Option<SessionFileData>)
    ensures
        match r {
            Some(d) => spec_parse_session(text@) == Some(
                (d.provider@, d.session_id@, d.saved_at@, d.working_dir@),
            ),
            None => spec_parse_session(text@) is None,
        },
{
    let s = str_chars(text);
    let h1 = str_chars("{\"provider\":\"");
    let h2 = str_chars(",\"session_id\":\"");
    let h3 = str_chars(",\"saved_at\":\"");
    let h4 = str_chars(",\"working_dir\":\"");
    let closing = str_chars("}");
    proof {
        assert(s@.skip(0) =~= s@);
    }
    let p0 = match expect_lit(&s, 0, &h1) {
        Some(p) => p,
        None => {
            proof {
                assert(s@.take(h1@.len() as int) =~= s@.skip(0).take(h1@.len() as int));
            }
            return None;
        },
    };
    proof {
        assert(s@.take(h1@.len() as int) =~= s@.skip(0).take(h1@.len() as int));
    }
    let (provider, p1) = match junread_exec(&s, p0) {
        Some(p) => p,
        None => {
            return None;
        },
    };
    let p2 = match expect_lit(&s, p1, &h2) {
        Some(p) => p,
        None => {
            return None;
        },
    };
    proof {
        assert(s@.skip(p1 as int).skip(h2@.len() as int) =~= s@.skip(p2 as int));
    }
    let (session_id, p3) = match junread_exec(&s, p2) {
        Some(p) => p,
        None => {
            return None;
        },
    };
    let p4 = match expect_lit(&s, p3, &h3) {
        Some(p) => p,
        None => {
            return None;
        },
    };
    proof {
        assert(s@.skip(p3 as int).skip(h3@.len() as int) =~= s@.skip(p4 as int));
    }
    let (saved_at, p5) = match junread_exec(&s, p4) {
        Some(p) => p,
        None => {
            return None;
        },
    };
    let p6 = match expect_lit(&s, p5, &h4) {
        Some(p) => p,
        None => {
            return None;
        },
    };
    proof {
        assert(s@.skip(p5 as int).skip(h4@.len() as int) =~= s@.skip(p6 as int));
    }
    let (working_dir, p7) = match junread_exec(&s, p6) {
        Some(p) => p,
        None => {
            return None;
        },
    };
    let rest_ok = p7 < s.len() && s.len() - p7 == 1 && s[p7] == '}';
    proof {
        if rest_ok {
            assert(s@.skip(p7 as int) =~= "}"@) by {
                reveal_strlit("}");
                assert(s@.skip(p7 as int).len() == 1);
                assert(s@.skip(p7 as int)[0] == s@[p7 as int]);
            }
        } else {
            reveal_strlit("}");
            if s@.skip(p7 as int) == "}"@ {
                assert(s@.skip(p7 as int).len() == 1);
                assert(s@[p7 as int] == s@.skip(p7 as int)[0]);
            }
        }
    }
    if !rest_ok {
        return None;
    }
    Some(
        SessionFileData {
            provider: chars_string(&provider),
            session_id: chars_string(&session_id),
            saved_at: chars_string(&saved_at),
            working_dir: chars_string(&working_dir),
        },
    )
}

/// Persisting a session record and parsing it back yields the same
/// four fields.
pub proof fn lemma_session_round_trip(p: Seq<char>, id: Seq<char>, at: Seq<char>, wd: Seq<char>)
    ensures
        spec_parse_session(spec_emit_session(p, id, at, wd)) == Some((p, id, at, wd)),
{
    let h1 = "{\"provider\":\""@;
    let h2 = ",\"session_id\":\""@;
    let h3 = ",\"saved_at\":\""@;
    let h4 = ",\"working_dir\":\""@;
    let s = spec_emit_session(p, id, at, wd);
    let r1 = jesc(id) + "\",\"saved_at\":\""@ + jesc(at) + "\",\"working_dir\":\""@ + jesc(wd)
        + "\"}"@;
    let r2 = jesc(at) + "\",\"working_dir\":\""@ + jesc(wd) + "\"}"@;
    let r3 = jesc(wd) + "\"}"@;
    reveal_strlit("{\"provider\":\"");
    reveal_strlit("\",\"session_id\":\"");
    reveal_strlit(",\"session_id\":\"");
    reveal_strlit("\",\"saved_at\":\"");
    reveal_strlit(",\"saved_at\":\"");
    reveal_strlit("\",\"working_dir\":\"");
    reveal_strlit(",\"working_dir\":\"");
    reveal_strlit("\"}");
    reveal_strlit("}");
    assert(s.take(h1.len() as int) =~= h1);
    assert(s.skip(h1.len() as int) =~= jesc(p) + seq!['"'] + (h2 + r1)) by {
        assert("\",\"session_id\":\""@ =~= seq!['"'] + h2);
    }
    lemma_junread_of_jesc(p, h2 + r1);
    let t1 = h2 + r1;
    assert(t1.take(h2.len() as int) =~= h2);
    assert(t1.skip(h2.len() as int) =~= jesc(id) + seq!['"'] + (h3 + r2)) by {
        assert("\",\"saved_at\":\""@ =~= seq!['"'] + h3);
    }
    lemma_junread_of_jesc(id, h3 + r2);
    let t2 = h3 + r2;
    assert(t2.take(h3.len() as int) =~= h3);
    assert(t2.skip(h3.len() as int) =~= jesc(at) + seq!['"'] + (h4 + r3)) by {
        assert("\",\"working_dir\":\""@ =~= seq!['"'] + h4);
    }
    lemma_junread_of_jesc(at, h4 + r3);
    let t3 = h4 + r3;
    assert(t3.take(h4.len() as int) =~= h4);
    assert(t3.skip(h4.len() as int) =~= jesc(wd) + seq!['"'] + "}"@) by {
        assert("\"}"@ =~= seq!['"'] + "}"@);
    }
    lemma_junread_of_jesc(wd, "}"@);
}

/// The in-memory session state the orchestrator guards with its lock.
#[derive(Clone, Debug)]
pub struct SessionState {
    pub session: Option<SessionRef>,
    pub is_running: bool,
    pub stop_requested: bool,
    pub interrupted_by_new_message: bool,
    pub last_message: Option<String>,
    pub session_start_time: Option<String>,
    pub total_input_tokens: u64,
    pub total_output_tokens: u64,
    pub total_cache_read_tokens: u64,
    pub total_cache_create_tokens: u64,
    pub total_queries: u64,
    pub last_usage: Option<TokenUsage>,
}

/// A snapshot of the session state for `/stats`.
#[derive(Clone, Debug)]
pub struct SessionStats {
    pub session: Option<SessionRef>,
    pub is_running: bool,
    pub last_message: Option<String>,
    pub session_start_time: Option<String>,
    pub total_input_tokens: u64,
    pub total_output_tokens: u64,
    pub total_cache_read_tokens: u64,
    pub total_cache_create_tokens: u64,
    pub total_queries: u64,
    pub last_usage: Option<TokenUsage>,
}

impl SessionState {
    /// A fresh, idle session.
    pub fn new_idle() -> (r: SessionState)
        ensures
            r.session is None,
            !r.is_running,
            !r.stop_requested,
            !r.interrupted_by_new_message,
            r.total_queries == 0,
    {
        SessionState {
            session: None,
            is_running: false,
            stop_requested: false,
            interrupted_by_new_message: false,
            last_message: None,
            session_start_time: None,
            total_input_tokens: 0,
            total_output_tokens: 0,
            total_cache_read_tokens: 0,
            total_cache_create_tokens: 0,
            total_queries: 0,
            last_usage: None,
        }
    }

    /// Mark that a new message interrupted the run.
    pub fn mark_interrupt(&mut self)
        ensures
            *final(self) == (SessionState { interrupted_by_new_message: true, ..*old(self) }),
    {
        self.interrupted_by_new_message = true;
    }

    /// Clear the stop flag without consuming the interrupt marker, so
    /// the next run may proceed while the stop notice stays quiet.
    pub fn clear_stop_requested(&mut self)
        ensures
            *final(self) == (SessionState { stop_requested: false, ..*old(self) }),
    {
        self.stop_requested = false;
    }

    /// Return and clear the interrupt marker; consuming it also clears
    /// the stop flag.
    pub fn consume_interrupt_flag(&mut self) -> (r: bool)
        ensures
            r == old(self).interrupted_by_new_message,
            !final(self).interrupted_by_new_message,
            r ==> !final(self).stop_requested,
            !r ==> final(self).stop_requested == old(self).stop_requested,
    {
        let was = self.interrupted_by_new_message;
        self.interrupted_by_new_message = false;
        if was {
            self.stop_requested = false;
        }
        was
    }

    /// Request a stop of the running turn.  Returns whether a run was
    /// in flight (and must now be cancelled by the caller).
    pub fn request_stop(&mut self) -> (r: bool)
        ensures
            r == old(self).is_running,
            r ==> final(self).stop_requested,
            !r ==> *final(self) == *old(self),
    {
        if !self.is_running {
            return false;
        }
        self.stop_requested = true;
        true
    }

    /// Accumulate one completed run's usage into the totals.
    pub fn accumulate_usage(&mut self, u: &TokenUsage, now_iso: &str)
        requires
            old(self).total_input_tokens + u.input_tokens <= u64::MAX,
            old(self).total_output_tokens + u.output_tokens <= u64::MAX,
            old(self).total_cache_read_tokens + u.cache_read_input_tokens <= u64::MAX,
            old(self).total_cache_create_tokens + u.cache_creation_input_tokens <= u64::MAX,
            old(self).total_queries < u64::MAX,
        ensures
            final(self).total_input_tokens == old(self).total_input_tokens + u.input_tokens,
            final(self).total_output_tokens == old(self).total_output_tokens + u.output_tokens,
            final(self).total_cache_read_tokens == old(self).total_cache_read_tokens
                + u.cache_read_input_tokens,
            final(self).total_cache_create_tokens == old(self).total_cache_create_tokens
                + u.cache_creation_input_tokens,
            final(self).total_queries == old(self).total_queries + 1,
            final(self).last_usage is Some,
            old(self).session_start_time is Some ==> final(self).session_start_time == old(
                self,
            ).session_start_time,
            old(self).session_start_time is None ==> (final(self).session_start_time matches Some(
                t,
            ) && t@ == now_iso@),
    {
        if self.session_start_time.is_none() {
            let c = str_chars(now_iso);
            self.session_start_time = Some(chars_string(&c));
        }
        self.total_input_tokens = self.total_input_tokens + u.input_tokens;
        self.total_output_tokens = self.total_output_tokens + u.output_tokens;
        self.total_cache_read_tokens = self.total_cache_read_tokens + u.cache_read_input_tokens;
        self.total_cache_create_tokens = self.total_cache_create_tokens
            + u.cache_creation_input_tokens;
        self.total_queries = self.total_queries + 1;
        self.last_usage = Some(
            TokenUsage {
                input_tokens: u.input_tokens,
                output_tokens: u.output_tokens,
                cache_read_input_tokens: u.cache_read_input_tokens,
                cache_creation_input_tokens: u.cache_creation_input_tokens,
            },
        );
    }

    /// Adopt a loaded session record if its working directory matches.
    /// Returns whether the session was adopted.
    pub fn resume_from(&mut self, data: &SessionFileData, working_dir: &str) -> (r: bool)
        ensures
            r == (data.working_dir@ == working_dir@),
            r ==> (final(self).session matches Some(s) && s.provider == ProviderKind::ClaudeCli
                && s.id@ == data.session_id@),
            !r ==> *final(self) == *old(self),
    {
        let dc = str_chars(data.working_dir.as_str());
        let wc = str_chars(working_dir);
        if !crate::text::chars_eq(&dc, &wc) {
            return false;
        }
        let idc = str_chars(data.session_id.as_str());
        self.session = Some(
            SessionRef { provider: ProviderKind::ClaudeCli, id: chars_string(&idc) },
        );
        true
    }
}

/// The thinking-token budget for a prompt: a deep keyword demands the
/// large budget, a normal keyword the medium one, else the default.
pub open spec fn spec_thinking_tokens(
    lower_prompt: Seq<char>,
    deep: Seq<Seq<char>>,
    normal: Seq<Seq<char>>,
    default: u32,
) -> u32 {
    if exists|i: int|
        0 <= i < deep.len() && (#[trigger] deep[i]).len() > 0 && contains_seq(
            lower_prompt,
            deep[i],
        ) {
        50000
    } else if exists|i: int|
        0 <= i < normal.len() && (#[trigger] normal[i]).len() > 0 && contains_seq(
            lower_prompt,
            normal[i],
        ) {
        10000
    } else {
        default
    }
}

/// Select the thinking-token budget from the prompt's keywords.
pub fn thinking_tokens_for_prompt(cfg: &crate::config::Config, prompt: &str) -> (r: u32)
    ensures
        r == spec_thinking_tokens(
            lower_of(prompt@),
            cfg.thinking_deep_keywords@.map_values(|k: String| k@),
            cfg.thinking_keywords@.map_values(|k: String| k@),
            cfg.default_thinking_tokens,
        ),
{
    let lower = crate::text::to_lowercase(prompt);
    let lc = str_chars(lower.as_str());
    let ghost gdeep = cfg.thinking_deep_keywords@.map_values(|k: String| k@);
    let ghost gnorm = cfg.thinking_keywords@.map_values(|k: String| k@);
    let mut i: usize = 0;
    while i < cfg.thinking_deep_keywords.len()
        invariant
            i <= gdeep.len(),
            gdeep == cfg.thinking_deep_keywords@.map_values(|k: String| k@),
            lc@ == lower_of(prompt@),
            forall|k: int|
                0 <= k < i ==> !((#[trigger] gdeep[k]).len() > 0 && contains_seq(
                    lower_of(prompt@),
                    gdeep[k],
                )),
        decreases gdeep.len() - i,
    {
        let kc = str_chars(cfg.thinking_deep_keywords[i].as_str());
        if kc.len() > 0 && crate::text::contains_chars(&lc, &kc) {
            proof {
                assert((#[trigger] gdeep[i as int]).len() > 0 && contains_seq(
                    lower_of(prompt@),
                    gdeep[i as int],
                ));
            }
            return 50000;
        }
        i += 1;
    }
    let mut j: usize = 0;
    while j < cfg.thinking_keywords.len()
        invariant
            j <= gnorm.len(),
            gnorm == cfg.thinking_keywords@.map_values(|k: String| k@),
            gdeep == cfg.thinking_deep_keywords@.map_values(|k: String| k@),
            lc@ == lower_of(prompt@),
            forall|k: int|
                0 <= k < gdeep.len() ==> !((#[trigger] gdeep[k]).len() > 0 && contains_seq(
                    lower_of(prompt@),
                    gdeep[k],
                )),
            forall|k: int|
                0 <= k < j ==> !((#[trigger] gnorm[k]).len() > 0 && contains_seq(
                    lower_of(prompt@),
                    gnorm[k],
                )),
        decreases gnorm.len() - j,
    {
        let kc = str_chars(cfg.thinking_keywords[j].as_str());
        if kc.len() > 0 && crate::text::contains_chars(&lc, &kc) {
            proof {
                assert((#[trigger] gnorm[j as int]).len() > 0 && contains_seq(
                    lower_of(prompt@),
                    gnorm[j as int],
                ));
            }
            return 10000;
        }
        j += 1;
    }
    cfg.default_thinking_tokens
}

/// A valid save id: eight digits, an underscore, six digits.
pub open spec fn spec_valid_save_id(s: Seq<char>) -> bool {
    &&& s.len() == 15
    &&& s[8] == '_'
    &&& forall|k: int| 0 <= k < 8 ==> is_digit(s[k])
    &&& forall|k: int| 9 <= k < 15 ==> is_digit(s[k])
}

/// Check the fifteen-character save-id shape.
pub fn is_valid_save_id(s: &str) -> (r: bool)
    ensures
        r == spec_valid_save_id(s@),
{
    let cs = str_chars(s);
    if cs.len() != 15 {
        return false;
    }
    if cs[8] != '_' {
        return false;
    }
    let mut k: usize = 0;
    while k < 8
        invariant
            k <= 8,
            cs@ == s@,
            cs@.len() == 15,
            forall|j: int| 0 <= j < k ==> is_digit(s@[j]),
        decreases 8 - k,
    {
        let c = cs[k];
        if c < '0' || c > '9' {
            return false;
        }
        k += 1;
    }
    let mut k2: usize = 9;
    while k2 < 15
        invariant
            9 <= k2 <= 15,
            cs@ == s@,
            cs@.len() == 15,
            cs@[8] == '_',
            forall|j: int| 0 <= j < 8 ==> is_digit(s@[j]),
            forall|j: int| 9 <= j < k2 ==> is_digit(s@[j]),
        decreases 15 - k2,
    {
        let c = cs[k2];
        if c < '0' || c > '9' {
            return false;
        }
        k2 += 1;
    }
    true
}

/// Find a save id after one of the save-path markers in a response.
pub fn parse_save_id(text: &str) -> (r: Option<String>)
    ensures
        r matches Some(id) ==> spec_valid_save_id(id@),
{
    let cs = str_chars(text);
    let m1 = str_chars("/docs/tasks/save/");
    let m2 = str_chars("docs/tasks/save/");
    proof {
        reveal_strlit("/docs/tasks/save/");
        reveal_strlit("docs/tasks/save/");
    }
    let n = cs.len();
    let mut mi: usize = 0;
    while mi < 2
        invariant
            m1@.len() == 17,
            m2@.len() == 16,
            cs@.len() == n,
        decreases 2 - mi,
    {
        let marker = if mi == 0 {
            &m1
        } else {
            &m2
        };
        match crate::text::find_from(&cs, marker, 0) {
            Some(at) => {
                let start = at + marker.len();
                let upto = if cs.len() - start >= 15 {
                    start + 15
                } else {
                    cs.len()
                };
                let mut cand: Vec<char> = Vec::new();
                crate::text::push_range(&mut cand, &cs, start, upto);
                let cstr = chars_string(&cand);
                if is_valid_save_id(cstr.as_str()) {
                    return Some(cstr);
                }
            },
            None => {},
        }
        mi += 1;
    }
    None
}

/// The restart marker a `/restart` writes before the process exits.
#[derive(Clone, Copy, Debug, PartialEq, Eq, Structural)]
pub struct RestartMarker {
    pub chat_id: i64,
    pub message_id: i32,
    pub timestamp_ms: u64,
}

/// At startup, edit the waiting restart message only when the marker
/// is fresh: younger than thirty seconds.
pub fn restart_edit_decision(now_ms: u64, marker: Option<&RestartMarker>) -> (r: Option<
    (crate::domain::ChatId, crate::domain::MessageId),
>)
    ensures
        r is Some <==> (marker matches Some(m) && now_ms >= m.timestamp_ms && now_ms
            - m.timestamp_ms < 30000),
        marker matches Some(m) ==> (r matches Some(ids) ==> ids.0.0 == m.chat_id && ids.1.0
            == m.message_id),
{
    let m = match marker {
        Some(m) => m,
        None => {
            return None;
        },
    };
    if now_ms >= m.timestamp_ms && now_ms - m.timestamp_ms < 30000 {
        Some((crate::domain::ChatId(m.chat_id), crate::domain::MessageId(m.message_id)))
    } else {
        None
    }
}

/// The confirmation edited into the restart message.
pub fn restarted_reply() -> (r: String)
    ensures
        r@ == "\u{2705} Bot restarted"@,
{
    let c = str_chars("\u{2705} Bot restarted");
    chars_string(&c)
}

/// A provider-crash error message, eligible for one retry.
pub fn is_claude_crash(e: &Error) -> (r: bool)
{
    match e {
        Error::External(s) => {
            let sc = str_chars(s.as_str());
            let a = str_chars("exited with status");
            let b = str_chars("exited with code");
            proof {
                reveal_strlit("exited with status");
                reveal_strlit("exited with code");
            }
            crate::text::contains_chars(&sc, &a) || crate::text::contains_chars(&sc, &b)
        },
        _ => false,
    }
}

/// A cancellation-shaped error message, suppressed as noise.
pub fn is_cancel_error(e: &Error) -> (r: bool)
{
    match e {
        Error::External(s) => {
            let lower = crate::text::to_lowercase(s.as_str());
            let lc = str_chars(lower.as_str());
            let a = str_chars("cancel");
            let b = str_chars("abort");
            proof {
                reveal_strlit("cancel");
                reveal_strlit("abort");
            }
            crate::text::contains_chars(&lc, &a) || crate::text::contains_chars(&lc, &b)
        },
        _ => false,
    }
}

} // verus!
