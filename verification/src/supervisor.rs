//! Subprocess supervisor state: the stderr tail ring and the child
//! lifecycle transitions.
//!
//! The process itself is spawned and killed by the caller; the
//! transitions here decide what each outcome does to the supervisor's
//! state, so that every path out of a cancellation leaves no live
//! child behind.

use vstd::prelude::*;

use crate::errors::Error;
use crate::text::join_with;

verus! {

/// Most lines the stderr tail keeps.
pub open spec fn tail_max_lines() -> int {
    200
}

/// Most characters the stderr tail keeps, counting one per joining
/// newline.
pub open spec fn tail_max_bytes() -> int {
    16384
}

/// A bounded ring of the most recent stderr lines.
#[derive(Clone, Debug)]
pub struct StderrTail {
    pub lines: Vec<String>,
    pub bytes: usize,
}

/// The character sequences of a line list.
pub open spec fn lines_view(lines: Seq<String>) -> Seq<Seq<char>> {
    lines.map_values(|l: String| l@)
}

/// The cost of the kept lines: each line's length plus its newline.
pub open spec fn tail_cost(lines: Seq<Seq<char>>) -> int
    decreases lines.len(),
{
    if lines.len() == 0 {
        0
    } else {
        tail_cost(lines.drop_last()) + lines.last().len() + 1
    }
}

impl StderrTail {
    /// The tracked size matches the lines, and both bounds hold.
    pub open spec fn wf(&self) -> bool {
        &&& self.bytes == tail_cost(self.lines@.map_values(|l: String| l@))
        &&& self.lines@.len() <= tail_max_lines()
        &&& self.bytes <= tail_max_bytes()
    }

    /// An empty tail.
    pub fn new_empty() -> (r: StderrTail)
        ensures
            r.wf(),
            r.lines@.len() == 0,
    {
        let t = StderrTail { lines: Vec::new(), bytes: 0 };
        proof {
            assert(t.lines@.map_values(|l: String| l@) =~= Seq::<Seq<char>>::empty());
        }
        t
    }

    /// Keep a line, evicting the oldest lines until the ring is back
    /// within its line and size bounds: afterwards the kept lines are a
    /// suffix of the old lines with the new one appended, so eviction
    /// only ever drops from the front.
    pub fn push_line(&mut self, line: String)
        requires
            old(self).wf(),
            line@.len() <= 100000,
        ensures
            final(self).wf(),
            exists|k: int|
                0 <= k <= old(self).lines@.len() + 1 && lines_view(final(self).lines@)
                    == #[trigger] lines_view(old(self).lines@).push(line@).skip(k),
    {
        let ghost gline = line@;
        let ghost pushed = self.lines@.map_values(|l: String| l@).push(gline);
        let added = crate::text::str_chars(line.as_str()).len();
        proof {
            let old_map = self.lines@.map_values(|l: String| l@);
            assert(self.lines@.push(line).map_values(|l: String| l@) =~= old_map.push(gline));
            assert(tail_cost(old_map.push(gline)) == tail_cost(old_map) + gline.len() + 1) by {
                assert(old_map.push(gline).drop_last() =~= old_map);
            }
        }
        self.lines.push(line);
        self.bytes = self.bytes + added + 1;
        let ghost mut dropped: int = 0;
        proof {
            assert(pushed.skip(0) =~= pushed);
        }
        while self.lines.len() > 200 || self.bytes > 16384
            invariant
                self.bytes == tail_cost(self.lines@.map_values(|l: String| l@)),
                0 <= dropped <= pushed.len(),
                self.lines@.map_values(|l: String| l@) == pushed.skip(dropped),
            ensures
                self.bytes == tail_cost(self.lines@.map_values(|l: String| l@)),
                self.lines@.len() <= 200,
                self.bytes <= 16384,
                0 <= dropped <= pushed.len(),
                self.lines@.map_values(|l: String| l@) == pushed.skip(dropped),
            decreases self.lines@.len(),
        {
            if self.lines.len() == 0 {
                // Unreachable: an empty ring costs nothing.
                proof {
                    assert(self.lines@.map_values(|l: String| l@) =~= Seq::<Seq<char>>::empty());
                }
                break ;
            }
            let ghost pre = self.lines@.map_values(|l: String| l@);
            let front = self.lines.remove(0);
            let flen = crate::text::str_chars(front.as_str()).len();
            proof {
                lemma_tail_cost_drop_first(pre);
                assert(self.lines@.map_values(|l: String| l@) =~= pre.drop_first());
                lemma_tail_cost_nonneg(pre.drop_first());
                assert(pre.drop_first() =~= pushed.skip(dropped + 1));
                dropped = dropped + 1;
            }
            self.bytes = self.bytes - (flen + 1);
        }
        proof {
            assert(pushed == lines_view(old(self).lines@).push(line@));
            assert(lines_view(self.lines@) == lines_view(old(self).lines@).push(line@).skip(
                dropped,
            ));
        }
    }

    /// The kept lines joined by newlines.
    pub fn snapshot(&self) -> (r: String)
        ensures
            r@ == join_with(self.lines@.map_values(|l: String| l@), seq!['\n']),
    {
        let mut parts: Vec<Vec<char>> = Vec::new();
        let mut i: usize = 0;
        while i < self.lines.len()
            invariant
                i <= self.lines@.len(),
                parts@.map_values(|p: Vec<char>| p@) == self.lines@.map_values(
                    |l: String| l@,
                ).take(i as int),
            decreases self.lines@.len() - i,
        {
            let ghost prev = parts@.map_values(|p: Vec<char>| p@);
            let c = crate::text::str_chars(self.lines[i].as_str());
            parts.push(c);
            proof {
                assert(parts@.map_values(|p: Vec<char>| p@) =~= prev.push(
                    self.lines@[i as int]@,
                ));
                assert(self.lines@.map_values(|l: String| l@).take(i + 1) =~= self.lines@.map_values(
                    |l: String| l@,
                ).take(i as int).push(self.lines@[i as int]@));
            }
            i += 1;
        }
        proof {
            let all = self.lines@.map_values(|l: String| l@);
            assert(all.take(all.len() as int) =~= all);
        }
        let mut nl: Vec<char> = Vec::new();
        nl.push('\n');
        assert(nl@ =~= seq!['\n']);
        let joined = crate::text::join_chars(&parts, &nl);
        crate::text::chars_string(&joined)
    }
}

proof fn lemma_tail_cost_nonneg(lines: Seq<Seq<char>>)
    ensures
        tail_cost(lines) >= 0,
    decreases lines.len(),
{
    if lines.len() > 0 {
        lemma_tail_cost_nonneg(lines.drop_last());
    }
}

proof fn lemma_tail_cost_drop_first(lines: Seq<Seq<char>>)
    requires
        lines.len() > 0,
    ensures
        tail_cost(lines) == tail_cost(lines.drop_first()) + lines[0].len() + 1,
    decreases lines.len(),
{
    if lines.len() == 1 {
        assert(lines.drop_last() =~= Seq::<Seq<char>>::empty());
        assert(lines.drop_first() =~= Seq::<Seq<char>>::empty());
    } else {
        lemma_tail_cost_drop_first(lines.drop_last());
        assert(lines.drop_last().drop_first() =~= lines.drop_first().drop_last());
        assert(lines.drop_first().last() == lines.last());
        assert(lines.drop_last()[0] == lines[0]);
    }
}

/// What a finished run captured along the way.
pub struct CapturedRun {
    pub session: Option<crate::model_types::SessionRef>,
    pub final_text: Option<String>,
    pub final_is_error: Option<bool>,
    pub usage: Option<crate::model_types::TokenUsage>,
}

/// Assemble the final run outcome: success when the process exited
/// cleanly or any result text was captured; otherwise an error that
/// embeds the exit status text and, when present, the stderr tail.
/// `is_error` defaults to the process failing when no result event
/// said otherwise.
pub fn assemble_run_result(
    exit_success: bool,
    status_text: &str,
    captured: CapturedRun,
    stderr_tail: &str,
) -> (r: Result<crate::model_types::RunResult, Error>)
    ensures
        (exit_success || captured.final_text is Some) <==> r is Ok,
        r matches Ok(res) ==> {
            &&& res.session == captured.session
            &&& res.is_error == (match captured.final_is_error {
                Some(b) => b,
                None => !exit_success,
            })
            &&& res.text@ == (match captured.final_text {
                Some(t) => t@,
                None => Seq::<char>::empty(),
            })
            &&& res.usage == captured.usage
        },
        r matches Err(e) ==> (e matches Error::External(m) && (crate::text::trim(
            stderr_tail@,
        ).len() > 0 ==> m@ == "assistant exited with status "@ + status_text@
            + "\nstderr (tail):\n"@ + stderr_tail@) && (crate::text::trim(stderr_tail@).len()
            == 0 ==> m@ == "assistant exited with status "@ + status_text@)),
{
    let has_text = captured.final_text.is_some();
    if !exit_success && !has_text {
        let mut msg: Vec<char> = crate::text::str_chars("assistant exited with status ");
        let sc = crate::text::str_chars(status_text);
        crate::text::push_all(&mut msg, &sc);
        let tc = crate::text::str_chars(stderr_tail);
        let tt = crate::text::trim_chars(&tc);
        if tt.len() > 0 {
            let sep = crate::text::str_chars("\nstderr (tail):\n");
            crate::text::push_all(&mut msg, &sep);
            crate::text::push_all(&mut msg, &tc);
            proof {
                assert(msg@ =~= "assistant exited with status "@ + status_text@
                    + "\nstderr (tail):\n"@ + stderr_tail@);
            }
        } else {
            proof {
                assert(msg@ =~= "assistant exited with status "@ + status_text@);
            }
        }
        return Err(Error::External(crate::text::chars_string(&msg)));
    }
    let is_error = match captured.final_is_error {
        Some(b) => b,
        None => !exit_success,
    };
    let text = match captured.final_text {
        Some(t) => t,
        None => String::new(),
    };
    Ok(
        crate::model_types::RunResult {
            session: captured.session,
            is_error,
            text,
            usage: captured.usage,
        },
    )
}

/// What a kill attempt found and did, as the caller reports it.
#[derive(Clone, Copy, Debug, PartialEq, Eq, Structural)]
pub enum KillOutcome {
    /// The child had already exited; the wait reaped it.
    AlreadyExited,
    /// The kill succeeded and the child was reaped.
    Killed,
    /// The kill failed and the child is still alive.
    KillFailedStillAlive,
    /// The kill failed but the child exited in between.
    KillFailedButExited,
}

/// The supervisor's lifecycle state: whether a child handle is held
/// and whether cancellation was signalled.
#[derive(Clone, Copy, Debug, PartialEq, Eq, Structural)]
pub struct SupervisorState {
    pub has_child: bool,
    pub cancel_signalled: bool,
}

impl SupervisorState {
    /// The idle supervisor.
    pub fn new_idle() -> (r: SupervisorState)
        ensures
            !r.has_child,
            !r.cancel_signalled,
    {
        SupervisorState { has_child: false, cancel_signalled: false }
    }

    /// Take ownership of a freshly spawned child.
    pub fn spawn(&mut self)
        requires
            !old(self).has_child,
        ensures
            final(self).has_child,
            final(self).cancel_signalled == old(self).cancel_signalled,
    {
        self.has_child = true;
    }

    /// Apply a kill attempt's outcome.  On success no child handle
    /// remains; on a failed kill with the child still alive the handle
    /// is kept so the caller can retry, and an error comes back.
    pub fn kill_child_step(&mut self, outcome: KillOutcome) -> (r: Result<(), Error>)
        ensures
            r is Ok ==> !final(self).has_child,
            r is Err ==> final(self).has_child && old(self).has_child,
            !old(self).has_child ==> r is Ok,
            final(self).cancel_signalled == old(self).cancel_signalled,
    {
        if !self.has_child {
            return Ok(());
        }
        match outcome {
            KillOutcome::AlreadyExited => {
                self.has_child = false;
                Ok(())
            },
            KillOutcome::Killed => {
                self.has_child = false;
                Ok(())
            },
            KillOutcome::KillFailedButExited => {
                self.has_child = false;
                Ok(())
            },
            KillOutcome::KillFailedStillAlive => {
                // The handle stays so the caller can retry.
                Err(Error::Io(kill_failed_text()))
            },
        }
    }

    /// Cancel a run: signal the token, then kill and reap the child.
    /// Whenever this returns `Ok`, no child handle remains.
    pub fn cancel_step(&mut self, outcome: KillOutcome) -> (r: Result<(), Error>)
        ensures
            final(self).cancel_signalled,
            r is Ok ==> !final(self).has_child,
            r is Err ==> final(self).has_child && old(self).has_child,
    {
        self.cancel_signalled = true;
        self.kill_child_step(outcome)
    }
}

fn kill_failed_text() -> (r: String)
    ensures
        r@.len() > 0,
{
    let c = crate::text::str_chars("failed to kill assistant process");
    proof {
        reveal_strlit("failed to kill assistant process");
    }
    crate::text::chars_string(&c)
}

} // verus!
