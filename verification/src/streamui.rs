//! Streaming UI state machine: per-segment messages, throttled edits,
//! the progress spinner, and the done phase.
//!
//! The machine never talks to the chat itself: it hands back a list of
//! operations on locally numbered messages, and the caller performs
//! them, mapping local ids to real message references.

use std::collections::HashMap;

use vstd::prelude::*;

use crate::config::Config;
use crate::domain::ChatId;
use crate::formatting::spec_markdown_html;
use crate::utils::spec_truncate;

verus! {

broadcast use vstd::std_specs::hash::group_hash_axioms;

/// One outbound operation on a locally numbered message.
#[derive(Clone, Debug)]
pub enum MsgOp {
    SendHtml { local_id: u32, html: String },
    EditHtml { local_id: u32, html: String },
    DeleteMessage { local_id: u32 },
    SetReaction { local_id: u32, emoji: String },
    SendKeyboard { local_id: u32, html: String, keyboard: crate::messaging::InlineKeyboard },
    MarkAskUserSent { path: String, content: String },
}

/// The moment an event arrives: monotonic milliseconds plus the local
/// wall-clock rendered `hh:mm:ss` by the caller.
#[derive(Clone, Debug)]
pub struct ClockMark {
    pub now_ms: u64,
    pub now_hms: String,
}

/// The event kinds the streaming layer renders.
#[derive(Clone, Copy, Debug, PartialEq, Eq, Structural)]
pub enum StatusType {
    Thinking,
    Tool,
    Text,
    SegmentEnd,
    Done,
}

/// Per-turn streaming state.
#[derive(Debug)]
pub struct StreamingState {
    pub chat_id: ChatId,
    pub text_messages: HashMap<u32, u32>,
    pub thinking_messages: Vec<u32>,
    pub tool_messages: Vec<u32>,
    pub last_edit_times: HashMap<u32, u64>,
    pub last_content: HashMap<u32, String>,
    pub progress_message: Option<u32>,
    /// Segment ids in the order their messages were created; the
    /// pipeline numbers segments upward, so the last live entry is the
    /// highest.
    pub segment_order: Vec<u32>,
    pub started: bool,
    pub start_ms: u64,
    pub start_hms: String,
    pub frame_index: u64,
    pub next_local: u32,
}

/// Milliseconds since the older mark, clamped at zero.
pub open spec fn since(now: u64, then: u64) -> int {
    if now >= then {
        now - then
    } else {
        0
    }
}

/// The rendering of streamed text: truncated to the safe limit, then
/// converted to HTML.
pub open spec fn spec_stream_render(content: Seq<char>, safe_limit: int) -> Seq<char> {
    spec_markdown_html(spec_truncate(content, safe_limit))
}

impl StreamingState {
    /// A fresh per-turn state.
    pub fn new(chat_id: ChatId) -> (r: StreamingState)
        ensures
            r.chat_id == chat_id,
            !r.started,
            r.next_local == 0,
            r.text_messages@ == Map::<u32, u32>::empty(),
            r.last_content@ == Map::<u32, String>::empty(),
            r.last_edit_times@ == Map::<u32, u64>::empty(),
    {
        StreamingState {
            chat_id,
            text_messages: HashMap::new(),
            thinking_messages: Vec::new(),
            tool_messages: Vec::new(),
            last_edit_times: HashMap::new(),
            last_content: HashMap::new(),
            progress_message: None,
            segment_order: Vec::new(),
            started: false,
            start_ms: 0,
            start_hms: String::new(),
            frame_index: 0,
            next_local: 0,
        }
    }

    /// A segment that already has a message.
    pub open spec fn seg_known(&self, seg: u32) -> bool {
        self.text_messages@.contains_key(seg)
    }

    /// Allocate the next local message id.
    pub fn alloc_local(&mut self) -> (r: u32)
        ensures
            r == old(self).next_local,
            *final(self) == (StreamingState {
                next_local: (if old(self).next_local < u32::MAX {
                    (old(self).next_local + 1) as u32
                } else {
                    old(self).next_local
                }),
                ..*old(self)
            }),
    {
        let id = self.next_local;
        if self.next_local < u32::MAX {
            self.next_local = self.next_local + 1;
        }
        id
    }

    /// The spinner frame for the current index.
    fn spinner_frame(&self) -> (r: char) {
        let frames: [char; 10] = ['\u{280B}', '\u{2819}', '\u{2839}', '\u{2838}', '\u{283C}', '\u{2834}', '\u{2826}', '\u{2827}', '\u{2807}', '\u{280F}'];
        frames[(self.frame_index % 10) as usize]
    }

    /// The spinner text `<frame> Working... (m:ss)`.
    fn progress_text(&self, now_ms: u64) -> (r: String) {
        let elapsed_s = if now_ms >= self.start_ms {
            (now_ms - self.start_ms) / 1000
        } else {
            0
        };
        let el = crate::utils::format_elapsed(elapsed_s);
        let mut out: Vec<char> = Vec::new();
        out.push(self.spinner_frame());
        let lbl = crate::text::str_chars(" Working... (");
        crate::text::push_all(&mut out, &lbl);
        let ec = crate::text::str_chars(el.as_str());
        crate::text::push_all(&mut out, &ec);
        out.push(')');
        crate::text::chars_string(&out)
    }

    /// Delete the old spinner, if any, and send a fresh one below the
    /// latest content.
    fn recreate_progress(&mut self, ops: &mut Vec<MsgOp>, now_ms: u64)
        ensures
            final(self).text_messages@ == old(self).text_messages@,
            final(self).last_content@ == old(self).last_content@,
            final(self).last_edit_times@ == old(self).last_edit_times@,
            final(self).started == old(self).started,
            final(self).chat_id == old(self).chat_id,
            final(ops)@.len() >= old(ops)@.len(),
            forall|j: int| 0 <= j < old(ops)@.len() ==> final(ops)@[j] == old(ops)@[j],
    {
        match self.progress_message {
            Some(old_id) => {
                ops.push(MsgOp::DeleteMessage { local_id: old_id });
            },
            None => {},
        }
        let text = self.progress_text(now_ms);
        let id = self.alloc_local();
        ops.push(MsgOp::SendHtml { local_id: id, html: text });
        self.progress_message = Some(id);
    }

    /// Advance the spinner one frame and edit it in place; called from
    /// a one-second tick.
    pub fn tick_progress(&mut self, now_ms: u64) -> (r: Vec<MsgOp>)
        ensures
            final(self).text_messages@ == old(self).text_messages@,
            final(self).last_content@ == old(self).last_content@,
            final(self).last_edit_times@ == old(self).last_edit_times@,
    {
        let mut ops: Vec<MsgOp> = Vec::new();
        if !self.started {
            return ops;
        }
        let pid = match self.progress_message {
            Some(p) => p,
            None => {
                return ops;
            },
        };
        if self.frame_index < u64::MAX {
            self.frame_index = self.frame_index + 1;
        } else {
            self.frame_index = 0;
        }
        let text = self.progress_text(now_ms);
        ops.push(MsgOp::EditHtml { local_id: pid, html: text });
        ops
    }

    /// Feed one status event; the returned operations render it.
    ///
    /// For a `Text` event on a known segment, an edit happens only
    /// past the throttle window and only when the rendering changed;
    /// the rendered content recorded for the segment is always the
    /// markdown conversion of the truncated text.  A `SegmentEnd`
    /// whose rendering fits the hard limit leaves the segment's
    /// recorded content equal to the conversion of the full text.
    pub fn on_status_at(
        &mut self,
        cfg: &Config,
        status_type: StatusType,
        content: &str,
        segment_id: Option<u32>,
        clock: &ClockMark,
    ) -> (r: Vec<MsgOp>)
        ensures
            status_type == StatusType::Text && segment_id is Some ==> {
                let seg = segment_id->0;
                let rendered = spec_stream_render(
                    content@,
                    cfg.telegram_safe_limit as int,
                );
                &&& (!old(self).seg_known(seg) ==> {
                    &&& final(self).seg_known(seg)
                    &&& final(self).last_content@[seg]@ == rendered
                    &&& final(self).last_edit_times@[seg] == clock.now_ms
                })
                &&& (old(self).seg_known(seg) && old(self).last_edit_times@.contains_key(seg)
                    && since(clock.now_ms, old(self).last_edit_times@[seg])
                    <= cfg.streaming_throttle_ms ==> {
                    &&& final(self).last_content@ == old(self).last_content@
                    &&& final(self).last_edit_times@ == old(self).last_edit_times@
                    &&& (old(self).started ==> r@.len() == 0)
                })
                &&& (old(self).seg_known(seg) && (!old(self).last_edit_times@.contains_key(seg)
                    || since(clock.now_ms, old(self).last_edit_times@[seg])
                    > cfg.streaming_throttle_ms) ==> {
                    &&& (old(self).last_content@.contains_key(seg) && old(self).last_content@[seg]@ == rendered ==> (old(self).started ==> r@.len() == 0) && final(self).last_content@ == old(self).last_content@)
                    &&& (!(old(self).last_content@.contains_key(seg) && old(self).last_content@[seg]@ == rendered) ==> final(self).last_content@[seg]@
                        == rendered && final(self).last_edit_times@[seg] == clock.now_ms)
                })
            },
            status_type == StatusType::SegmentEnd && segment_id is Some && content@.len() > 0
                && old(self).seg_known(segment_id->0) && spec_markdown_html(content@).len()
                <= cfg.telegram_message_limit ==> final(self).last_content@[segment_id->0]@
                == spec_markdown_html(content@),
            status_type == StatusType::Tool ==> exists|j: int|
                0 <= j < r@.len() && ((#[trigger] r@[j]) matches MsgOp::SendHtml{ html, .. }
                    && html@ == content@),
    {
        let mut ops: Vec<MsgOp> = Vec::new();
        if !self.started {
            self.started = true;
            self.start_ms = clock.now_ms;
            let mut hms: Vec<char> = crate::text::str_chars(clock.now_hms.as_str());
            self.start_hms = crate::text::chars_string(&hms);
            self.recreate_progress(&mut ops, clock.now_ms);
        }
        match status_type {
            StatusType::Thinking => {
                let preview = crate::utils::truncate_with_ellipsis(content, 500);
                let esc = crate::formatting::escape_html(preview.as_str());
                let mut html: Vec<char> = Vec::new();
                html.push('\u{1F9E0}');
                html.push(' ');
                let iopen = crate::text::str_chars("<i>");
                crate::text::push_all(&mut html, &iopen);
                let ec = crate::text::str_chars(esc.as_str());
                crate::text::push_all(&mut html, &ec);
                let iclose = crate::text::str_chars("</i>");
                crate::text::push_all(&mut html, &iclose);
                let id = self.alloc_local();
                ops.push(MsgOp::SendHtml { local_id: id, html: crate::text::chars_string(&html) });
                self.thinking_messages.push(id);
                self.recreate_progress(&mut ops, clock.now_ms);
            },
            StatusType::Tool => {
                let id = self.alloc_local();
                let copy = copy_str(content);
                let ghost at = ops@.len();
                ops.push(MsgOp::SendHtml { local_id: id, html: copy });
                proof {
                    assert(ops@[at as int] matches MsgOp::SendHtml{ html, .. } && html@
                        == content@);
                }
                self.tool_messages.push(id);
                self.recreate_progress(&mut ops, clock.now_ms);
                proof {
                    assert(ops@[at as int] matches MsgOp::SendHtml{ html, .. } && html@
                        == content@);
                }
            },
            StatusType::Text => {
                let seg = match segment_id {
                    Some(s) => s,
                    None => {
                        return ops;
                    },
                };
                self.handle_text_stream(cfg, &mut ops, seg, content, clock);
            },
            StatusType::SegmentEnd => {
                let seg = match segment_id {
                    Some(s) => s,
                    None => {
                        return ops;
                    },
                };
                self.handle_segment_end(cfg, &mut ops, seg, content, clock);
            },
            StatusType::Done => {
                self.handle_done(cfg, &mut ops, clock);
            },
        }
        ops
    }

    fn handle_text_stream(
        &mut self,
        cfg: &Config,
        ops: &mut Vec<MsgOp>,
        seg: u32,
        content: &str,
        clock: &ClockMark,
    )
        ensures
            ({
                let rendered = spec_stream_render(content@, cfg.telegram_safe_limit as int);
                &&& (!old(self).seg_known(seg) ==> {
                    &&& final(self).seg_known(seg)
                    &&& final(self).last_content@[seg]@ == rendered
                    &&& final(self).last_edit_times@[seg] == clock.now_ms
                })
                &&& (old(self).seg_known(seg) && old(self).last_edit_times@.contains_key(seg)
                    && since(clock.now_ms, old(self).last_edit_times@[seg])
                    <= cfg.streaming_throttle_ms ==> {
                    &&& final(self).last_content@ == old(self).last_content@
                    &&& final(self).last_edit_times@ == old(self).last_edit_times@
                    &&& final(ops)@ == old(ops)@
                })
                &&& (old(self).seg_known(seg) && (!old(self).last_edit_times@.contains_key(seg)
                    || since(clock.now_ms, old(self).last_edit_times@[seg])
                    > cfg.streaming_throttle_ms) ==> {
                    &&& (old(self).last_content@.contains_key(seg) && old(self).last_content@[seg]@ == rendered ==> final(ops)@ == old(ops)@ && final(self).last_content@ == old(self).last_content@)
                    &&& (!(old(self).last_content@.contains_key(seg) && old(self).last_content@[seg]@ == rendered) ==> final(self).last_content@[seg]@
                        == rendered && final(self).last_edit_times@[seg] == clock.now_ms)
                })
            }),
    {
        let known = self.text_messages.contains_key(&seg);
        let display = crate::utils::truncate_with_ellipsis(content, cfg.telegram_safe_limit);
        let formatted = crate::formatting::convert_markdown_to_html(display.as_str());
        if !known {
            let id = self.alloc_local();
            let html_copy = copy_str(formatted.as_str());
            ops.push(MsgOp::SendHtml { local_id: id, html: html_copy });
            self.text_messages.insert(seg, id);
            self.segment_order.push(seg);
            self.last_content.insert(seg, formatted);
            self.last_edit_times.insert(seg, clock.now_ms);
            self.recreate_progress(ops, clock.now_ms);
            return ;
        }
        match self.last_edit_times.get(&seg) {
            Some(last) => {
                let last_v = *last;
                let since_ms = if clock.now_ms >= last_v {
                    clock.now_ms - last_v
                } else {
                    0
                };
                if since_ms <= cfg.streaming_throttle_ms {
                    return ;
                }
            },
            None => {},
        }
        let unchanged = match self.last_content.get(&seg) {
            Some(prev) => crate::text::chars_eq(
                &crate::text::str_chars(prev.as_str()),
                &crate::text::str_chars(formatted.as_str()),
            ),
            None => false,
        };
        if unchanged {
            return ;
        }
        let id = match self.text_messages.get(&seg) {
            Some(i) => *i,
            None => {
                return ;
            },
        };
        let html_copy = copy_str(formatted.as_str());
        ops.push(MsgOp::EditHtml { local_id: id, html: html_copy });
        self.last_content.insert(seg, formatted);
        self.last_edit_times.insert(seg, clock.now_ms);
    }

    fn handle_segment_end(
        &mut self,
        cfg: &Config,
        ops: &mut Vec<MsgOp>,
        seg: u32,
        content: &str,
        clock: &ClockMark,
    )
        ensures
            content@.len() > 0 && old(self).seg_known(seg) && spec_markdown_html(content@).len()
                <= cfg.telegram_message_limit ==> final(self).last_content@[seg]@
                == spec_markdown_html(content@),
    {
        let cn = crate::text::str_chars(content);
        if cn.len() == 0 {
            return ;
        }
        let formatted = crate::formatting::convert_markdown_to_html(content);
        let known = self.text_messages.contains_key(&seg);
        if !known {
            let id = self.alloc_local();
            ops.push(MsgOp::SendHtml { local_id: id, html: formatted });
            self.text_messages.insert(seg, id);
            self.segment_order.push(seg);
            self.recreate_progress(ops, clock.now_ms);
            return ;
        }
        let unchanged = match self.last_content.get(&seg) {
            Some(prev) => crate::text::chars_eq(
                &crate::text::str_chars(prev.as_str()),
                &crate::text::str_chars(formatted.as_str()),
            ),
            None => false,
        };
        if unchanged {
            proof {
                assert(self.last_content@[seg]@ == formatted@);
            }
            return ;
        }
        let fc = crate::text::str_chars(formatted.as_str());
        if fc.len() <= cfg.telegram_message_limit {
            let id = match self.text_messages.get(&seg) {
                Some(i) => *i,
                None => {
                    return ;
                },
            };
            let html_copy = copy_str(formatted.as_str());
            ops.push(MsgOp::EditHtml { local_id: id, html: html_copy });
            self.last_content.insert(seg, formatted);
            return ;
        }
        // Too long: delete the original and resend as safe chunks.
        let id = match self.text_messages.get(&seg) {
            Some(i) => *i,
            None => {
                return ;
            },
        };
        ops.push(MsgOp::DeleteMessage { local_id: id });
        self.text_messages.remove(&seg);
        self.last_content.remove(&seg);
        self.last_edit_times.remove(&seg);
        let safe = if cfg.telegram_safe_limit >= 1 {
            cfg.telegram_safe_limit
        } else {
            1
        };
        let chunks = crate::utils::split_text(content, safe);
        let mut i: usize = 0;
        while i < chunks.len()
            decreases chunks@.len() - i,
        {
            let html = crate::formatting::convert_markdown_to_html(chunks[i].as_str());
            let cid = self.alloc_local();
            ops.push(MsgOp::SendHtml { local_id: cid, html });
            i += 1;
        }
        self.recreate_progress(ops, clock.now_ms);
    }

    fn handle_done(&mut self, cfg: &Config, ops: &mut Vec<MsgOp>, clock: &ClockMark)
    {
        if self.started {
            match self.progress_message {
                Some(pid) => {
                    let elapsed_s = if clock.now_ms >= self.start_ms {
                        (clock.now_ms - self.start_ms) / 1000
                    } else {
                        0
                    };
                    let el = crate::utils::format_elapsed(elapsed_s);
                    let mut txt: Vec<char> = Vec::new();
                    txt.push('\u{2705}');
                    let done_lbl = crate::text::str_chars(" Completed\n");
                    crate::text::push_all(&mut txt, &done_lbl);
                    txt.push('\u{23F0}');
                    txt.push(' ');
                    let sh = crate::text::str_chars(self.start_hms.as_str());
                    crate::text::push_all(&mut txt, &sh);
                    let arrow = crate::text::str_chars(" \u{2192} ");
                    crate::text::push_all(&mut txt, &arrow);
                    let eh = crate::text::str_chars(clock.now_hms.as_str());
                    crate::text::push_all(&mut txt, &eh);
                    let mut tail: Vec<char> = Vec::new();
                    tail.push(' ');
                    tail.push('(');
                    let ec = crate::text::str_chars(el.as_str());
                    crate::text::push_all(&mut tail, &ec);
                    tail.push(')');
                    crate::text::push_all(&mut txt, &tail);
                    ops.push(
                        MsgOp::EditHtml { local_id: pid, html: crate::text::chars_string(&txt) },
                    );
                },
                None => {},
            }
        }
        if cfg.delete_thinking_messages {
            let mut i: usize = 0;
            while i < self.thinking_messages.len()
                decreases self.thinking_messages@.len() - i,
            {
                ops.push(MsgOp::DeleteMessage { local_id: self.thinking_messages[i] });
                i += 1;
            }
        }
        if cfg.delete_tool_messages {
            let mut i: usize = 0;
            while i < self.tool_messages.len()
                decreases self.tool_messages@.len() - i,
            {
                ops.push(MsgOp::DeleteMessage { local_id: self.tool_messages[i] });
                i += 1;
            }
        }
        // React on the highest-numbered segment's live message: the
        // newest entry of the creation order that still has a message.
        let mut best: Option<(u32, u32)> = None;
        let mut i: usize = 0;
        while i < self.segment_order.len()
            invariant
                best matches Some(b) ==> self.text_messages@.contains_key(b.0) && b.1
                    == self.text_messages@[b.0],
            decreases self.segment_order@.len() - i,
        {
            let k = self.segment_order[i];
            match self.text_messages.get(&k) {
                Some(v) => {
                    let take = match best {
                        Some(b) => k > b.0,
                        None => true,
                    };
                    if take {
                        best = Some((k, *v));
                    }
                },
                None => {},
            }
            i += 1;
        }
        match best {
            Some(b) => {
                let mut emoji: Vec<char> = Vec::new();
                emoji.push('\u{1F44D}');
                ops.push(
                    MsgOp::SetReaction {
                        local_id: b.1,
                        emoji: crate::text::chars_string(&emoji),
                    },
                );
            },
            None => {},
        }
    }
}

/// A copied string.
fn copy_str(s: &str) -> (r: String)
    ensures
        r@ == s@,
{
    let c = crate::text::str_chars(s);
    crate::text::chars_string(&c)
}

} // verus!
