//! Outbound rate shaping: interval limiters and the silent cron port.

use vstd::prelude::*;

use crate::domain::ChatId;
use crate::domain::MessageId;
use crate::domain::MessageRef;

verus! {

/// Spacing configuration: a global floor between any two calls and a
/// per-chat floor.
#[derive(Clone, Copy, Debug)]
pub struct ThrottleConfig {
    pub global_min_interval_ms: u64,
    pub per_chat_min_interval_ms: u64,
}

impl ThrottleConfig {
    /// Conservative stock spacing: forty milliseconds globally, just
    /// over a second per chat.
    pub fn new_default() -> (r: ThrottleConfig)
        ensures
            r.global_min_interval_ms == 40,
            r.per_chat_min_interval_ms == 1050,
    {
        ThrottleConfig { global_min_interval_ms: 40, per_chat_min_interval_ms: 1050 }
    }
}

/// One interval limiter: the spacing and the next allowed slot.
#[derive(Clone, Copy, Debug)]
pub struct IntervalLimiter {
    pub interval_ms: u64,
    pub next_ms: u64,
}

/// The reservation rule: at or past the next slot, run now and move
/// the slot one interval ahead; before it, wait until the slot and
/// move the slot a further interval ahead.
pub open spec fn spec_reserve(l: IntervalLimiter, now_ms: int) -> (IntervalLimiter, int) {
    if now_ms >= l.next_ms {
        (IntervalLimiter { interval_ms: l.interval_ms, next_ms: (now_ms + l.interval_ms) as u64 }, 0)
    } else {
        (
            IntervalLimiter {
                interval_ms: l.interval_ms,
                next_ms: (l.next_ms + l.interval_ms) as u64,
            },
            l.next_ms - now_ms,
        )
    }
}

impl IntervalLimiter {
    /// A fresh limiter whose first call runs immediately.
    pub fn new(interval_ms: u64, now_ms: u64) -> (r: IntervalLimiter)
        ensures
            r.interval_ms == interval_ms,
            r.next_ms == now_ms,
    {
        IntervalLimiter { interval_ms, next_ms: now_ms }
    }

    /// Reserve the next slot; the result is how long to wait before
    /// performing the call.
    pub fn reserve_at(&mut self, now_ms: u64) -> (wait: u64)
        requires
            old(self).next_ms + old(self).interval_ms <= u64::MAX,
            now_ms + old(self).interval_ms <= u64::MAX,
        ensures
            (*final(self), wait as int) == spec_reserve(*old(self), now_ms as int),
    {
        if now_ms >= self.next_ms {
            self.next_ms = now_ms + self.interval_ms;
            0
        } else {
            let wait = self.next_ms - now_ms;
            self.next_ms = self.next_ms + self.interval_ms;
            wait
        }
    }
}

/// Two back-to-back reservations are spaced by at least the interval:
/// however soon the second call comes, its start time (arrival plus
/// wait) is at least one interval after the first call's start.
pub proof fn lemma_reserve_paces(l0: IntervalLimiter, t1: int, t2: int)
    requires
        t1 >= l0.next_ms,
        t2 >= t1,
        l0.next_ms + l0.interval_ms <= u64::MAX,
        t1 + l0.interval_ms + l0.interval_ms <= u64::MAX,
    ensures
        ({
            let (l1, w1) = spec_reserve(l0, t1);
            let (l2, w2) = spec_reserve(l1, t2);
            t2 + w2 >= t1 + w1 + l0.interval_ms
        }),
{
}

/// The operations of the messaging port, by kind.
#[derive(Clone, Copy, Debug, PartialEq, Eq, Structural)]
pub enum PortOp {
    SendHtml,
    EditHtml,
    DeleteMessage,
    SendChatAction,
    SetReaction,
    SendInlineKeyboard,
    AnswerCallbackQuery,
}

/// The silent messenger used for scheduled runs: it swallows streaming
/// chatter but forwards the operations an ask-user flow needs, and
/// synthesizes message references for the swallowed sends.
#[derive(Clone, Debug)]
pub struct CronMessenger {
    pub next_id: i32,
}

impl CronMessenger {
    /// A fresh silent messenger.
    pub fn new() -> (r: CronMessenger)
        ensures
            r.next_id == 1,
    {
        CronMessenger { next_id: 1 }
    }

    /// A synthesized reference for a swallowed send.
    pub fn alloc_ref(&mut self, chat_id: ChatId) -> (r: MessageRef)
        requires
            old(self).next_id < i32::MAX,
        ensures
            r.chat_id == chat_id,
            r.message_id == MessageId(old(self).next_id),
            final(self).next_id == old(self).next_id + 1,
    {
        let id = self.next_id;
        self.next_id = self.next_id + 1;
        MessageRef { chat_id, message_id: MessageId(id) }
    }

    /// Whether an operation is forwarded to the real port: only inline
    /// keyboards and callback answers pass through.
    pub fn forwards(&self, op: PortOp) -> (r: bool)
        ensures
            r == (op == PortOp::SendInlineKeyboard || op == PortOp::AnswerCallbackQuery),
    {
        match op {
            PortOp::SendInlineKeyboard => true,
            PortOp::AnswerCallbackQuery => true,
            _ => false,
        }
    }
}

/// The throttled-send decision: an answered callback query bypasses
/// the pacing; any other outbound message reserves a slot on the
/// global limiter and on the chat's limiter and waits for the later
/// of the two.
pub fn reserve_send_at(
    global: &mut IntervalLimiter,
    per_chat: &mut IntervalLimiter,
    now_ms: u64,
    answer_callback: bool,
) -> (wait: u64)
    requires
        old(global).next_ms + old(global).interval_ms <= u64::MAX,
        now_ms + old(global).interval_ms <= u64::MAX,
        old(per_chat).next_ms + old(per_chat).interval_ms <= u64::MAX,
        now_ms + old(per_chat).interval_ms <= u64::MAX,
    ensures
        answer_callback ==> wait == 0 && *final(global) == *old(global) && *final(per_chat)
            == *old(per_chat),
        !answer_callback ==> {
            &&& (*final(global), spec_reserve(*old(global), now_ms as int).1) == spec_reserve(
                *old(global),
                now_ms as int,
            )
            &&& (*final(per_chat), spec_reserve(*old(per_chat), now_ms as int).1)
                == spec_reserve(*old(per_chat), now_ms as int)
            &&& wait as int == if spec_reserve(*old(global), now_ms as int).1 >= spec_reserve(
                *old(per_chat),
                now_ms as int,
            ).1 {
                spec_reserve(*old(global), now_ms as int).1
            } else {
                spec_reserve(*old(per_chat), now_ms as int).1
            }
        },
{
    if answer_callback {
        return 0;
    }
    let wg = global.reserve_at(now_ms);
    let wc = per_chat.reserve_at(now_ms);
    if wg >= wc {
        wg
    } else {
        wc
    }
}

} // verus!
