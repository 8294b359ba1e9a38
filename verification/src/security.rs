//! Safety kernel: authorization and the token-bucket rate limiter.
//!
//! Token counts are held in millionths of a token, so that the bucket
//! arithmetic is exact; timestamps are milliseconds on a monotonic clock.

use std::collections::HashMap;

use vstd::prelude::*;

use crate::domain::UserId;

verus! {

broadcast use vstd::std_specs::hash::group_hash_axioms;

/// One token, in millionths.
pub open spec fn token_unit() -> int {
    1_000_000
}

/// An absent user id is denied; an empty allowlist denies everyone;
/// otherwise the id must be listed.
pub open spec fn spec_authorized(user_id: Option<UserId>, allowed: Seq<i64>) -> bool {
    match user_id {
        Some(u) => allowed.len() > 0 && allowed.contains(u.0),
        None => false,
    }
}

/// True iff `user_id` is present and the non-empty allowlist holds it.
pub fn is_authorized(user_id: Option<UserId>, allowed_users: &Vec<i64>) -> (r: bool)
    ensures
        r == spec_authorized(user_id, allowed_users@),
{
    let uid: UserId = match user_id {
        Some(u) => u,
        None => {
            return false;
        },
    };
    if allowed_users.len() == 0 {
        return false;
    }
    let mut i: usize = 0;
    while i < allowed_users.len()
        invariant
            i <= allowed_users@.len(),
            user_id == Some(uid),
            allowed_users@.len() > 0,
            forall|k: int| 0 <= k < i ==> allowed_users@[k] != uid.0,
        decreases allowed_users@.len() - i,
    {
        if allowed_users[i] == uid.0 {
            assert(allowed_users@.contains(uid.0));
            return true;
        }
        i += 1;
    }
    assert(!allowed_users@.contains(uid.0));
    false
}

/// Per-user bucket: current tokens in millionths, and the time of the
/// last refill in milliseconds.
#[derive(Clone, Copy, Debug)]
pub struct Bucket {
    pub micro: u64,
    pub last_ms: u64,
}

/// Token-bucket rate limiter.
///
/// Refills continuously at `max_tokens` per `window_ms`; each allowed
/// call costs one token; a bucket is created full on first use.
#[derive(Clone, Debug)]
pub struct RateLimiter {
    pub enabled: bool,
    pub max_micro: u64,
    pub window_ms: u64,
    pub buckets: HashMap<i64, Bucket>,
}

impl RateLimiter {
    /// Every bucket holds between zero and `max_micro` millionths.
    pub open spec fn wf(&self) -> bool {
        &&& self.window_ms >= 1
        &&& self.max_micro >= token_unit()
        &&& forall|k: i64|
            self.buckets@.contains_key(k) ==> #[trigger] self.buckets@[k].micro <= self.max_micro
    }

    /// The bucket the check starts from: the stored one, or a full
    /// bucket stamped `now_ms` for a first-time user.
    pub open spec fn bucket_before(&self, user: i64, now_ms: u64) -> Bucket {
        if self.buckets@.contains_key(user) {
            self.buckets@[user]
        } else {
            Bucket { micro: self.max_micro, last_ms: now_ms }
        }
    }

    /// Tokens available after refilling `b` at `now_ms`, clamped to the
    /// bucket size.
    pub open spec fn refreshed(&self, b: Bucket, now_ms: u64) -> int {
        let elapsed: int = if now_ms >= b.last_ms {
            now_ms - b.last_ms
        } else {
            0
        };
        let refill: int = elapsed * self.max_micro / self.window_ms as int;
        if b.micro + refill <= self.max_micro {
            b.micro + refill
        } else {
            self.max_micro as int
        }
    }

    /// A limiter refilling `max_tokens` per `window_ms` milliseconds.
    pub fn new(enabled: bool, max_tokens: u32, window_ms: u64) -> (r: RateLimiter)
        requires
            max_tokens >= 1,
        ensures
            r.wf(),
            r.enabled == enabled,
            r.max_micro == max_tokens * 1_000_000,
            r.window_ms == if window_ms >= 1 {
                window_ms
            } else {
                1
            },
            r.buckets@ == Map::<i64, Bucket>::empty(),
    {
        let w = if window_ms >= 1 {
            window_ms
        } else {
            1
        };
        RateLimiter {
            enabled,
            max_micro: (max_tokens as u64) * 1_000_000,
            window_ms: w,
            buckets: HashMap::new(),
        }
    }

    /// One rate-limit check at `now_ms`: refill, then take one token if
    /// a whole one is available.  Returns whether the call is allowed
    /// and, when denied, how long to wait in milliseconds.
    ///
    /// After any call the user's tokens stay between zero and the
    /// bucket size.
    pub fn check_at(&mut self, user: UserId, now_ms: u64) -> (r: (bool, Option<u64>))
        requires
            old(self).wf(),
        ensures
            final(self).wf(),
            final(self).enabled == old(self).enabled,
            final(self).max_micro == old(self).max_micro,
            final(self).window_ms == old(self).window_ms,
            !old(self).enabled ==> r.0 && r.1 is None && final(self).buckets@ == old(
                self,
            ).buckets@,
            old(self).enabled ==> {
                let avail = old(self).refreshed(old(self).bucket_before(user.0, now_ms), now_ms);
                &&& (r.0 <==> avail >= token_unit())
                &&& final(self).buckets@ == old(self).buckets@.insert(
                    user.0,
                    Bucket {
                        micro: (if avail >= token_unit() {
                            avail - token_unit()
                        } else {
                            avail
                        }) as u64,
                        last_ms: now_ms,
                    },
                )
                &&& (r.0 ==> r.1 is None)
                &&& (!r.0 ==> r.1 == Some(
                    (((token_unit() - avail) * old(self).window_ms) / old(
                        self,
                    ).max_micro as int) as u64,
                ))
            },
    {
        if !self.enabled {
            return (true, None);
        }
        let pre: Bucket = match self.buckets.get(&user.0) {
            Some(b) => *b,
            None => Bucket { micro: self.max_micro, last_ms: now_ms },
        };
        let elapsed: u64 = if now_ms >= pre.last_ms {
            now_ms - pre.last_ms
        } else {
            0
        };
        proof {
            assert((elapsed as int) * (self.max_micro as int) <= (u64::MAX as int) * (u64::MAX
                as int)) by (nonlinear_arith)
                requires
                    elapsed as int <= u64::MAX as int,
                    self.max_micro as int <= u64::MAX as int,
            ;
        }
        let refill_wide: u128 = (elapsed as u128) * (self.max_micro as u128) / (self.window_ms
            as u128);
        let avail: u64 = if refill_wide >= self.max_micro as u128 {
            self.max_micro
        } else {
            let candidate: u128 = (pre.micro as u128) + refill_wide;
            if candidate >= self.max_micro as u128 {
                self.max_micro
            } else {
                candidate as u64
            }
        };
        proof {
            let gavail = self.refreshed(self.bucket_before(user.0, now_ms), now_ms);
            assert(avail as int == gavail);
        }
        if avail >= 1_000_000 {
            let nb = Bucket { micro: avail - 1_000_000, last_ms: now_ms };
            self.buckets.insert(user.0, nb);
            (true, None)
        } else {
            let nb = Bucket { micro: avail, last_ms: now_ms };
            self.buckets.insert(user.0, nb);
            let need: u64 = 1_000_000 - avail;
            proof {
                assert((need as int) * (self.window_ms as int) <= (u64::MAX as int) * (u64::MAX
                    as int)) by (nonlinear_arith)
                    requires
                        need as int <= u64::MAX as int,
                        self.window_ms as int <= u64::MAX as int,
                ;
            }
            let wait_wide: u128 = ((need as u128) * (self.window_ms as u128)) / (self.max_micro
                as u128);
            proof {
                assert(((need as int) * (self.window_ms as int)) / (self.max_micro as int)
                    <= self.window_ms as int) by (nonlinear_arith)
                    requires
                        1 <= need as int <= self.max_micro as int,
                        self.window_ms as int >= 0,
                ;
                assert(wait_wide <= u64::MAX as u128);
            }
            (false, Some(wait_wide as u64))
        }
    }

    /// The tokens the user has right now, without refilling: the stored
    /// bucket's count, or a full bucket for an unseen user.
    pub fn status_micro(&self, user: UserId) -> (r: u64)
        ensures
            r == if self.buckets@.contains_key(user.0) {
                self.buckets@[user.0].micro
            } else {
                self.max_micro
            },
    {
        match self.buckets.get(&user.0) {
            Some(b) => b.micro,
            None => self.max_micro,
        }
    }
}

} // verus!
