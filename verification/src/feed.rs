//! Feed-session decisions: the reconnect backoff, the subscribe messages
//! and the heartbeat filter. The transport loop performs the connects,
//! sends and sleeps; the delays and payloads are decided here.

use vstd::prelude::*;
use vstd::arithmetic::power2::pow2;
use crate::types::{string_eq_str, WsSubscribeMsg};

verus! {

/// Longest wait between reconnect attempts, in time units.
pub const BACKOFF_CAP_SECS: u64 = 60;

/// Interval of the proactive pings a connected session sends, in time
/// units.
pub const PING_INTERVAL_SECS: u64 = 20;

/// Assets named per subscribe message, at most.
pub const SUBSCRIBE_CHUNK: usize = 50;

/// Exponential reconnect backoff: waits of 1, 2, 4, ... time units,
/// capped at `BACKOFF_CAP_SECS`; a successful reconnect resets it.
pub struct Backoff {
    current: u64,
}

impl Backoff {
    pub closed spec fn current(&self) -> u64 {
        self.current
    }

    pub open spec fn wf(&self) -> bool {
        1 <= self.current() <= 64
    }

    pub fn new() -> (r: Self)
        ensures
            r.wf(),
            r.current() == 1,
    {
        Backoff { current: 1 }
    }

    /// The wait before the next reconnect attempt: the stored value capped
    /// at `BACKOFF_CAP_SECS`; the stored value doubles for the attempt
    /// after, staying bounded.
    pub fn next_delay(&mut self) -> (d: u64)
        requires
            old(self).wf(),
        ensures
            final(self).wf(),
            d == (if old(self).current() < 60 {
                old(self).current()
            } else {
                60u64
            }),
            final(self).current() as int == (if 2 * old(self).current() < 64 {
                2 * old(self).current() as int
            } else {
                64int
            }),
    {
        let d = if self.current < 60 {
            self.current
        } else {
            60
        };
        self.current = if self.current < 32 {
            self.current * 2
        } else {
            64
        };
        d
    }

    /// A successful reconnect starts the ladder over.
    pub fn reset(&mut self)
        ensures
            final(self).wf(),
            final(self).current() == 1,
    {
        self.current = 1;
    }
}

/// The stored backoff value after `k` consecutive failures from a fresh
/// ladder.
pub open spec fn backoff_after(k: nat) -> int
    decreases k,
{
    if k == 0 {
        1
    } else {
        let p = backoff_after((k - 1) as nat);
        if 2 * p < 64 {
            2 * p
        } else {
            64
        }
    }
}

/// Law: the reconnect waits run 1, 2, 4, ... time units, capped: after
/// `k` failures from a fresh ladder the stored value is `2^k` until the
/// cap, so the next wait is `min(2^k, 60)`.
pub proof fn lemma_backoff_delays(k: nat)
    ensures
        backoff_after(k) == if pow2(k) < 64 {
            pow2(k) as int
        } else {
            64int
        },
        (if backoff_after(k) < 60 {
            backoff_after(k)
        } else {
            60int
        }) == (if pow2(k) < 60 {
            pow2(k) as int
        } else {
            60int
        }),
    decreases k,
{
    vstd::arithmetic::power2::lemma_pow2_pos(k);
    if k == 0 {
        vstd::arithmetic::power2::lemma2_to64();
    } else {
        lemma_backoff_delays((k - 1) as nat);
        vstd::arithmetic::power2::lemma_pow2_unfold(k);
        vstd::arithmetic::power2::lemma_pow2_pos((k - 1) as nat);
    }
}

/// The feed's empty heartbeat payload, to be ignored.
pub fn is_heartbeat(text: &str) -> (r: bool)
    ensures
        r == (text@ == "[]"@),
{
    let owned = text.to_owned();
    string_eq_str(&owned, "[]")
}

/// One subscribe control message per chunk of at most `SUBSCRIBE_CHUNK`
/// asset identifiers, each naming the book channel, together covering
/// every token in order.
pub fn build_subscribe_msgs(tokens: &Vec<String>) -> (r: Vec<WsSubscribeMsg>)
    ensures
        tokens@.len() == 0 ==> r@.len() == 0,
        tokens@.len() > 0 ==> 50 * (r@.len() - 1) < tokens@.len() <= 50 * r@.len(),
        forall|i: int|
            0 <= i < r@.len() ==> {
                &&& (#[trigger] r@[i]).msg_type@ == "subscribe"@
                &&& r@[i].channels@.len() == 1
                &&& r@[i].channels@[0]@ == "book"@
                &&& r@[i].asset_ids@ =~= tokens@.subrange(
                    50 * i,
                    if 50 * (i + 1) <= tokens@.len() {
                        50 * (i + 1)
                    } else {
                        tokens@.len() as int
                    },
                )
            },
{
    let n = tokens.len();
    let mut out: Vec<WsSubscribeMsg> = Vec::new();
    let mut start: usize = 0;
    while start < n
        invariant
            n == tokens@.len(),
            start <= n,
            start == 50 * out@.len() || (start == n && out@.len() > 0 && 50 * (out@.len() - 1) < n
                <= 50 * out@.len()),
            forall|i: int|
                0 <= i < out@.len() ==> {
                    &&& (#[trigger] out@[i]).msg_type@ == "subscribe"@
                    &&& out@[i].channels@.len() == 1
                    &&& out@[i].channels@[0]@ == "book"@
                    &&& out@[i].asset_ids@ =~= tokens@.subrange(
                        50 * i,
                        if 50 * (i + 1) <= n {
                            50 * (i + 1)
                        } else {
                            n as int
                        },
                    )
                },
        decreases n - start,
    {
        proof {
            assert(start == 50 * out@.len());
        }
        let end = if n - start > 50 {
            start + 50
        } else {
            n
        };
        let mut ids: Vec<String> = Vec::new();
        let mut j = start;
        while j < end
            invariant
                start <= j <= end <= n == tokens@.len(),
                ids@ =~= tokens@.subrange(start as int, j as int),
            decreases end - j,
        {
            ids.push(tokens[j].clone());
            proof {
                assert(ids@ =~= tokens@.subrange(start as int, j + 1));
            }
            j = j + 1;
        }
        let mut channels: Vec<String> = Vec::new();
        channels.push("book".to_owned());
        out.push(WsSubscribeMsg { msg_type: "subscribe".to_owned(), asset_ids: ids, channels });
        start = end;
    }
    out
}

} // verus!
