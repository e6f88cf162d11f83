//! When to send heartbeats.
//!
//! The timer holds no clock. The caller tells it the time, in milliseconds
//! on any clock that does not go back, and whether the sink can take a
//! packet; the timer answers with the heartbeat to send, if one is due.
//! Deadlines lie on a grid: the first one interval after the timer was
//! made, then one interval apart. A deadline that passes while the sink is
//! not ready stays pending, and all that pass in the meantime are answered by
//! one heartbeat. A deadline may lie past the end of a 64-bit clock; it is
//! then never reached.

use vstd::prelude::*;

use crate::packet::types::Operation;
use crate::packet::types::Protocol;
use crate::packet::Packet;
use crate::packet::PacketView;
use crate::packet::DEFAULT_SEQ_ID;

verus! {

/// The interval between heartbeats where none is given: 30 seconds.
pub const DEFAULT_INTERVAL_MS: u64 = 30_000;

/// What a heartbeat timer holds, as plain numbers.
pub struct HeartbeatView {
    /// The distance between two deadlines, in milliseconds; not zero.
    pub interval: nat,
    /// The time from which the next heartbeat is due.
    pub deadline: nat,
}

/// The heartbeat packet: operation and protocol `Heartbeat`, empty body.
pub open spec fn spec_heartbeat() -> PacketView {
    PacketView {
        op: Operation::HeartBeat,
        protocol: Protocol::Heartbeat,
        seq_id: DEFAULT_SEQ_ID,
        body: Seq::empty(),
    }
}

/// A time as a 64-bit clock can show it: times past its end read as its
/// end.
pub open spec fn capped(t: nat) -> nat {
    if t <= u64::MAX {
        t
    } else {
        u64::MAX as nat
    }
}

/// A timer that was made at the time `now`.
pub open spec fn spec_fresh(now: nat, interval: nat) -> HeartbeatView {
    HeartbeatView { interval, deadline: now + interval }
}

/// The first deadline of the grid after the time `now`, which is at or past
/// the deadline of `h`.
pub open spec fn spec_next_deadline(h: HeartbeatView, now: nat) -> nat {
    h.deadline + h.interval * ((now - h.deadline) / (h.interval as int) + 1) as nat
}

/// One poll of the timer at the time `now`: the timer afterwards, and
/// whether a heartbeat is to be sent. One is sent when the deadline has come
/// and the sink is ready; the next deadline is then the first of the grid
/// after `now`.
pub open spec fn spec_poll(h: HeartbeatView, now: nat, ready: bool) -> (HeartbeatView, bool) {
    if ready && now >= h.deadline {
        (HeartbeatView { deadline: spec_next_deadline(h, now), ..h }, true)
    } else {
        (h, false)
    }
}

/// How many heartbeats a timer sends when it is polled with a ready sink at
/// each of the `ticks` milliseconds that follow the time `now`.
pub open spec fn spec_beats(h: HeartbeatView, now: nat, ticks: nat) -> nat
    decreases ticks,
{
    if ticks == 0 {
        0
    } else {
        let (after, sent) = spec_poll(h, now + 1, true);
        (if sent {
            1nat
        } else {
            0nat
        }) + spec_beats(after, now + 1, (ticks - 1) as nat)
    }
}

/// Heartbeat timer.
#[derive(Debug)]
pub struct Heartbeat {
    interval_ms: u64,
    deadline_ms: u128,
}

impl View for Heartbeat {
    type V = HeartbeatView;

    closed spec fn view(&self) -> HeartbeatView {
        HeartbeatView { interval: self.interval_ms as nat, deadline: self.deadline_ms as nat }
    }
}

impl Heartbeat {
    #[verifier::type_invariant]
    closed spec fn inv(self) -> bool {
        self.interval_ms > 0
    }

    /// A timer with the default interval, made at the time `now_ms`: the
    /// first heartbeat is due one interval from now.
    pub fn new(now_ms: u64) -> (h: Self)
        ensures
            h@ == spec_fresh(now_ms as nat, DEFAULT_INTERVAL_MS as nat),
    {
        Heartbeat {
            interval_ms: DEFAULT_INTERVAL_MS,
            deadline_ms: now_ms as u128 + DEFAULT_INTERVAL_MS as u128,
        }
    }

    /// A timer with the given interval, made at the time `now_ms`; `None`
    /// for an interval of zero.
    pub fn with_interval(now_ms: u64, interval_ms: u64) -> (r: Option<Self>)
        ensures
            interval_ms == 0 ==> r is None,
            interval_ms > 0 ==> r is Some && r.unwrap()@ == spec_fresh(
                now_ms as nat,
                interval_ms as nat,
            ),
    {
        if interval_ms == 0 {
            None
        } else {
            Some(Heartbeat { interval_ms, deadline_ms: now_ms as u128 + interval_ms as u128 })
        }
    }

    /// The time from which the next heartbeat is due, as the clock can show
    /// it.
    pub fn deadline(&self) -> (deadline_ms: u64)
        ensures
            deadline_ms == capped(self@.deadline),
            self@.interval > 0,
    {
        proof {
            use_type_invariant(self);
        }
        if self.deadline_ms > u64::MAX as u128 {
            u64::MAX
        } else {
            self.deadline_ms as u64
        }
    }

    /// Poll the timer at the time `now_ms`. `ready` says whether the sink can
    /// take a packet. Answers with the heartbeat packet to send, if one is
    /// due and can be sent.
    pub fn poll(&mut self, now_ms: u64, ready: bool) -> (r: Option<Packet>)
        ensures
            (final(self)@, r is Some) == spec_poll(old(self)@, now_ms as nat, ready),
            r matches Some(p) ==> p@ == spec_heartbeat() && p@.framable(),
    {
        proof {
            use_type_invariant(&*self);
        }
        if !ready || (now_ms as u128) < self.deadline_ms {
            return None;
        }
        let missed: u128 = (now_ms as u128 - self.deadline_ms) / (self.interval_ms as u128);
        assert((self.interval_ms as u128) * (missed + 1)
            <= 0xffff_ffff_ffff_ffff_0000_0000_0000_0000u128) by (nonlinear_arith)
            requires
                self.interval_ms <= 0xffff_ffff_ffff_ffffu64,
                missed <= 0xffff_ffff_ffff_ffffu64,
        ;
        self.deadline_ms = self.deadline_ms + (self.interval_ms as u128) * (missed + 1);
        Some(Packet::new(Operation::HeartBeat, Protocol::Heartbeat, Vec::new()))
    }
}

/// One tick of the clock moves the count of whole intervals on by one when
/// it ends on the grid, and not at all otherwise.
pub proof fn lemma_tick(elapsed: nat, interval: nat)
    requires
        interval > 0,
    ensures
        (elapsed / interval) * interval <= elapsed < (elapsed / interval + 1) * interval,
        elapsed + 1 == (elapsed / interval + 1) * interval ==> (elapsed + 1) / interval == elapsed
            / interval + 1,
        elapsed + 1 < (elapsed / interval + 1) * interval ==> (elapsed + 1) / interval == elapsed
            / interval,
{
    let q = (elapsed / interval) as int;
    let i = interval as int;
    let e = elapsed as int;
    vstd::arithmetic::div_mod::lemma_fundamental_div_mod(e, i);
    vstd::arithmetic::div_mod::lemma_mod_bound(e, i);
    assert(i * q == q * i) by (nonlinear_arith);
    assert((q + 1) * i == q * i + i) by (nonlinear_arith);
    if e + 1 == (q + 1) * i {
        vstd::arithmetic::div_mod::lemma_fundamental_div_mod_converse(e + 1, i, q + 1, 0);
    } else {
        vstd::arithmetic::div_mod::lemma_fundamental_div_mod_converse(
            e + 1,
            i,
            q,
            e + 1 - q * i,
        );
    }
}

/// A timer that is `elapsed` milliseconds old and has been polled at every
/// one of them sends, over the next `ticks` milliseconds, one heartbeat for
/// every whole interval that ends in them.
pub proof fn lemma_beats_from(start: nat, interval: nat, elapsed: nat, ticks: nat)
    requires
        interval > 0,
    ensures
        spec_beats(
            HeartbeatView { interval, deadline: start + (elapsed / interval + 1) * interval },
            start + elapsed,
            ticks,
        ) == (elapsed + ticks) / interval - elapsed / interval,
    decreases ticks,
{
    let h = HeartbeatView { interval, deadline: start + (elapsed / interval + 1) * interval };
    if ticks > 0 {
        lemma_tick(elapsed, interval);
        let now = start + elapsed + 1;
        let (after, sent) = spec_poll(h, now, true);
        if elapsed + 1 == (elapsed / interval + 1) * interval {
            assert(sent);
            assert((now - h.deadline) / (interval as int) == 0);
            assert(interval * 1 == interval) by (nonlinear_arith);
            assert(((elapsed + 1) / interval + 1) * interval == (elapsed / interval + 1) * interval
                + interval) by (nonlinear_arith)
                requires
                    (elapsed + 1) / interval == elapsed / interval + 1,
            ;
            lemma_tick(elapsed + 1, interval);
            assert(after.deadline == start + ((elapsed + 1) / interval + 1) * interval);
        } else {
            assert(!sent);
            assert(after == h);
        }
        assert(after == HeartbeatView {
            interval,
            deadline: start + ((elapsed + 1) / interval + 1) * interval,
        });
        lemma_beats_from(start, interval, elapsed + 1, (ticks - 1) as nat);
        assert(elapsed + 1 + (ticks - 1) as nat == elapsed + ticks);
    }
}

/// Heartbeat cadence: a timer that is polled with a ready sink at every
/// millisecond sends, in the `ticks` milliseconds after it was made, exactly
/// one heartbeat for every whole interval in them. Nothing but polls moves
/// the timer, so what else the stream sends does not matter.
pub proof fn lemma_cadence(start: nat, interval: nat, ticks: nat)
    requires
        interval > 0,
    ensures
        spec_beats(spec_fresh(start, interval), start, ticks) == ticks / interval,
{
    assert(0nat / interval == 0) by (nonlinear_arith)
        requires
            interval > 0,
    ;
    assert((0nat / interval + 1) * interval == interval) by (nonlinear_arith)
        requires
            0nat / interval == 0,
    ;
    lemma_beats_from(start, interval, 0, ticks);
}

/// The first heartbeat: a fresh timer sends nothing before one interval has
/// passed, whatever the sink says, and sends at the end of the interval if
/// the sink is ready. The next deadline is then one interval later.
pub proof fn lemma_first_beat(start: nat, interval: nat, now: nat, ready: bool)
    requires
        interval > 0,
        start <= now <= start + interval,
    ensures
        now < start + interval ==> spec_poll(spec_fresh(start, interval), now, ready) == (
            spec_fresh(start, interval),
            false,
        ),
        now == start + interval && ready ==> spec_poll(spec_fresh(start, interval), now, ready)
            == (HeartbeatView { interval, deadline: start + 2 * interval }, true),
{
    if now == start + interval {
        assert(0int / (interval as int) == 0) by (nonlinear_arith)
            requires
                interval > 0,
        ;
        assert(interval * 1 == interval) by (nonlinear_arith);
    }
}

} // verus!
