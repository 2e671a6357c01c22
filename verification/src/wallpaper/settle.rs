//! Chasing a monitor that has been announced but has no surface yet.
//!
//! Hyprland naming a new monitor and the compositor handing over the matching
//! `wl_output` are two separate arrivals with no ordering between them. A
//! selection pass that lands between the two has a monitor to decide for and
//! nothing to draw it on; this schedules the follow-up passes.
//!
//! Time is a monotonic clock reading in milliseconds, supplied by the caller.
use vstd::prelude::*;

verus! {

/// How long to wait before the first follow-up, in milliseconds.
pub const FIRST_DELAY: u64 = 250;

/// Ceiling for the backoff, in milliseconds: a monitor that never
/// materialises is looked at occasionally rather than in a tight loop.
pub const MAX_DELAY: u64 = 4000;

/// How long a monitor may stay uncovered before we stop chasing it, in
/// milliseconds of wall-clock time (a hotplug burst would spend a budget
/// counted in passes in a fraction of a second).
pub const GRACE: u64 = 10000;

/// What a selection pass achieved.
#[derive(Debug, Clone, Copy, PartialEq, Eq, Structural)]
pub enum Pass {
    /// Every monitor the compositor lists has its picture.
    Complete,
    /// Something is still missing: a monitor with no surface, or a monitor
    /// list that could not be read.
    Waiting,
}

/// The follow-up schedule for passes that left something behind.
#[derive(Debug)]
pub struct Settle {
    /// When to stop chasing. Set on the first incomplete pass of a run.
    deadline: Option<u64>,
    /// The delay the next follow-up gets.
    delay: u64,
    /// A follow-up is already on its way, so a second one would only
    /// duplicate it.
    armed: bool,
}

/// A [`Settle`] as values.
pub struct SettleModel {
    pub deadline: Option<u64>,
    pub delay: u64,
    pub armed: bool,
}

impl View for Settle {
    type V = SettleModel;

    closed spec fn view(&self) -> SettleModel {
        SettleModel { deadline: self.deadline, delay: self.delay, armed: self.armed }
    }
}

impl Settle {
    #[verifier::type_invariant]
    spec fn bounded(self) -> bool {
        FIRST_DELAY <= self.delay <= MAX_DELAY
    }
}

/// The next delay after `delay`: doubled, at most [`MAX_DELAY`].
pub open spec fn next_delay(delay: u64) -> u64 {
    if 2 * delay > MAX_DELAY {
        MAX_DELAY
    } else {
        (2 * delay) as u64
    }
}

/// Where a run that starts at `now` stops chasing.
pub open spec fn deadline_from(now: u64) -> u64 {
    if now + GRACE > u64::MAX {
        now
    } else {
        (now + GRACE) as u64
    }
}

/// What [`Settle::schedule`] does: a complete pass rests; a follow-up in
/// flight means nothing new; past the deadline the chase stops and rests;
/// otherwise the current delay is handed out and doubled, up to the ceiling.
pub open spec fn schedule_spec(s: SettleModel, pass: Pass, now: u64) -> (SettleModel, Option<u64>) {
    if pass == Pass::Complete {
        (SettleModel { deadline: None, delay: FIRST_DELAY, armed: s.armed }, None)
    } else if s.armed {
        (s, None)
    } else {
        let deadline = match s.deadline {
            Some(d) => d,
            None => deadline_from(now),
        };
        if now >= deadline {
            (SettleModel { deadline: None, delay: FIRST_DELAY, armed: false }, None)
        } else {
            (
                SettleModel { deadline: Some(deadline), delay: next_delay(s.delay), armed: true },
                Some(s.delay),
            )
        }
    }
}

impl Default for Settle {
    fn default() -> (s: Settle)
        ensures
            s@ == (SettleModel { deadline: None, delay: FIRST_DELAY, armed: false }),
    {
        Settle { deadline: None, delay: FIRST_DELAY, armed: false }
    }
}

impl Settle {
    /// How long to wait before passing again, or `None` when there is nothing
    /// left to chase.
    pub fn schedule(&mut self, pass: Pass, now: u64) -> (r: Option<u64>)
        ensures
            (final(self)@, r) == schedule_spec(old(self)@, pass, now),
            FIRST_DELAY <= final(self)@.delay <= MAX_DELAY,
    {
        proof {
            use_type_invariant(&*self);
        }
        if pass == Pass::Complete {
            self.rest();
            return None;
        }
        if self.armed {
            return None;
        }
        let deadline = match self.deadline {
            Some(d) => d,
            None => {
                let d = match now.checked_add(GRACE) {
                    Some(d) => d,
                    None => now,
                };
                self.deadline = Some(d);
                d
            },
        };
        if now >= deadline {
            self.rest();
            return None;
        }
        let delay = self.delay;
        self.delay = if delay > MAX_DELAY / 2 {
            MAX_DELAY
        } else {
            delay * 2
        };
        self.armed = true;
        Some(delay)
    }

    /// The follow-up we scheduled has started, so another may be queued
    /// behind it. Only this clears the flag: a pass that succeeds in the
    /// meantime must not let a second chain start while the first is pending.
    pub fn fired(&mut self)
        ensures
            final(self)@ == (SettleModel { armed: false, ..old(self)@ }),
            FIRST_DELAY <= final(self)@.delay <= MAX_DELAY,
    {
        proof {
            use_type_invariant(&*self);
        }
        self.armed = false;
    }

    /// Nothing to chase: forget the deadline and the backoff so the next
    /// hotplug starts from a clean schedule.
    fn rest(&mut self)
        ensures
            final(self)@ == (SettleModel { deadline: None, delay: FIRST_DELAY, ..old(self)@ }),
    {
        *self = Settle { deadline: None, delay: FIRST_DELAY, armed: self.armed };
    }
}

/// A handed-out delay lies between the first delay and the ceiling, and the
/// next one is never shorter: the backoff only grows until something resets
/// it.
pub proof fn lemma_backoff_grows_to_the_ceiling(s: SettleModel, pass: Pass, now: u64)
    requires
        FIRST_DELAY <= s.delay <= MAX_DELAY,
    ensures
        match schedule_spec(s, pass, now) {
            (next, Some(d)) => {
                &&& d == s.delay
                &&& FIRST_DELAY <= d <= MAX_DELAY
                &&& d <= next.delay <= MAX_DELAY
                &&& (next.delay == MAX_DELAY || next.delay == 2 * d)
            },
            (next, None) => FIRST_DELAY <= next.delay <= MAX_DELAY,
        },
{
}

/// Only one follow-up is ever in flight: once one is handed out, every pass
/// short of a complete one schedules nothing and changes nothing until
/// [`Settle::fired`].
pub proof fn lemma_one_follow_up_in_flight(s: SettleModel, now: u64, later: u64)
    ensures
        match schedule_spec(s, Pass::Waiting, now) {
            (next, Some(_)) => next.armed && schedule_spec(next, Pass::Waiting, later) == (next, None::<u64>),
            _ => true,
        },
{
}

/// A complete pass schedules nothing and resets the backoff: the next
/// incomplete pass, once nothing is in flight, waits the first delay again.
pub proof fn lemma_complete_resets(s: SettleModel, now: u64, later: u64)
    requires
        later < u64::MAX - GRACE,
    ensures
        schedule_spec(s, Pass::Complete, now).1 is None,
        schedule_spec(
            SettleModel { armed: false, ..schedule_spec(s, Pass::Complete, now).0 },
            Pass::Waiting,
            later,
        ).1 == Some(FIRST_DELAY),
{
}

/// Chasing stops at the deadline, and the next incomplete pass starts a
/// fresh grace period with the first delay.
pub proof fn lemma_grace_then_fresh(s: SettleModel, start: u64, expired: u64)
    requires
        !s.armed,
        s.deadline is None,
        start < u64::MAX - GRACE,
        expired >= start + GRACE,
        expired < u64::MAX - GRACE,
    ensures
        ({
            let (armed, first) = schedule_spec(s, Pass::Waiting, start);
            let fired = SettleModel { armed: false, ..armed };
            let (stopped, none) = schedule_spec(fired, Pass::Waiting, expired);
            &&& first is Some
            &&& none is None
            &&& schedule_spec(SettleModel { armed: false, ..stopped }, Pass::Waiting, expired).1
                == Some(FIRST_DELAY)
        }),
{
}

/// The schedule at rest: no deadline, the first delay, nothing in flight.
pub open spec fn at_rest() -> SettleModel {
    SettleModel { deadline: None, delay: FIRST_DELAY, armed: false }
}

/// `n` incomplete passes at `now`, each followed by its follow-up firing.
pub open spec fn waiting_rounds(s: SettleModel, now: u64, n: nat) -> SettleModel
    decreases n,
{
    if n == 0 {
        s
    } else {
        SettleModel { armed: false, ..schedule_spec(waiting_rounds(s, now, (n - 1) as nat), Pass::Waiting, now).0 }
    }
}

/// The delay the `k`-th follow-up of a chase gets, counting from zero.
pub open spec fn nth_delay(k: nat) -> u64
    decreases k,
{
    if k == 0 {
        FIRST_DELAY
    } else {
        next_delay(nth_delay((k - 1) as nat))
    }
}

proof fn lemma_nth_delay(k: nat)
    ensures
        FIRST_DELAY <= nth_delay(k) <= MAX_DELAY,
        nth_delay(k) <= nth_delay(k + 1),
        k >= 4 ==> nth_delay(k) == MAX_DELAY,
    decreases k,
{
    if k > 0 {
        lemma_nth_delay((k - 1) as nat);
    }
    if k == 4 {
        reveal_with_fuel(nth_delay, 5);
    }
}

proof fn lemma_waiting_rounds(now: u64, n: nat)
    requires
        now < u64::MAX - GRACE,
    ensures
        n > 0 ==> waiting_rounds(at_rest(), now, n) == (SettleModel {
            deadline: Some((now + GRACE) as u64),
            delay: nth_delay(n),
            armed: false,
        }),
        schedule_spec(waiting_rounds(at_rest(), now, n), Pass::Waiting, now).1 == Some(nth_delay(n)),
    decreases n,
{
    lemma_nth_delay(n);
    if n > 0 {
        lemma_waiting_rounds(now, (n - 1) as nat);
    }
}

/// A chase that starts from rest and keeps failing at one moment hands out
/// a follow-up on every pass: the first after [`FIRST_DELAY`], each no
/// shorter than the last and none past [`MAX_DELAY`], which the fifth and
/// every later one reach. Once its grace has run out the chase stops and
/// rests, and the next incomplete pass starts over at the first delay with
/// a fresh grace period.
pub proof fn lemma_chase_from_rest(now: u64, n: nat, later: u64)
    requires
        now < u64::MAX - GRACE,
        now + GRACE <= later < u64::MAX - GRACE,
    ensures
        schedule_spec(waiting_rounds(at_rest(), now, n), Pass::Waiting, now).1 == Some(nth_delay(n)),
        nth_delay(0) == FIRST_DELAY,
        FIRST_DELAY <= nth_delay(n) <= nth_delay(n + 1) <= MAX_DELAY,
        n >= 4 ==> nth_delay(n) == MAX_DELAY,
        n > 0 ==> schedule_spec(waiting_rounds(at_rest(), now, n), Pass::Waiting, later) == (at_rest(), None::<u64>),
        schedule_spec(at_rest(), Pass::Waiting, later) == (SettleModel {
            deadline: Some((later + GRACE) as u64),
            delay: next_delay(FIRST_DELAY),
            armed: true,
        }, Some(FIRST_DELAY)),
{
    lemma_waiting_rounds(now, n);
    lemma_nth_delay(n);
    lemma_nth_delay(n + 1);
}

} // verus!
