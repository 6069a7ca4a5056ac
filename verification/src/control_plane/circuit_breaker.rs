//! Per-node circuit breaker with a three-state machine.
//!
//! State transitions:
//! ```text
//! Closed ──(5 failures in a row)──► Open ──(30s cooldown)──► HalfOpen
//!   ▲                                 ▲                        │  │
//!   │                                 └───────(failure)────────┘  │
//!   └───────────────────────(success)──────────────────────────────┘
//! ```

use std::time::Instant;

use vstd::prelude::*;

use crate::clock::{may_be_nanos_since, may_be_nanos_since_last, may_be_now, nanos_since_last};

verus! {

#[derive(Debug, Clone, Copy, PartialEq, Eq, Structural)]
pub enum CircuitState {
    /// Normal operation; requests pass through.
    Closed,
    /// Too many failures; requests are blocked until the cooldown expires.
    Open,
    /// Cooldown elapsed; one probe request is allowed to test recovery.
    HalfOpen,
}

#[derive(Debug)]
pub struct CircuitBreaker {
    pub state: CircuitState,
    /// Consecutive failure count (reset on success).
    pub failure_count: u32,
    /// Number of failures required to open the circuit.
    pub failure_threshold: u32,
    /// Time of the most recent failure.
    pub last_failure: Option<Instant>,
    /// How long to wait in `Open` before changing to `HalfOpen`, in nanoseconds.
    pub cooldown_nanos: u128,
}

impl CircuitBreaker {
    /// The breaker of a node that has not been called yet.
    pub open spec fn initial() -> Self {
        CircuitBreaker {
            state: CircuitState::Closed,
            failure_count: 0,
            failure_threshold: 5,
            last_failure: None,
            cooldown_nanos: 30_000_000_000,
        }
    }

    /// Whether a request may pass when `elapsed` nanoseconds have passed since
    /// the last failure. While a probe is out none may.
    pub open spec fn allows(self, elapsed: int) -> bool {
        match self.state {
            CircuitState::Closed => true,
            CircuitState::Open => elapsed >= self.cooldown_nanos,
            CircuitState::HalfOpen => false,
        }
    }

    /// The breaker once it has been asked to let a request pass.
    pub open spec fn asked(self, elapsed: int) -> Self {
        if self.state == CircuitState::Open && elapsed >= self.cooldown_nanos {
            CircuitBreaker { state: CircuitState::HalfOpen, ..self }
        } else {
            self
        }
    }

    /// The breaker after a successful request.
    pub open spec fn succeeded(self) -> Self {
        CircuitBreaker { state: CircuitState::Closed, failure_count: 0, ..self }
    }

    /// The breaker after a request that failed at `now`.
    pub open spec fn failed(self, now: Instant) -> Self {
        CircuitBreaker {
            state: match self.state {
                CircuitState::Closed => if self.failure_count + 1 >= self.failure_threshold {
                    CircuitState::Open
                } else {
                    CircuitState::Closed
                },
                CircuitState::HalfOpen => CircuitState::Open,
                CircuitState::Open => CircuitState::Open,
            },
            failure_count: (self.failure_count + 1) as u32,
            last_failure: Some(now),
            ..self
        }
    }

    /// The breaker after requests that failed one after the other.
    pub open spec fn failed_at_each(self, times: Seq<Instant>) -> Self
        decreases times.len(),
    {
        if times.len() == 0 {
            self
        } else {
            self.failed_at_each(times.drop_last()).failed(times.last())
        }
    }

    /// Returns `true` if a request should be allowed through.
    ///
    /// Side effect: if `Open` and the cooldown has elapsed, changes to
    /// `HalfOpen`. The request is then the probe: no other passes until its
    /// outcome is recorded.
    pub fn allow_request(&mut self) -> (allowed: bool)
        ensures
            exists|elapsed: u128| #![trigger old(self).asked(elapsed as int)]
                allowed == old(self).allows(elapsed as int) && *final(self) == old(self).asked(elapsed as int)
                    && may_be_nanos_since_last(old(self).last_failure, elapsed),
    {
        let elapsed: u128 = nanos_since_last(&self.last_failure);
        let allowed = self.allow_request_after(elapsed);
        assert(allowed == old(self).allows(elapsed as int) && *self == old(self).asked(elapsed as int));
        allowed
    }

    /// [`allow_request`](Self::allow_request) when `elapsed` nanoseconds have
    /// passed since the last failure.
    pub fn allow_request_after(&mut self, elapsed: u128) -> (allowed: bool)
        ensures
            allowed == old(self).allows(elapsed as int),
            *final(self) == old(self).asked(elapsed as int),
            allowed <==> old(self).state == CircuitState::Closed || (old(self).state == CircuitState::Open && elapsed
                >= old(self).cooldown_nanos),
            allowed && old(self).state == CircuitState::Open ==> final(self).state == CircuitState::HalfOpen,
            !allowed || old(self).state == CircuitState::Closed ==> *final(self) == *old(self),
            final(self).failure_count == old(self).failure_count,
            final(self).last_failure == old(self).last_failure,
    {
        match self.state {
            CircuitState::Closed => true,
            CircuitState::Open => {
                if elapsed >= self.cooldown_nanos {
                    self.state = CircuitState::HalfOpen;
                    true
                } else {
                    false
                }
            },
            CircuitState::HalfOpen => false,
        }
    }

    /// Whether a request would be allowed through when `elapsed` nanoseconds have
    /// passed since the last failure. Changes nothing.
    pub fn would_allow(&self, elapsed: u128) -> (allowed: bool)
        ensures
            allowed == self.allows(elapsed as int),
            allowed <==> self.state == CircuitState::Closed || (self.state == CircuitState::Open && elapsed
                >= self.cooldown_nanos),
    {
        match self.state {
            CircuitState::Closed => true,
            CircuitState::Open => elapsed >= self.cooldown_nanos,
            CircuitState::HalfOpen => false,
        }
    }

    /// Record a successful response. Resets the circuit to `Closed`.
    pub fn record_success(&mut self)
        ensures
            *final(self) == old(self).succeeded(),
            final(self).state == CircuitState::Closed,
            final(self).failure_count == 0,
    {
        self.failure_count = 0;
        self.state = CircuitState::Closed;
    }

    /// Record a failed response.
    ///
    /// - `Closed`: increment the counter; open if the threshold is reached.
    /// - `HalfOpen`: the probe failed, so open again at once.
    /// - `Open`: update the time (already open).
    pub fn record_failure(&mut self)
        requires
            old(self).failure_count < u32::MAX,
        ensures
            exists|now: Instant| may_be_now(now) && *final(self) == #[trigger] old(self).failed(now),
            final(self).last_failure is Some && may_be_now(final(self).last_failure->0),
            final(self).failure_count == old(self).failure_count + 1,
    {
        let now = Instant::now();
        self.record_failure_at(now);
    }

    /// [`record_failure`](Self::record_failure) of a failure at `now`.
    pub fn record_failure_at(&mut self, now: Instant)
        requires
            old(self).failure_count < u32::MAX,
        ensures
            *final(self) == old(self).failed(now),
            final(self).last_failure == Some(now),
            final(self).failure_count == old(self).failure_count + 1,
            final(self).failure_threshold == old(self).failure_threshold,
            final(self).cooldown_nanos == old(self).cooldown_nanos,
            old(self).state != CircuitState::Closed ==> final(self).state == CircuitState::Open,
            old(self).state == CircuitState::Closed ==> (final(self).state == CircuitState::Open <==> old(self).failure_count
                + 1 >= old(self).failure_threshold),
    {
        self.failure_count = self.failure_count + 1;
        self.last_failure = Some(now);
        match self.state {
            CircuitState::Closed => {
                if self.failure_count >= self.failure_threshold {
                    self.state = CircuitState::Open;
                }
            },
            CircuitState::HalfOpen => {
                self.state = CircuitState::Open;
            },
            CircuitState::Open => {},
        }
    }

    /// The name that metrics and logs show for a state.
    pub open spec fn name_of(state: CircuitState) -> Seq<char> {
        match state {
            CircuitState::Closed => "closed"@,
            CircuitState::Open => "open"@,
            CircuitState::HalfOpen => "half_open"@,
        }
    }

    /// Human-readable state name for metrics and logging.
    pub fn state_name(&self) -> (name: &'static str)
        ensures
            name@ == Self::name_of(self.state),
            self.state == CircuitState::Closed ==> name@ == "closed"@,
            self.state == CircuitState::Open ==> name@ == "open"@,
            self.state == CircuitState::HalfOpen ==> name@ == "half_open"@,
    {
        match self.state {
            CircuitState::Closed => "closed",
            CircuitState::Open => "open",
            CircuitState::HalfOpen => "half_open",
        }
    }
}

impl Default for CircuitBreaker {
    fn default() -> (breaker: Self)
        ensures
            breaker == Self::initial(),
            breaker.state == CircuitState::Closed,
            breaker.failure_count == 0,
            breaker.last_failure is None,
    {
        CircuitBreaker {
            state: CircuitState::Closed,
            failure_count: 0,
            failure_threshold: 5,
            last_failure: None,
            cooldown_nanos: 30_000_000_000,
        }
    }
}

impl Clone for CircuitBreaker {
    fn clone(&self) -> (r: Self)
        ensures
            r == *self,
    {
        CircuitBreaker {
            state: self.state,
            failure_count: self.failure_count,
            failure_threshold: self.failure_threshold,
            last_failure: self.last_failure,
            cooldown_nanos: self.cooldown_nanos,
        }
    }
}

/// A closed circuit without failures opens with the failure that makes the
/// number of failures in a row reach the threshold, and not before.
pub proof fn law_opens_at_threshold(breaker: CircuitBreaker, times: Seq<Instant>)
    requires
        breaker.state == CircuitState::Closed,
        breaker.failure_count == 0,
        times.len() <= u32::MAX,
    ensures
        breaker.failed_at_each(times).failure_count == times.len(),
        breaker.failed_at_each(times).failure_threshold == breaker.failure_threshold,
        breaker.failed_at_each(times).state == (if times.len() > 0 && times.len() >= breaker.failure_threshold {
            CircuitState::Open
        } else {
            CircuitState::Closed
        }),
    decreases times.len(),
{
    if times.len() > 0 {
        law_opens_at_threshold(breaker, times.drop_last());
    }
}

/// The breaker of a new node lets every request pass until five requests in a
/// row have failed, and then blocks requests for thirty seconds.
pub proof fn law_five_failures_block_for_thirty_seconds(times: Seq<Instant>, elapsed: int)
    requires
        times.len() <= u32::MAX,
    ensures
        CircuitBreaker::initial().failed_at_each(times).allows(elapsed)
            == (times.len() < 5 || elapsed >= 30_000_000_000),
{
    law_opens_at_threshold(CircuitBreaker::initial(), times);
    lemma_cooldown_kept(CircuitBreaker::initial(), times);
}

proof fn lemma_cooldown_kept(breaker: CircuitBreaker, times: Seq<Instant>)
    ensures
        breaker.failed_at_each(times).cooldown_nanos == breaker.cooldown_nanos,
    decreases times.len(),
{
    if times.len() > 0 {
        lemma_cooldown_kept(breaker, times.drop_last());
    }
}

/// An open circuit changes to `HalfOpen` exactly when it lets a request pass.
/// From `HalfOpen` a failure opens it again at once, whatever the threshold.
pub proof fn law_probe_decides(breaker: CircuitBreaker, elapsed: int, now: Instant)
    requires
        breaker.state == CircuitState::Open,
    ensures
        breaker.allows(elapsed) <==> breaker.asked(elapsed).state == CircuitState::HalfOpen,
        !breaker.allows(elapsed) ==> breaker.asked(elapsed) == breaker,
        breaker.asked(elapsed).failed(now).state == CircuitState::Open,
{
}

/// Once an open circuit has let a probe pass it lets no other request pass,
/// however long that takes, until the probe's outcome is recorded: a success lets
/// all requests pass, a failure starts the cooldown again.
pub proof fn law_one_probe_at_a_time(breaker: CircuitBreaker, elapsed: int, later: int, now: Instant)
    requires
        breaker.state == CircuitState::Open,
        breaker.allows(elapsed),
    ensures
        !breaker.asked(elapsed).allows(later),
        breaker.asked(elapsed).asked(later) == breaker.asked(elapsed),
        breaker.asked(elapsed).succeeded().allows(later),
        breaker.asked(elapsed).failed(now).allows(later) == (later >= breaker.cooldown_nanos),
{
}

/// A success closes the circuit from every state and starts the count of
/// failures anew: the next failures count from one.
pub proof fn law_success_closes(breaker: CircuitBreaker, elapsed: int, times: Seq<Instant>)
    requires
        times.len() <= u32::MAX,
    ensures
        breaker.succeeded().state == CircuitState::Closed,
        breaker.succeeded().allows(elapsed),
        breaker.succeeded().failed_at_each(times).failure_count == times.len(),
{
    law_opens_at_threshold(breaker.succeeded(), times);
}

/// A request passes a closed circuit, and an open one whose cooldown has gone by
/// since the last failure, and no other. Only in the latter case does anything
/// about the breaker change: the request is then a probe.
pub proof fn law_what_passes(breaker: CircuitBreaker, elapsed: int)
    ensures
        breaker.allows(elapsed) <==> breaker.state == CircuitState::Closed || (breaker.state == CircuitState::Open
            && elapsed >= breaker.cooldown_nanos),
        breaker.allows(elapsed) && breaker.state == CircuitState::Open ==> breaker.asked(elapsed).state
            == CircuitState::HalfOpen,
        !breaker.allows(elapsed) || breaker.state == CircuitState::Closed ==> breaker.asked(elapsed) == breaker,
        breaker.asked(elapsed).failure_count == breaker.failure_count,
        breaker.asked(elapsed).failure_threshold == breaker.failure_threshold,
        breaker.asked(elapsed).last_failure == breaker.last_failure,
        breaker.asked(elapsed).cooldown_nanos == breaker.cooldown_nanos,
{
}

/// Whatever the state of the breaker, a failure is its most recent one and counts
/// as one more in a row. It leaves the circuit closed only if the circuit was
/// closed and the failures in a row are still fewer than the threshold.
pub proof fn law_failure_is_the_most_recent(breaker: CircuitBreaker, now: Instant)
    requires
        breaker.failure_count < u32::MAX,
    ensures
        breaker.failed(now).last_failure == Some(now),
        breaker.failed(now).failure_count == breaker.failure_count + 1,
        breaker.failed(now).state == CircuitState::Closed <==> breaker.state == CircuitState::Closed
            && breaker.failure_count + 1 < breaker.failure_threshold,
        breaker.failed(now).state != CircuitState::HalfOpen,
        breaker.failed(now).failure_threshold == breaker.failure_threshold,
        breaker.failed(now).cooldown_nanos == breaker.cooldown_nanos,
{
}

/// After a failed probe no request passes until the cooldown has gone by since the
/// probe failed, whatever went before.
pub proof fn law_failed_probe_starts_the_cooldown_anew(breaker: CircuitBreaker, elapsed: int, now: Instant, later: u128)
    requires
        breaker.state == CircuitState::Open,
        breaker.allows(elapsed),
        may_be_nanos_since_last(breaker.asked(elapsed).failed(now).last_failure, later),
    ensures
        may_be_nanos_since(now, later),
        breaker.asked(elapsed).failed(now).allows(later as int) <==> later >= breaker.cooldown_nanos,
{
}

/// A success closes the circuit, whatever its state, forgets the failures in a row,
/// and keeps the threshold and the cooldown.
pub proof fn law_success_forgets_failures(breaker: CircuitBreaker)
    ensures
        breaker.succeeded().state == CircuitState::Closed,
        breaker.succeeded().failure_count == 0,
        breaker.succeeded().failure_threshold == breaker.failure_threshold,
        breaker.succeeded().cooldown_nanos == breaker.cooldown_nanos,
        breaker.succeeded().last_failure == breaker.last_failure,
{
}

/// Something that happens to a breaker.
pub enum BreakerEvent {
    /// A request asks to pass so many nanoseconds after the last failure.
    Asked(int),
    /// A request succeeded.
    Succeeded,
    /// A request failed at this time.
    Failed(Instant),
}

/// A breaker after a series of events.
pub open spec fn after_all(breaker: CircuitBreaker, events: Seq<BreakerEvent>) -> CircuitBreaker
    decreases events.len(),
{
    if events.len() == 0 {
        breaker
    } else {
        let before = after_all(breaker, events.drop_last());
        match events.last() {
            BreakerEvent::Asked(elapsed) => before.asked(elapsed),
            BreakerEvent::Succeeded => before.succeeded(),
            BreakerEvent::Failed(now) => before.failed(now),
        }
    }
}

/// Over every series of events the count is that of the failures since the last
/// success, the time is that of the last failure, and the threshold and the
/// cooldown stay what they were.
pub proof fn law_counts_failures_since_success(breaker: CircuitBreaker, events: Seq<BreakerEvent>, since: int, last: int)
    requires
        0 <= since <= events.len() <= u32::MAX,
        since > 0 ==> events[since - 1] is Succeeded,
        since == 0 ==> breaker.failure_count == 0,
        forall|i: int| since <= i < events.len() ==> !((#[trigger] events[i]) is Succeeded),
        0 <= last < events.len(),
        events[last] is Failed,
        forall|i: int| last < i < events.len() ==> !((#[trigger] events[i]) is Failed),
    ensures
        after_all(breaker, events).failure_count == failures_from(events, since),
        after_all(breaker, events).last_failure == Some(events[last]->Failed_0),
        after_all(breaker, events).failure_threshold == breaker.failure_threshold,
        after_all(breaker, events).cooldown_nanos == breaker.cooldown_nanos,
{
    lemma_kept(breaker, events);
    lemma_count(breaker, events, since);
    lemma_last(breaker, events, last);
}

/// How many failures there are in a series from an event on.
pub open spec fn failures_from(events: Seq<BreakerEvent>, since: int) -> int
    decreases events.len(),
{
    if events.len() == 0 || events.len() <= since {
        0
    } else {
        failures_from(events.drop_last(), since) + if events.last() is Failed { 1int } else { 0int }
    }
}

proof fn lemma_kept(breaker: CircuitBreaker, events: Seq<BreakerEvent>)
    ensures
        after_all(breaker, events).failure_threshold == breaker.failure_threshold,
        after_all(breaker, events).cooldown_nanos == breaker.cooldown_nanos,
    decreases events.len(),
{
    if events.len() > 0 {
        lemma_kept(breaker, events.drop_last());
    }
}

proof fn lemma_count(breaker: CircuitBreaker, events: Seq<BreakerEvent>, since: int)
    requires
        0 <= since <= events.len() <= u32::MAX,
        since > 0 ==> events[since - 1] is Succeeded,
        since == 0 ==> breaker.failure_count == 0,
        forall|i: int| since <= i < events.len() ==> !((#[trigger] events[i]) is Succeeded),
    ensures
        after_all(breaker, events).failure_count == failures_from(events, since),
        0 <= failures_from(events, since) <= events.len(),
    decreases events.len(),
{
    if events.len() > since {
        let init = events.drop_last();
        assert forall|i: int| since <= i < init.len() implies !((#[trigger] init[i]) is Succeeded) by {
            assert(init[i] == events[i]);
        }
        lemma_count(breaker, init, since);
        assert(!(events[events.len() - 1] is Succeeded));
    } else if events.len() > 0 {
        assert(events.last() is Succeeded);
    }
}

proof fn lemma_last(breaker: CircuitBreaker, events: Seq<BreakerEvent>, last: int)
    requires
        0 <= last < events.len(),
        events[last] is Failed,
        forall|i: int| last < i < events.len() ==> !((#[trigger] events[i]) is Failed),
    ensures
        after_all(breaker, events).last_failure == Some(events[last]->Failed_0),
    decreases events.len(),
{
    if last < events.len() - 1 {
        let init = events.drop_last();
        assert forall|i: int| last < i < init.len() implies !((#[trigger] init[i]) is Failed) by {
            assert(init[i] == events[i]);
        }
        lemma_last(breaker, init, last);
        assert(!(events[events.len() - 1] is Failed));
    }
}

} // verus!
