//! Physical connections: where they come from, how many handshakes may be
//! pending, and when to try again.

use vstd::prelude::*;

verus! {

/// Whether this device accepted or initiated a connection.
#[derive(Clone, Copy, PartialEq, Eq, Structural, Debug)]
pub enum ConnectionOrigin {
    Inbound,
    Outbound,
}

/// What a lane knows of its connection: where it came from, and, once a session
/// router is attached, whether that session has ended.
#[derive(Clone, Copy, PartialEq, Eq, Structural, Debug)]
pub struct PeerConnectionContext {
    pub origin: ConnectionOrigin,
    pub session_end: Option<bool>,
}

impl PeerConnectionContext {
    /// A connection without a session router.
    pub fn new(origin: ConnectionOrigin) -> (context: Self)
        ensures
            context.origin == origin,
            context.session_end is None,
    {
        PeerConnectionContext { origin, session_end: None }
    }

    /// Where the connection came from.
    pub fn origin(&self) -> (origin: ConnectionOrigin)
        ensures
            origin == self.origin,
    {
        self.origin
    }

    /// The same connection with a session router attached.
    pub fn with_session_end(self, ended: bool) -> (context: Self)
        ensures
            context.origin == self.origin,
            context.session_end == Some(ended),
    {
        PeerConnectionContext { origin: self.origin, session_end: Some(ended) }
    }

    /// Whether the session is known to have ended. Without a router it never is.
    pub fn session_ended(&self) -> (ended: bool)
        ensures
            ended == (self.session_end == Some(true)),
    {
        match self.session_end {
            Some(ended) => ended,
            None => false,
        }
    }
}

/// The first delay after a failed accept, in milliseconds.
pub const INITIAL_ACCEPT_ERROR_BACKOFF_MILLIS: u64 = 10;

/// The longest delay after a failed accept, in milliseconds.
pub const MAX_ACCEPT_ERROR_BACKOFF_MILLIS: u64 = 1000;

/// The delay before a configured peer is dialled again, in milliseconds.
pub const EXPLICIT_RECONNECT_DELAY_MILLIS: u64 = 2000;

/// How many handshakes may be pending at once.
pub const MAX_PENDING_INBOUND_HANDSHAKES: usize = 32;

/// The delays between failed accepts.
#[derive(Debug)]
pub struct AcceptErrorBackoff {
    pub next_millis: u64,
}

/// Twice a delay, but never more than the longest.
pub open spec fn doubled(millis: int) -> int {
    if 2 * millis <= MAX_ACCEPT_ERROR_BACKOFF_MILLIS {
        2 * millis
    } else {
        MAX_ACCEPT_ERROR_BACKOFF_MILLIS as int
    }
}

impl Default for AcceptErrorBackoff {
    fn default() -> (backoff: Self)
        ensures
            backoff.next_millis == INITIAL_ACCEPT_ERROR_BACKOFF_MILLIS,
            backoff.valid(),
    {
        AcceptErrorBackoff { next_millis: INITIAL_ACCEPT_ERROR_BACKOFF_MILLIS }
    }
}

impl AcceptErrorBackoff {
    /// The next delay lies between the first and the longest.
    pub open spec fn valid(self) -> bool {
        INITIAL_ACCEPT_ERROR_BACKOFF_MILLIS <= self.next_millis <= MAX_ACCEPT_ERROR_BACKOFF_MILLIS
    }

    /// The delay after a failed accept; the one after the next failure is twice
    /// as long, up to the longest.
    pub fn next_delay(&mut self) -> (millis: u64)
        requires
            old(self).valid(),
        ensures
            final(self).valid(),
            millis == old(self).next_millis,
            final(self).next_millis == doubled(old(self).next_millis as int),
    {
        let delay: u64 = self.next_millis;
        self.next_millis = if 2 * delay <= MAX_ACCEPT_ERROR_BACKOFF_MILLIS {
            2 * delay
        } else {
            MAX_ACCEPT_ERROR_BACKOFF_MILLIS
        };
        delay
    }

    /// Starts over after a successful accept.
    pub fn reset(&mut self)
        ensures
            final(self).next_millis == INITIAL_ACCEPT_ERROR_BACKOFF_MILLIS,
            final(self).valid(),
    {
        self.next_millis = INITIAL_ACCEPT_ERROR_BACKOFF_MILLIS;
    }
}

/// The delay before the `n`-th failed accept in a row, counted from zero.
pub open spec fn nth_delay(n: nat) -> int
    decreases n,
{
    if n == 0 {
        INITIAL_ACCEPT_ERROR_BACKOFF_MILLIS as int
    } else {
        doubled(nth_delay((n - 1) as nat))
    }
}

/// Delays never shrink while failures go on, never exceed the longest, and
/// reach it after seven failures.
pub proof fn law_backoff_grows_to_its_bound(n: nat)
    ensures
        INITIAL_ACCEPT_ERROR_BACKOFF_MILLIS <= nth_delay(n) <= MAX_ACCEPT_ERROR_BACKOFF_MILLIS,
        nth_delay(n) <= nth_delay(n + 1),
        n >= 7 ==> nth_delay(n) == MAX_ACCEPT_ERROR_BACKOFF_MILLIS,
    decreases n,
{
    reveal_with_fuel(nth_delay, 9);
    if n > 0 {
        law_backoff_grows_to_its_bound((n - 1) as nat);
    }
}

/// The handshakes that have not been authenticated yet.
#[derive(Debug)]
pub struct InboundAdmission {
    pub pending: usize,
}

impl InboundAdmission {
    /// No more handshakes are pending than may be.
    pub open spec fn valid(self) -> bool {
        self.pending <= MAX_PENDING_INBOUND_HANDSHAKES
    }

    /// Nothing is pending.
    pub fn new() -> (admission: Self)
        ensures
            admission.valid(),
            admission.pending == 0,
    {
        InboundAdmission { pending: 0 }
    }

    /// Admits a connection to the handshake unless too many are pending.
    pub fn try_admit(&mut self) -> (admitted: bool)
        requires
            old(self).valid(),
        ensures
            final(self).valid(),
            admitted == (old(self).pending < MAX_PENDING_INBOUND_HANDSHAKES),
            final(self).pending == old(self).pending + if admitted {
                1int
            } else {
                0int
            },
    {
        if self.pending < MAX_PENDING_INBOUND_HANDSHAKES {
            self.pending = self.pending + 1;
            true
        } else {
            false
        }
    }

    /// A pending handshake has ended, one way or the other.
    pub fn release(&mut self)
        requires
            old(self).valid(),
            old(self).pending > 0,
        ensures
            final(self).valid(),
            final(self).pending == old(self).pending - 1,
    {
        self.pending = self.pending - 1;
    }
}

/// The attempts to reach a configured peer.
#[derive(Debug)]
pub struct ExplicitConnectDriver {
    pub attempt: u64,
}

impl ExplicitConnectDriver {
    /// No attempt has failed yet.
    pub fn new() -> (driver: Self)
        ensures
            driver.attempt == 0,
    {
        ExplicitConnectDriver { attempt: 0 }
    }

    /// The peer was reached: the count starts over. Gives the attempts it took.
    pub fn on_connected(&mut self) -> (attempts: u64)
        ensures
            attempts == old(self).attempt,
            final(self).attempt == 0,
    {
        let attempts: u64 = self.attempt;
        self.attempt = 0;
        attempts
    }

    /// The peer was not reached.
    pub fn on_failed(&mut self)
        ensures
            final(self).attempt == (if old(self).attempt < u64::MAX {
                (old(self).attempt + 1) as u64
            } else {
                u64::MAX
            }),
    {
        self.attempt = self.attempt.saturating_add(1);
    }
}

/// The result of dialling resolved addresses in order.
#[derive(Debug)]
pub enum DialResult<A, E> {
    Connected(A),
    Failed(E),
    NothingToDial,
}

/// The first address that answered, else the failure of the last one.
pub open spec fn dial_result<A, E>(attempts: Seq<Result<A, E>>) -> DialResult<A, E>
    decreases attempts.len(),
{
    if attempts.len() == 0 {
        DialResult::NothingToDial
    } else {
        match dial_result(attempts.drop_last()) {
            DialResult::Connected(a) => DialResult::Connected(a),
            _ => match attempts.last() {
                Ok(a) => DialResult::Connected(a),
                Err(e) => DialResult::Failed(e),
            },
        }
    }
}

/// The dialling of one endpoint's addresses, in the order they resolved to. What the
/// attempts gave is kept for the proofs alone.
pub struct EndpointDial<A, E> {
    pub result: DialResult<A, E>,
    pub attempts: Ghost<Seq<Result<A, E>>>,
}

impl<A, E> EndpointDial<A, E> {
    /// The result is that of the attempts.
    pub open spec fn valid(self) -> bool {
        self.result == dial_result(self.attempts@)
    }

    /// No address was tried.
    pub fn new() -> (dial: Self)
        ensures
            dial.valid(),
            dial.attempts@.len() == 0,
    {
        EndpointDial { result: DialResult::NothingToDial, attempts: Ghost(Seq::empty()) }
    }

    /// Whether another address is tried: not once one has answered.
    pub fn goes_on(&self) -> (b: bool)
        requires
            self.valid(),
        ensures
            b == !(dial_result(self.attempts@) is Connected),
    {
        match &self.result {
            DialResult::Connected(_) => false,
            _ => true,
        }
    }

    /// Takes what the next address gave.
    pub fn on_attempt(&mut self, attempt: Result<A, E>)
        requires
            old(self).valid(),
            !(dial_result(old(self).attempts@) is Connected),
        ensures
            final(self).valid(),
            final(self).attempts@ == old(self).attempts@.push(attempt),
    {
        let ghost before = self.attempts@;
        self.attempts = Ghost(before.push(attempt));
        proof {
            assert(self.attempts@.drop_last() =~= before);
        }
        match attempt {
            Ok(address) => {
                self.result = DialResult::Connected(address);
            },
            Err(error) => {
                self.result = DialResult::Failed(error);
            },
        }
    }

    /// The first answer, or the last failure where every address failed; an endpoint
    /// without addresses has a failure of its own.
    pub fn finish(self, nothing_to_dial: E) -> (r: Result<A, E>)
        requires
            self.valid(),
        ensures
            r == (match dial_result(self.attempts@) {
                DialResult::Connected(address) => Ok::<A, E>(address),
                DialResult::Failed(error) => Err::<A, E>(error),
                DialResult::NothingToDial => Err::<A, E>(nothing_to_dial),
            }),
    {
        match self.result {
            DialResult::Connected(address) => Ok(address),
            DialResult::Failed(error) => Err(error),
            DialResult::NothingToDial => Err(nothing_to_dial),
        }
    }
}

proof fn lemma_dial_prefix<A, E>(attempts: Seq<Result<A, E>>, k: int)
    requires
        0 <= k < attempts.len(),
        attempts[k] is Ok,
        forall|j: int| 0 <= j < k ==> (#[trigger] attempts[j]) is Err,
    ensures
        dial_result(attempts) == DialResult::<A, E>::Connected(attempts[k]->Ok_0),
    decreases attempts.len(),
{
    if k < attempts.len() - 1 {
        lemma_dial_prefix(attempts.drop_last(), k);
    } else {
        assert forall|j: int| 0 <= j < attempts.drop_last().len() implies (
        #[trigger] attempts.drop_last()[j]) is Err by {
            assert(attempts[j] is Err);
        }
        lemma_dial_failures(attempts.drop_last());
    }
}

proof fn lemma_dial_failures<A, E>(attempts: Seq<Result<A, E>>)
    requires
        forall|j: int| 0 <= j < attempts.len() ==> (#[trigger] attempts[j]) is Err,
    ensures
        dial_result(attempts) == (if attempts.len() == 0 {
            DialResult::<A, E>::NothingToDial
        } else {
            DialResult::<A, E>::Failed(attempts.last()->Err_0)
        }),
    decreases attempts.len(),
{
    if attempts.len() > 0 {
        assert forall|j: int| 0 <= j < attempts.drop_last().len() implies (
        #[trigger] attempts.drop_last()[j]) is Err by {
            assert(attempts[j] is Err);
        }
        lemma_dial_failures(attempts.drop_last());
        assert(attempts[attempts.len() - 1] is Err);
    }
}

/// Dialling stops at the first address that answers, and addresses after it do
/// not matter.
pub proof fn law_the_first_answer_wins<A, E>(attempts: Seq<Result<A, E>>, k: int)
    requires
        0 <= k < attempts.len(),
        attempts[k] is Ok,
        forall|j: int| 0 <= j < k ==> (#[trigger] attempts[j]) is Err,
    ensures
        dial_result(attempts) == DialResult::<A, E>::Connected(attempts[k]->Ok_0),
{
    lemma_dial_prefix(attempts, k);
}

/// Tells a session's owner when the session is over.
#[derive(Debug, Clone, Copy, PartialEq, Eq, Structural)]
pub struct SessionTracker {
    pub ended: bool,
}

/// What happened on a tracked session.
#[derive(Clone, Copy, PartialEq, Eq, Structural, Debug)]
pub enum SessionEvent {
    Sent { ok: bool },
    Received { ok: bool },
    Closed,
    Dropped,
}

impl SessionTracker {
    /// A live session.
    pub fn new() -> (tracker: Self)
        ensures
            !tracker.ended,
    {
        SessionTracker { ended: false }
    }

    /// A failed send or receive, a close and a drop end the session for good.
    pub fn observe(&mut self, event: SessionEvent)
        ensures
            final(self).ended == (old(self).ended || match event {
                SessionEvent::Sent { ok } => !ok,
                SessionEvent::Received { ok } => !ok,
                SessionEvent::Closed => true,
                SessionEvent::Dropped => true,
            }),
    {
        let ends: bool = match event {
            SessionEvent::Sent { ok } => !ok,
            SessionEvent::Received { ok } => !ok,
            SessionEvent::Closed => true,
            SessionEvent::Dropped => true,
        };
        if ends {
            self.ended = true;
        }
    }
}

/// The delays double from ten milliseconds on until a second is reached.
pub proof fn law_delays_double_up_to_a_second(n: nat)
    ensures
        nth_delay(0) == 10,
        nth_delay(n + 1) == 2 * nth_delay(n) || nth_delay(n + 1) == 1000 && 2 * nth_delay(n) > 1000,
        nth_delay(n) <= 1000,
{
    law_backoff_grows_to_its_bound(n);
}

/// Where every address fails, the failure of the last one is what is told, and where
/// there is none, that there was nothing to dial.
pub proof fn law_the_last_failure_is_told<A, E>(attempts: Seq<Result<A, E>>)
    requires
        forall|j: int| 0 <= j < attempts.len() ==> (#[trigger] attempts[j]) is Err,
    ensures
        attempts.len() > 0 ==> dial_result(attempts) == DialResult::<A, E>::Failed(
            attempts[attempts.len() - 1]->Err_0,
        ),
        attempts.len() == 0 ==> dial_result(attempts) == DialResult::<A, E>::NothingToDial,
{
    lemma_dial_failures(attempts);
}

} // verus!
