//! Electing one physical session between two peers that may dial each other at
//! the same time.

use vstd::prelude::*;

use crate::connection::ConnectionOrigin;
use crate::leases::same_bytes;
use crate::leases::PeerLeases;

verus! {

/// How long the authority waits for its own dial before it takes an inbound one.
pub const SESSION_ARBITRATION_FALLBACK_MILLIS: u64 = 250;

/// What one side tells the other about a session.
#[derive(Clone, Copy, PartialEq, Eq, Structural, Debug)]
pub enum ArbitrationDecision {
    Accept,
    Reject,
    AcceptAck,
    RejectAck,
}

/// Why a session is refused.
#[derive(Clone, Copy, PartialEq, Eq, Structural, Debug)]
pub enum ArbitrationError {
    Unauthenticated,
    SelfIdentity,
    InvalidMessage,
    InvalidDecision,
    InvalidAcknowledgement,
    UnexpectedAcknowledgement,
}

impl ArbitrationError {
    /// The wording of the reason.
    pub open spec fn wording(self) -> Seq<char> {
        match self {
            ArbitrationError::Unauthenticated => "session arbitration requires an authenticated peer"@,
            ArbitrationError::SelfIdentity => "session arbitration rejects a self identity"@,
            ArbitrationError::InvalidMessage => "invalid peer session arbitration message"@,
            ArbitrationError::InvalidDecision => "invalid peer session arbitration decision"@,
            ArbitrationError::InvalidAcknowledgement => "invalid peer session arbitration acknowledgement"@,
            ArbitrationError::UnexpectedAcknowledgement => "unexpected peer session arbitration acknowledgement"@,
        }
    }

    /// The wording of the reason.
    pub fn message(self) -> (m: &'static str)
        ensures
            m@ == self.wording(),
    {
        match self {
            ArbitrationError::Unauthenticated => "session arbitration requires an authenticated peer",
            ArbitrationError::SelfIdentity => "session arbitration rejects a self identity",
            ArbitrationError::InvalidMessage => "invalid peer session arbitration message",
            ArbitrationError::InvalidDecision => "invalid peer session arbitration decision",
            ArbitrationError::InvalidAcknowledgement => "invalid peer session arbitration acknowledgement",
            ArbitrationError::UnexpectedAcknowledgement => "unexpected peer session arbitration acknowledgement",
        }
    }
}

/// Whether one byte string precedes another in dictionary order.
pub open spec fn bytes_precede(a: Seq<u8>, b: Seq<u8>) -> bool
    decreases a.len(),
{
    if b.len() == 0 {
        false
    } else if a.len() == 0 {
        true
    } else if a[0] != b[0] {
        a[0] < b[0]
    } else {
        bytes_precede(a.drop_first(), b.drop_first())
    }
}

/// Compares two byte strings in dictionary order.
pub fn is_before(a: &Vec<u8>, b: &Vec<u8>) -> (r: bool)
    ensures
        r == bytes_precede(a@, b@),
{
    let mut i: usize = 0;
    assert(a@.skip(0) == a@);
    assert(b@.skip(0) == b@);
    while i < a.len() && i < b.len() && a[i] == b[i]
        invariant
            i <= a.len(),
            i <= b.len(),
            bytes_precede(a@, b@) == bytes_precede(a@.skip(i as int), b@.skip(i as int)),
        decreases a.len() - i,
    {
        assert(a@.skip(i as int).drop_first() == a@.skip(i + 1));
        assert(b@.skip(i as int).drop_first() == b@.skip(i + 1));
        i += 1;
    }
    if i >= b.len() {
        false
    } else if i >= a.len() {
        true
    } else {
        a[i] < b[i]
    }
}

proof fn lemma_bytes_order_is_total(a: Seq<u8>, b: Seq<u8>)
    ensures
        !bytes_precede(a, a),
        a != b ==> (bytes_precede(a, b) <==> !bytes_precede(b, a)),
    decreases a.len(),
{
    if a.len() > 0 {
        lemma_bytes_order_is_total(a.drop_first(), a.drop_first());
        if b.len() > 0 {
            lemma_bytes_order_is_total(a.drop_first(), b.drop_first());
            if a != b && a[0] == b[0] && a.drop_first() == b.drop_first() {
                assert(a == seq![a[0]] + a.drop_first());
                assert(b == seq![b[0]] + b.drop_first());
            }
        }
    } else if b.len() == 0 {
        assert(a == b);
    }
}

/// Of two peers exactly one decides; the other follows.
pub proof fn law_exactly_one_side_decides(local: Seq<u8>, peer: Seq<u8>)
    requires
        local != peer,
    ensures
        bytes_precede(local, peer) <==> !bytes_precede(peer, local),
{
    lemma_bytes_order_is_total(local, peer);
}

/// How a new session is taken up.
#[derive(Clone, Copy, PartialEq, Eq, Structural, Debug)]
pub enum ArbitrationStart {
    /// Close it: there is nobody to share it with.
    Refuse(ArbitrationError),
    /// Decide on it, after the fallback delay where `wait` says so.
    Decide { wait: bool },
    /// Wait for the peer's decision.
    Follow,
}

/// The side with the lower identity decides. It prefers its own dial and
/// therefore takes an inbound session only after a delay.
pub open spec fn start_of(
    local: Seq<u8>,
    peer: Option<Seq<u8>>,
    origin: ConnectionOrigin,
) -> ArbitrationStart {
    match peer {
        None => ArbitrationStart::Refuse(ArbitrationError::Unauthenticated),
        Some(key) => if local == key {
            ArbitrationStart::Refuse(ArbitrationError::SelfIdentity)
        } else if bytes_precede(local, key) {
            ArbitrationStart::Decide { wait: origin == ConnectionOrigin::Inbound }
        } else {
            ArbitrationStart::Follow
        },
    }
}

/// Takes up a new session.
pub fn begin_arbitration(
    local: &Vec<u8>,
    peer: Option<&Vec<u8>>,
    origin: ConnectionOrigin,
) -> (start: ArbitrationStart)
    ensures
        start == start_of(
            local@,
            match peer {
                Some(key) => Some(key@),
                None => None,
            },
            origin,
        ),
{
    match peer {
        None => ArbitrationStart::Refuse(ArbitrationError::Unauthenticated),
        Some(key) => if same_bytes(local, key) {
            ArbitrationStart::Refuse(ArbitrationError::SelfIdentity)
        } else if is_before(local, key) {
            ArbitrationStart::Decide { wait: origin == ConnectionOrigin::Inbound }
        } else {
            ArbitrationStart::Follow
        },
    }
}

/// How a session leaves arbitration.
#[derive(Clone, Copy, PartialEq, Eq, Structural, Debug)]
pub enum ArbitrationOutcome {
    /// It carries the lanes; the peer's lease is held.
    FanOut,
    /// It is closed without fault.
    Close,
    /// It is closed because the peer broke the protocol.
    CloseWithError(ArbitrationError),
    /// It is closed because nothing could be sent on it or received from it.
    CloseUnreachable,
}

/// The authority takes the peer's lease, if it is free, and says so.
pub fn decide(leases: &mut PeerLeases, peer: &Vec<u8>) -> (decision: ArbitrationDecision)
    requires
        old(leases).valid(),
    ensures
        final(leases).valid(),
        decision == (if old(leases)@.contains(peer@) {
            ArbitrationDecision::Reject
        } else {
            ArbitrationDecision::Accept
        }),
        final(leases)@ == old(leases)@.insert(peer@),
{
    if leases.try_acquire(peer) {
        ArbitrationDecision::Accept
    } else {
        ArbitrationDecision::Reject
    }
}

/// What the authority does once its decision was sent, or could not be.
#[derive(Clone, Copy, PartialEq, Eq, Structural, Debug)]
pub enum AfterDecision {
    /// The peer's acknowledgement is awaited; the lease is held.
    AwaitAcknowledgement,
    /// Arbitration is over.
    Leave(ArbitrationOutcome),
}

/// What follows a decision that was sent, or could not be.
pub open spec fn after_decision(decision: ArbitrationDecision, sent: bool) -> AfterDecision {
    if !sent {
        AfterDecision::Leave(ArbitrationOutcome::CloseUnreachable)
    } else if decision == ArbitrationDecision::Accept {
        AfterDecision::AwaitAcknowledgement
    } else {
        AfterDecision::Leave(ArbitrationOutcome::Close)
    }
}

/// Goes on once the decision was sent, or could not be. An acceptance that did
/// not reach the peer gives the lease back; the lease of another session, which
/// a rejection speaks of, stays.
pub fn on_decision_sent(
    leases: &mut PeerLeases,
    peer: &Vec<u8>,
    decision: ArbitrationDecision,
    sent: bool,
) -> (next: AfterDecision)
    requires
        old(leases).valid(),
    ensures
        final(leases).valid(),
        next == after_decision(decision, sent),
        final(leases)@ == (if decision == ArbitrationDecision::Accept && !sent {
            old(leases)@.remove(peer@)
        } else {
            old(leases)@
        }),
{
    if !sent {
        if decision == ArbitrationDecision::Accept {
            leases.release(peer);
        }
        AfterDecision::Leave(ArbitrationOutcome::CloseUnreachable)
    } else if decision == ArbitrationDecision::Accept {
        AfterDecision::AwaitAcknowledgement
    } else {
        AfterDecision::Leave(ArbitrationOutcome::Close)
    }
}

/// What an acknowledgement means to the authority that accepted a session.
pub open spec fn acknowledged(answer: Result<ArbitrationDecision, ArbitrationError>) -> ArbitrationOutcome {
    match answer {
        Ok(ArbitrationDecision::AcceptAck) => ArbitrationOutcome::FanOut,
        Ok(ArbitrationDecision::RejectAck) => ArbitrationOutcome::Close,
        Ok(_) => ArbitrationOutcome::CloseWithError(ArbitrationError::InvalidAcknowledgement),
        Err(error) => ArbitrationOutcome::CloseWithError(error),
    }
}

/// Concludes a session that the authority accepted: unless the peer agrees, the
/// lease is given back.
pub fn conclude_accepted(
    leases: &mut PeerLeases,
    peer: &Vec<u8>,
    answer: Result<ArbitrationDecision, ArbitrationError>,
) -> (outcome: ArbitrationOutcome)
    requires
        old(leases).valid(),
    ensures
        final(leases).valid(),
        outcome == acknowledged(answer),
        final(leases)@ == (if outcome == ArbitrationOutcome::FanOut {
            old(leases)@
        } else {
            old(leases)@.remove(peer@)
        }),
{
    let outcome: ArbitrationOutcome = match answer {
        Ok(ArbitrationDecision::AcceptAck) => ArbitrationOutcome::FanOut,
        Ok(ArbitrationDecision::RejectAck) => ArbitrationOutcome::Close,
        Ok(_) => ArbitrationOutcome::CloseWithError(ArbitrationError::InvalidAcknowledgement),
        Err(error) => ArbitrationOutcome::CloseWithError(error),
    };
    if outcome != ArbitrationOutcome::FanOut {
        leases.release(peer);
    }
    outcome
}

/// Gives the lease back where the acknowledgement of an accepted session does not
/// come.
pub fn on_acknowledgement_lost(leases: &mut PeerLeases, peer: &Vec<u8>) -> (left:
    ArbitrationOutcome)
    requires
        old(leases).valid(),
    ensures
        final(leases).valid(),
        left == ArbitrationOutcome::CloseUnreachable,
        final(leases)@ == old(leases)@.remove(peer@),
{
    leases.release(peer);
    ArbitrationOutcome::CloseUnreachable
}

/// What the follower answers, and how the session leaves arbitration.
pub open spec fn followed(
    active: Set<Seq<u8>>,
    peer: Seq<u8>,
    decision: Result<ArbitrationDecision, ArbitrationError>,
) -> (Option<ArbitrationDecision>, ArbitrationOutcome) {
    match decision {
        Ok(ArbitrationDecision::Accept) => if active.contains(peer) {
            (Some(ArbitrationDecision::RejectAck), ArbitrationOutcome::Close)
        } else {
            (Some(ArbitrationDecision::AcceptAck), ArbitrationOutcome::FanOut)
        },
        Ok(ArbitrationDecision::Reject) => (None, ArbitrationOutcome::Close),
        Ok(_) => (
            None,
            ArbitrationOutcome::CloseWithError(ArbitrationError::UnexpectedAcknowledgement),
        ),
        Err(error) => (None, ArbitrationOutcome::CloseWithError(error)),
    }
}

/// Follows the authority's decision: an accepted session takes the peer's lease
/// if it is free, and the answer says whether it was.
pub fn follow(
    leases: &mut PeerLeases,
    peer: &Vec<u8>,
    decision: Result<ArbitrationDecision, ArbitrationError>,
) -> (r: (Option<ArbitrationDecision>, ArbitrationOutcome))
    requires
        old(leases).valid(),
    ensures
        final(leases).valid(),
        r == followed(old(leases)@, peer@, decision),
        final(leases)@ == (if r.1 == ArbitrationOutcome::FanOut {
            old(leases)@.insert(peer@)
        } else {
            old(leases)@
        }),
{
    match decision {
        Ok(ArbitrationDecision::Accept) => if leases.try_acquire(peer) {
            (Some(ArbitrationDecision::AcceptAck), ArbitrationOutcome::FanOut)
        } else {
            proof {
                assert(old(leases)@.insert(peer@) =~= old(leases)@);
            }
            (Some(ArbitrationDecision::RejectAck), ArbitrationOutcome::Close)
        },
        Ok(ArbitrationDecision::Reject) => (None, ArbitrationOutcome::Close),
        Ok(_) => (
            None,
            ArbitrationOutcome::CloseWithError(ArbitrationError::UnexpectedAcknowledgement),
        ),
        Err(error) => (None, ArbitrationOutcome::CloseWithError(error)),
    }
}

/// How a session leaves arbitration once the follower's answer was sent, or
/// could not be.
pub open spec fn answered(outcome: ArbitrationOutcome, sent: bool) -> ArbitrationOutcome {
    if sent {
        outcome
    } else {
        ArbitrationOutcome::CloseUnreachable
    }
}

/// Goes on once the follower's answer was sent, or could not be. The lease that
/// the session took is given back where its answer did not reach the peer.
pub fn on_answer_sent(
    leases: &mut PeerLeases,
    peer: &Vec<u8>,
    outcome: ArbitrationOutcome,
    sent: bool,
) -> (left: ArbitrationOutcome)
    requires
        old(leases).valid(),
    ensures
        final(leases).valid(),
        left == answered(outcome, sent),
        final(leases)@ == (if outcome == ArbitrationOutcome::FanOut && !sent {
            old(leases)@.remove(peer@)
        } else {
            old(leases)@
        }),
{
    if sent {
        outcome
    } else {
        if outcome == ArbitrationOutcome::FanOut {
            leases.release(peer);
        }
        ArbitrationOutcome::CloseUnreachable
    }
}

/// A session that does not carry the lanes leaves the leases as the authority found
/// them: where the decision does not reach the peer, where it is a rejection, and
/// where the acknowledgement is lost or no agreement.
pub proof fn law_the_authority_keeps_a_lease_only_for_lanes(
    active: Set<Seq<u8>>,
    peer: Seq<u8>,
    sent: bool,
    answer: Result<ArbitrationDecision, ArbitrationError>,
)
    ensures
        ({
            let decision = if active.contains(peer) {
                ArbitrationDecision::Reject
            } else {
                ArbitrationDecision::Accept
            };
            let taken = active.insert(peer);
            match after_decision(decision, sent) {
                AfterDecision::Leave(outcome) => {
                    &&& outcome != ArbitrationOutcome::FanOut
                    &&& active == (if decision == ArbitrationDecision::Accept && !sent {
                        taken.remove(peer)
                    } else {
                        taken
                    })
                },
                AfterDecision::AwaitAcknowledgement => {
                    acknowledged(answer) != ArbitrationOutcome::FanOut ==> taken.remove(peer) == active
                },
            }
        }),
{
    if active.contains(peer) {
        assert(active.insert(peer) =~= active);
    } else {
        assert(active.insert(peer).remove(peer) =~= active);
    }
}

/// A session that does not carry the lanes leaves the leases as the follower found
/// them, also where its answer does not reach the authority.
pub proof fn law_the_follower_keeps_a_lease_only_for_lanes(
    active: Set<Seq<u8>>,
    peer: Seq<u8>,
    decision: Result<ArbitrationDecision, ArbitrationError>,
    sent: bool,
)
    ensures
        ({
            let outcome = followed(active, peer, decision).1;
            let taken = if outcome == ArbitrationOutcome::FanOut {
                active.insert(peer)
            } else {
                active
            };
            let left = if outcome == ArbitrationOutcome::FanOut && !sent {
                taken.remove(peer)
            } else {
                taken
            };
            answered(outcome, sent) != ArbitrationOutcome::FanOut ==> left == active
        }),
{
    if !active.contains(peer) {
        assert(active.insert(peer).remove(peer) =~= active);
    }
}

/// Both ends come to the same result: the follower's lanes start exactly when
/// its answer makes the authority's lanes start.
pub proof fn law_both_ends_agree_on_a_session(active: Set<Seq<u8>>, peer: Seq<u8>)
    ensures
        ({
            let (answer, outcome) = followed(active, peer, Ok(ArbitrationDecision::Accept));
            &&& answer is Some
            &&& acknowledged(Ok(answer->Some_0)) == outcome
        }),
        followed(active, peer, Ok(ArbitrationDecision::Reject)).1 == ArbitrationOutcome::Close,
{
}

/// The follower never starts lanes that the authority did not accept.
pub proof fn law_the_follower_never_elects(
    active: Set<Seq<u8>>,
    peer: Seq<u8>,
    decision: Result<ArbitrationDecision, ArbitrationError>,
)
    requires
        followed(active, peer, decision).1 == ArbitrationOutcome::FanOut,
    ensures
        decision == Ok::<ArbitrationDecision, ArbitrationError>(ArbitrationDecision::Accept),
        !active.contains(peer),
{
}

/// The bytes that open every arbitration message.
pub open spec fn magic() -> Seq<u8> {
    seq![0x4eu8, 0x58u8, 0x53u8, 0x41u8, 0x31u8]
}

/// The number of a decision on the wire.
pub open spec fn decision_code(decision: ArbitrationDecision) -> u8 {
    match decision {
        ArbitrationDecision::Reject => 0,
        ArbitrationDecision::Accept => 1,
        ArbitrationDecision::AcceptAck => 2,
        ArbitrationDecision::RejectAck => 3,
    }
}

/// The part of an envelope that arbitration looks at.
#[derive(Debug, Clone)]
pub struct ArbitrationEnvelope {
    pub id: u64,
    pub is_handshake: bool,
    pub version_supported: bool,
    pub body: Vec<u8>,
}

/// The body of an arbitration message.
pub fn arbitration_body(decision: ArbitrationDecision) -> (body: Vec<u8>)
    ensures
        body@ == magic().push(decision_code(decision)),
{
    let code: u8 = match decision {
        ArbitrationDecision::Reject => 0,
        ArbitrationDecision::Accept => 1,
        ArbitrationDecision::AcceptAck => 2,
        ArbitrationDecision::RejectAck => 3,
    };
    let mut body: Vec<u8> = Vec::new();
    body.push(0x4e);
    body.push(0x58);
    body.push(0x53);
    body.push(0x41);
    body.push(0x31);
    body.push(code);
    assert(body@ =~= magic().push(decision_code(decision)));
    body
}

/// The envelope of an arbitration message: a handshake with the number zero.
pub fn arbitration_envelope(decision: ArbitrationDecision) -> (envelope: ArbitrationEnvelope)
    ensures
        envelope.id == 0,
        envelope.is_handshake,
        envelope.version_supported,
        envelope.body@ == magic().push(decision_code(decision)),
{
    ArbitrationEnvelope {
        id: 0,
        is_handshake: true,
        version_supported: true,
        body: arbitration_body(decision),
    }
}

/// What an envelope says, if it is an arbitration message.
pub open spec fn decoded(
    id: u64,
    is_handshake: bool,
    version_supported: bool,
    body: Seq<u8>,
) -> Result<ArbitrationDecision, ArbitrationError> {
    if id != 0 || !is_handshake || !version_supported || body.len() != 6 || body.take(5) != magic() {
        Err(ArbitrationError::InvalidMessage)
    } else if body[5] == 0 {
        Ok(ArbitrationDecision::Reject)
    } else if body[5] == 1 {
        Ok(ArbitrationDecision::Accept)
    } else if body[5] == 2 {
        Ok(ArbitrationDecision::AcceptAck)
    } else if body[5] == 3 {
        Ok(ArbitrationDecision::RejectAck)
    } else {
        Err(ArbitrationError::InvalidDecision)
    }
}

/// Reads an arbitration message.
pub fn decode_arbitration_decision(envelope: &ArbitrationEnvelope) -> (r: Result<
    ArbitrationDecision,
    ArbitrationError,
>)
    ensures
        r == decoded(
            envelope.id,
            envelope.is_handshake,
            envelope.version_supported,
            envelope.body@,
        ),
{
    let body = &envelope.body;
    if envelope.id != 0 || !envelope.is_handshake || !envelope.version_supported || body.len() != 6 {
        return Err(ArbitrationError::InvalidMessage);
    }
    let opens: bool = body[0] == 0x4e && body[1] == 0x58 && body[2] == 0x53 && body[3] == 0x41
        && body[4] == 0x31;
    proof {
        let head = body@.take(5);
        if opens {
            assert(head =~= magic());
        } else {
            assert(head[0] == body@[0] && head[1] == body@[1] && head[2] == body@[2] && head[3]
                == body@[3] && head[4] == body@[4]);
            assert(magic()[0] == 0x4e && magic()[1] == 0x58 && magic()[2] == 0x53 && magic()[3]
                == 0x41 && magic()[4] == 0x31);
            assert(head != magic());
        }
    }
    if !opens {
        return Err(ArbitrationError::InvalidMessage);
    }
    match body[5] {
        0 => Ok(ArbitrationDecision::Reject),
        1 => Ok(ArbitrationDecision::Accept),
        2 => Ok(ArbitrationDecision::AcceptAck),
        3 => Ok(ArbitrationDecision::RejectAck),
        _ => Err(ArbitrationError::InvalidDecision),
    }
}

/// Reading back a written decision gives the decision.
pub proof fn law_written_decisions_read_back(decision: ArbitrationDecision)
    ensures
        decoded(0, true, true, magic().push(decision_code(decision))) == Ok::<
            ArbitrationDecision,
            ArbitrationError,
        >(decision),
{
    let body = magic().push(decision_code(decision));
    assert(body.take(5) =~= magic());
}

/// One byte string precedes another exactly where, behind what both begin with, it
/// ends and the other goes on or its next byte is the lower one.
pub proof fn law_keys_are_ordered_at_their_first_difference(a: Seq<u8>, b: Seq<u8>, k: int)
    requires
        0 <= k <= a.len(),
        k <= b.len(),
        forall|i: int| 0 <= i < k ==> a[i] == b[i],
        k < a.len() && k < b.len() ==> a[k] != b[k],
    ensures
        bytes_precede(a, b) <==> k < b.len() && (k == a.len() || a[k] < b[k]),
    decreases k,
{
    if k > 0 {
        law_keys_are_ordered_at_their_first_difference(a.drop_first(), b.drop_first(), k - 1);
    }
}

/// Between two different devices the one with the lower key decides and the other
/// follows, whoever dialled; the decision waits exactly where the session came in. A
/// peer without a key and this device itself are refused.
pub proof fn law_sessions_are_taken_up_by_the_lower_key(
    local: Seq<u8>,
    peer: Seq<u8>,
    origin: ConnectionOrigin,
    other_origin: ConnectionOrigin,
)
    ensures
        local != peer ==> {
            &&& bytes_precede(local, peer) ==> start_of(local, Some(peer), origin)
                == (ArbitrationStart::Decide { wait: origin == ConnectionOrigin::Inbound })
            &&& bytes_precede(peer, local) ==> start_of(local, Some(peer), origin)
                == ArbitrationStart::Follow
            &&& start_of(local, Some(peer), origin) is Decide <==> start_of(
                peer,
                Some(local),
                other_origin,
            ) is Follow
        },
        start_of(local, Some(local), origin) == ArbitrationStart::Refuse(
            ArbitrationError::SelfIdentity,
        ),
        start_of(local, None, origin) == ArbitrationStart::Refuse(ArbitrationError::Unauthenticated),
{
    lemma_bytes_order_is_total(local, peer);
    lemma_bytes_order_is_total(peer, local);
}

/// The authority's lanes start exactly where the peer agrees, and a disagreement is no
/// fault, while any other answer is one.
pub proof fn law_only_agreement_starts_lanes(
    answer: Result<ArbitrationDecision, ArbitrationError>,
)
    ensures
        acknowledged(answer) == ArbitrationOutcome::FanOut <==> answer == Ok::<
            ArbitrationDecision,
            ArbitrationError,
        >(ArbitrationDecision::AcceptAck),
        acknowledged(answer) == ArbitrationOutcome::Close <==> answer == Ok::<
            ArbitrationDecision,
            ArbitrationError,
        >(ArbitrationDecision::RejectAck),
        answer matches Err(error) ==> acknowledged(answer) == ArbitrationOutcome::CloseWithError(error),
{
}

/// An accepted session starts the follower's lanes exactly where no session of that
/// peer is active, and the answer says which; a rejected one is closed without an
/// answer.
pub proof fn law_accepted_sessions_are_followed(active: Set<Seq<u8>>, peer: Seq<u8>)
    ensures
        ({
            let (answer, outcome) = followed(active, peer, Ok(ArbitrationDecision::Accept));
            &&& outcome == ArbitrationOutcome::FanOut <==> !active.contains(peer)
            &&& answer == Some(ArbitrationDecision::AcceptAck) <==> !active.contains(peer)
            &&& answer == Some(ArbitrationDecision::RejectAck) <==> active.contains(peer)
        }),
        followed(active, peer, Ok(ArbitrationDecision::Reject)) == (
            None::<ArbitrationDecision>,
            ArbitrationOutcome::Close,
        ),
{
}

/// A decision is read off a message exactly where the message is a handshake of a
/// known version under the number nought whose body is the five opening bytes and one
/// byte from nought to three.
pub proof fn law_only_arbitration_messages_are_read(
    id: u64,
    is_handshake: bool,
    version_supported: bool,
    body: Seq<u8>,
)
    ensures
        decoded(id, is_handshake, version_supported, body) is Ok <==> {
            &&& id == 0
            &&& is_handshake
            &&& version_supported
            &&& body.len() == 6
            &&& body[0] == 0x4e && body[1] == 0x58 && body[2] == 0x53 && body[3] == 0x41 && body[4]
                == 0x31
            &&& body[5] <= 3
        },
{
    if body.len() == 6 {
        if body[0] == 0x4e && body[1] == 0x58 && body[2] == 0x53 && body[3] == 0x41 && body[4]
            == 0x31 {
            assert(body.take(5) =~= magic());
        }
        if body.take(5) == magic() {
            assert(body.take(5)[0] == magic()[0] && body.take(5)[1] == magic()[1] && body.take(5)[2]
                == magic()[2] && body.take(5)[3] == magic()[3] && body.take(5)[4] == magic()[4]);
        }
    }
}

/// A session leaves arbitration with the follower's outcome where the peer was told of
/// it, and unreachable where it was not.
pub proof fn law_unsent_answers_end_the_session(outcome: ArbitrationOutcome)
    ensures
        answered(outcome, true) == outcome,
        answered(outcome, false) == ArbitrationOutcome::CloseUnreachable,
{
}

} // verus!
