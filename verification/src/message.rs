//! The messages of the file-transfer lane, and what they mean while no transfer
//! or another transfer is active.

use vstd::prelude::*;

use crate::checkpoint::TransferCheckpoint;
use crate::ids::DeviceId;
use crate::ids::TransferId;
use crate::manifest::policy_verdict;
use crate::manifest::validate_manifest_policy;
use crate::manifest::FileTransferConfig;
use crate::manifest::TransferManifest;
use crate::manifest::WireLimits;
use crate::receive::TransferChunk;
use crate::transfer_error::PeerReason;
use crate::transfer_error::TransferError;

verus! {

/// A message of the file-transfer lane. `Other` stands for those that carry
/// nothing for this lane's state.
#[derive(Clone, Debug)]
pub enum FileTransferMessage {
    Offer(TransferManifest),
    Accept { transfer_id: TransferId, checkpoint: Option<TransferCheckpoint> },
    Reject { transfer_id: TransferId, reason: String },
    Chunk(TransferChunk),
    Checkpoint(TransferCheckpoint),
    Ack(TransferCheckpoint),
    Complete { transfer_id: TransferId, transferred_bytes: u64 },
    Cancel { transfer_id: TransferId, reason: String },
    Other,
}

/// An answer to the peer.
#[derive(Clone, Copy, PartialEq, Eq, Structural, Debug)]
pub enum Reply {
    Accept { transfer_id: TransferId, checkpoint: Option<TransferCheckpoint> },
    Reject { transfer_id: TransferId, reason: PeerReason },
    Checkpoint(TransferCheckpoint),
    Ack(TransferCheckpoint),
    Complete { transfer_id: TransferId, transferred_bytes: u64 },
    Cancel { transfer_id: TransferId, reason: PeerReason },
}

/// The transfer that a message is about.
pub open spec fn subject(message: FileTransferMessage) -> Option<TransferId> {
    match message {
        FileTransferMessage::Offer(manifest) => Some(manifest.id),
        FileTransferMessage::Accept { transfer_id, .. } => Some(transfer_id),
        FileTransferMessage::Reject { transfer_id, .. } => Some(transfer_id),
        FileTransferMessage::Chunk(chunk) => Some(chunk.transfer_id),
        FileTransferMessage::Checkpoint(checkpoint) => Some(checkpoint.id),
        FileTransferMessage::Ack(checkpoint) => Some(checkpoint.id),
        FileTransferMessage::Complete { transfer_id, .. } => Some(transfer_id),
        FileTransferMessage::Cancel { transfer_id, .. } => Some(transfer_id),
        FileTransferMessage::Other => None,
    }
}

/// The transfer that a message is about.
pub fn message_transfer_id(message: &FileTransferMessage) -> (r: Option<TransferId>)
    ensures
        r == subject(*message),
{
    match message {
        FileTransferMessage::Offer(manifest) => Some(manifest.id),
        FileTransferMessage::Accept { transfer_id, .. } => Some(*transfer_id),
        FileTransferMessage::Reject { transfer_id, .. } => Some(*transfer_id),
        FileTransferMessage::Chunk(chunk) => Some(chunk.transfer_id),
        FileTransferMessage::Checkpoint(checkpoint) => Some(checkpoint.id),
        FileTransferMessage::Ack(checkpoint) => Some(checkpoint.id),
        FileTransferMessage::Complete { transfer_id, .. } => Some(*transfer_id),
        FileTransferMessage::Cancel { transfer_id, .. } => Some(*transfer_id),
        FileTransferMessage::Other => None,
    }
}

/// What offers are held against: the limits and the two devices.
#[derive(Clone, Debug)]
pub struct TransferPolicy {
    pub config: FileTransferConfig,
    pub wire: WireLimits,
    pub peer: DeviceId,
    pub local: DeviceId,
}

impl TransferPolicy {
    /// What the policy says of an offer.
    pub open spec fn verdict(self, manifest: TransferManifest, portable: Seq<bool>) -> Result<
        (),
        TransferError,
    > {
        policy_verdict(manifest, self.config, self.wire, self.peer, self.local, portable)
    }

    /// What the policy says of an offer.
    pub fn admits(&self, manifest: &TransferManifest, portable: &Vec<bool>) -> (r: Result<
        (),
        TransferError,
    >)
        requires
            portable.len() == manifest.entries.len(),
        ensures
            r == self.verdict(*manifest, portable@),
    {
        validate_manifest_policy(
            manifest,
            &self.config,
            self.wire,
            self.peer,
            self.local,
            portable,
        )
    }
}

/// Whether verdicts on portability fit a message: one for each offered entry.
pub open spec fn verdicts_fit(message: FileTransferMessage, portable: Seq<bool>) -> bool {
    message matches FileTransferMessage::Offer(manifest) ==> portable.len()
        == manifest.entries@.len()
}

/// Whether the transfer offered here goes ahead of one that the peer offers at
/// the same time: the lower pair of sender and transfer identifiers wins.
pub open spec fn wins(outbound: TransferManifest, incoming: TransferManifest) -> bool {
    outbound.from.0 < incoming.from.0 || (outbound.from == incoming.from && outbound.id.0
        < incoming.id.0)
}

/// Whether the outgoing of two simultaneous offers goes ahead.
pub fn outbound_wins_collision(outbound: &TransferManifest, incoming: &TransferManifest) -> (r:
    bool)
    ensures
        r == wins(*outbound, *incoming),
{
    outbound.from.0 < incoming.from.0 || (outbound.from.0 == incoming.from.0 && outbound.id.0
        < incoming.id.0)
}

/// Of two different offers that cross, each side lets the same one go ahead.
pub proof fn law_crossing_offers_have_one_winner(a: TransferManifest, b: TransferManifest)
    requires
        a.from != b.from || a.id != b.id,
    ensures
        wins(a, b) <==> !wins(b, a),
{
}

/// What to do with a message while no transfer is active.
#[derive(Clone, Copy, PartialEq, Eq, Structural, Debug)]
pub enum IdleAction {
    Answer(Reply),
    Receive,
    Ignore,
}

/// The meaning of a message while no transfer is active on this connection;
/// `slot_free` tells whether none is active on another.
pub open spec fn idle_step(
    message: FileTransferMessage,
    policy: TransferPolicy,
    portable: Seq<bool>,
    slot_free: bool,
) -> IdleAction {
    match message {
        FileTransferMessage::Offer(manifest) => if policy.verdict(manifest, portable) is Err {
            IdleAction::Answer(
                Reply::Reject { transfer_id: manifest.id, reason: PeerReason::PolicyViolation },
            )
        } else if !slot_free {
            IdleAction::Answer(
                Reply::Reject { transfer_id: manifest.id, reason: PeerReason::AnotherActive },
            )
        } else {
            IdleAction::Receive
        },
        FileTransferMessage::Chunk(chunk) => IdleAction::Answer(
            Reply::Cancel { transfer_id: chunk.transfer_id, reason: PeerReason::NoneActive },
        ),
        FileTransferMessage::Other => IdleAction::Ignore,
        _ => IdleAction::Answer(
            Reply::Cancel {
                transfer_id: subject(message)->Some_0,
                reason: PeerReason::NoneMatching,
            },
        ),
    }
}

/// Decides on a message while no transfer is active on this connection.
pub fn handle_idle_message(
    message: &FileTransferMessage,
    policy: &TransferPolicy,
    portable: &Vec<bool>,
    slot_free: bool,
) -> (action: IdleAction)
    requires
        verdicts_fit(*message, portable@),
    ensures
        action == idle_step(*message, *policy, portable@, slot_free),
{
    match message {
        FileTransferMessage::Offer(manifest) => {
            if policy.admits(manifest, portable).is_err() {
                return IdleAction::Answer(
                    Reply::Reject { transfer_id: manifest.id, reason: PeerReason::PolicyViolation },
                );
            }
            if !slot_free {
                return IdleAction::Answer(
                    Reply::Reject { transfer_id: manifest.id, reason: PeerReason::AnotherActive },
                );
            }
            IdleAction::Receive
        },
        FileTransferMessage::Chunk(chunk) => IdleAction::Answer(
            Reply::Cancel { transfer_id: chunk.transfer_id, reason: PeerReason::NoneActive },
        ),
        _ => match message_transfer_id(message) {
            Some(transfer_id) => IdleAction::Answer(
                Reply::Cancel { transfer_id, reason: PeerReason::NoneMatching },
            ),
            None => IdleAction::Ignore,
        },
    }
}

/// What the peer is told when receiving an offered transfer failed.
pub fn inbound_failure_reply(transfer_id: TransferId) -> (reply: Reply)
    ensures
        reply == (Reply::Cancel { transfer_id, reason: PeerReason::ValidationFailed }),
{
    Reply::Cancel { transfer_id, reason: PeerReason::ValidationFailed }
}

/// What to do with a message while a transfer is active.
#[derive(Clone, Copy, PartialEq, Eq, Structural, Debug)]
pub enum ActiveStep {
    Answer(Reply),
    Skip,
    Deliver,
}

/// While a transfer is active other offers are rejected, and messages about
/// another transfer are skipped.
pub open spec fn active_step(message: FileTransferMessage, active: TransferId) -> ActiveStep {
    match message {
        FileTransferMessage::Offer(manifest) => ActiveStep::Answer(
            Reply::Reject { transfer_id: manifest.id, reason: PeerReason::AnotherActive },
        ),
        _ => if subject(message) is Some && subject(message) != Some(active) {
            ActiveStep::Skip
        } else {
            ActiveStep::Deliver
        },
    }
}

/// Decides whether a message reaches the active transfer.
pub fn filter_active_message(message: &FileTransferMessage, active: TransferId) -> (r: ActiveStep)
    ensures
        r == active_step(*message, active),
{
    if let FileTransferMessage::Offer(manifest) = message {
        return ActiveStep::Answer(
            Reply::Reject { transfer_id: manifest.id, reason: PeerReason::AnotherActive },
        );
    }
    match message_transfer_id(message) {
        Some(id) => if id != active {
            ActiveStep::Skip
        } else {
            ActiveStep::Deliver
        },
        None => ActiveStep::Deliver,
    }
}

/// Whether an envelope of the given kind may be read as a file-transfer message.
pub fn check_lane(is_file_transfer: bool) -> (r: Result<(), TransferError>)
    ensures
        r == (if is_file_transfer {
            Ok::<(), TransferError>(())
        } else {
            Err::<(), TransferError>(TransferError::LaneMismatch)
        }),
{
    if is_file_transfer {
        Ok(())
    } else {
        Err(TransferError::LaneMismatch)
    }
}

/// What a scan of the queue found.
#[derive(Clone, Copy, PartialEq, Eq, Structural, Debug)]
pub enum QueueScan {
    Record,
    Empty,
    Invalid,
}

/// How an attempt to send a queued transfer ended.
#[derive(Clone, Copy, PartialEq, Eq, Structural, Debug)]
pub enum OutboundResult {
    Acknowledged,
    Retained,
}

/// What a connection does next.
#[derive(Clone, Copy, PartialEq, Eq, Structural, Debug)]
pub enum LaneStep {
    SendQueued,
    Wait,
    PauseThenScan,
    Scan,
    End,
}

/// A queued record is sent as soon as the transfer slot is free; otherwise the
/// connection waits for a message or the next poll.
pub fn after_scan(slot_free: bool, scan: QueueScan) -> (step: LaneStep)
    ensures
        step == (if slot_free && scan == QueueScan::Record {
            LaneStep::SendQueued
        } else {
            LaneStep::Wait
        }),
{
    if slot_free && scan == QueueScan::Record {
        LaneStep::SendQueued
    } else {
        LaneStep::Wait
    }
}

/// After an attempt the queue is scanned again, with a pause where the record
/// was retained; a failed attempt ends the connection.
pub fn after_outbound(result: &Result<OutboundResult, TransferError>) -> (step: LaneStep)
    ensures
        step == (match *result {
            Ok(OutboundResult::Acknowledged) => LaneStep::Scan,
            Ok(OutboundResult::Retained) => LaneStep::PauseThenScan,
            Err(_) => LaneStep::End,
        }),
{
    match result {
        Ok(OutboundResult::Acknowledged) => LaneStep::Scan,
        Ok(OutboundResult::Retained) => LaneStep::PauseThenScan,
        Err(_) => LaneStep::End,
    }
}

/// Every message but the unknown ones names the transfer that it is about.
pub proof fn law_messages_name_their_transfer(message: FileTransferMessage)
    ensures
        subject(message) is None <==> message is Other,
        message matches FileTransferMessage::Offer(manifest) ==> subject(message) == Some(manifest.id),
        message matches FileTransferMessage::Chunk(chunk) ==> subject(message) == Some(
            chunk.transfer_id,
        ),
        message matches FileTransferMessage::Checkpoint(c) ==> subject(message) == Some(c.id),
        message matches FileTransferMessage::Ack(c) ==> subject(message) == Some(c.id),
        match message {
            FileTransferMessage::Accept { transfer_id, .. } => subject(message) == Some(transfer_id),
            FileTransferMessage::Reject { transfer_id, .. } => subject(message) == Some(transfer_id),
            FileTransferMessage::Complete { transfer_id, .. } => subject(message) == Some(
                transfer_id,
            ),
            FileTransferMessage::Cancel { transfer_id, .. } => subject(message) == Some(transfer_id),
            _ => true,
        },
{
}

/// While nothing is active, an offer is received exactly where the policy admits it
/// and the slot is free; otherwise it is rejected, and the rejection says which of the
/// two it was.
pub proof fn law_idle_lanes_receive_admitted_offers(
    manifest: TransferManifest,
    policy: TransferPolicy,
    portable: Seq<bool>,
    slot_free: bool,
)
    ensures
        ({
            let step = idle_step(FileTransferMessage::Offer(manifest), policy, portable, slot_free);
            let admitted = policy_verdict(
                manifest,
                policy.config,
                policy.wire,
                policy.peer,
                policy.local,
                portable,
            ) is Ok;
            &&& step == IdleAction::Receive <==> admitted && slot_free
            &&& !admitted ==> step == IdleAction::Answer(
                Reply::Reject { transfer_id: manifest.id, reason: PeerReason::PolicyViolation },
            )
            &&& admitted && !slot_free ==> step == IdleAction::Answer(
                Reply::Reject { transfer_id: manifest.id, reason: PeerReason::AnotherActive },
            )
        }),
{
}

/// While nothing is active, whatever is about a transfer and is no offer is answered by
/// cancelling that very transfer, and the unknown is passed over.
pub proof fn law_idle_lanes_cancel_everything_else(
    message: FileTransferMessage,
    policy: TransferPolicy,
    portable: Seq<bool>,
    slot_free: bool,
)
    requires
        !(message is Offer),
    ensures
        match idle_step(message, policy, portable, slot_free) {
            IdleAction::Receive => false,
            IdleAction::Ignore => message is Other,
            IdleAction::Answer(Reply::Cancel { transfer_id, reason }) => {
                &&& subject(message) == Some(transfer_id)
                &&& reason == (if message is Chunk {
                    PeerReason::NoneActive
                } else {
                    PeerReason::NoneMatching
                })
            },
            IdleAction::Answer(_) => false,
        },
{
}

/// While a transfer is active, every message about it reaches it, no message about
/// another one does, and other offers are rejected.
pub proof fn law_active_transfers_get_their_own_messages(
    message: FileTransferMessage,
    active: TransferId,
)
    ensures
        active_step(message, active) == ActiveStep::Deliver <==> !(message is Offer) && (
        message is Other || subject(message) == Some(active)),
        message matches FileTransferMessage::Offer(manifest) ==> active_step(message, active)
            == ActiveStep::Answer(
            Reply::Reject { transfer_id: manifest.id, reason: PeerReason::AnotherActive },
        ),
        !(message is Offer) ==> !(active_step(message, active) is Answer),
{
}

/// Of two crossing offers the one from the lower sender goes ahead, and of two from
/// one sender the one with the lower identifier; what an offer lists has no say.
pub proof fn law_the_lower_offer_goes_ahead(a: TransferManifest, b: TransferManifest)
    ensures
        a.from.0 < b.from.0 ==> wins(a, b) && !wins(b, a),
        a.from == b.from ==> (wins(a, b) <==> a.id.0 < b.id.0),
{
}

} // verus!
