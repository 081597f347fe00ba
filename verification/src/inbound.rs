//! Receiving one offered transfer: from the acceptance to the terminal
//! acknowledgement.

use vstd::prelude::*;

use crate::checkpoint::checkpoint_at;
use crate::checkpoint::checkpoint_before;
use crate::checkpoint::first_file;
use crate::checkpoint::has_files;
use crate::checkpoint::TransferCheckpoint;
use crate::content::Content;
use crate::manifest::WireLimits;
use crate::message::active_step;
use crate::message::filter_active_message;
use crate::message::ActiveStep;
use crate::message::FileTransferMessage;
use crate::message::Reply;
use crate::receive::chunk_verdict;
use crate::receive::completion_verdict;
use crate::receive::keeps_promise;
use crate::receive::persisted;
use crate::receive::plan_fits;
use crate::receive::resumed;
use crate::receive::write_outcome;
use crate::receive::ChunkPlan;
use crate::receive::PartFile;
use crate::receive::ReceiveSession;
use crate::receive::ReceiveWriteOutcome;
use crate::transfer_error::PeerReason;
use crate::transfer_error::TransferError;

verus! {

/// What the receiver is waiting for.
#[derive(Clone, Copy, PartialEq, Eq, Structural, Debug)]
pub enum InboundPhase {
    /// A chunk, or the declaration that the transfer is complete.
    AwaitingChunk,
    /// An admitted chunk to be written.
    Writing { plan: ChunkPlan },
    /// The file of a written chunk to be settled on disk.
    Settling { plan: ChunkPlan, outcome: ReceiveWriteOutcome },
    /// The sender's acknowledgement of a reported checkpoint.
    AwaitingAck { expected: TransferCheckpoint },
    /// Nothing: the transfer is over.
    Finished,
}

/// What the receiver does next.
#[derive(Clone, Copy, PartialEq, Eq, Structural, Debug)]
pub enum InboundAction {
    /// Answer and keep waiting for the same thing.
    Answer(Reply),
    /// Keep waiting.
    Ignore,
    /// Write the admitted chunk to its part file and make it last.
    Write(ChunkPlan),
    /// Leave the part file open, publish it under its name, or set it aside.
    Settle(ReceiveWriteOutcome),
    /// Persist the state, then answer and go on.
    PersistAndAnswer(Reply),
    /// Go on with the next chunk.
    Continue,
    /// Persist the state, then answer: the transfer is over.
    PersistAnswerAndStop(Reply),
    /// Answer: the transfer is over.
    AnswerAndStop(Reply),
    /// The transfer is over.
    Stop,
    /// The peer broke the protocol.
    Fail(TransferError),
}

/// A transfer that is being received.
pub struct InboundTransfer {
    pub session: ReceiveSession,
    pub phase: InboundPhase,
}

/// What the sender is told when a received file is not what was offered.
pub open spec fn content_refusal(session: ReceiveSession) -> Reply {
    Reply::Cancel { transfer_id: session.manifest.id, reason: PeerReason::ContentInvalid }
}

/// The meaning of a message to the receiver.
pub open spec fn receive_step(
    transfer: InboundTransfer,
    message: FileTransferMessage,
    wire: WireLimits,
) -> (InboundPhase, InboundAction) {
    let session = transfer.session;
    match active_step(message, session.manifest.id) {
        ActiveStep::Answer(reply) => (transfer.phase, InboundAction::Answer(reply)),
        ActiveStep::Skip => (transfer.phase, InboundAction::Ignore),
        ActiveStep::Deliver => match (transfer.phase, message) {
            (InboundPhase::AwaitingAck { expected }, FileTransferMessage::Ack(actual)) if actual
                == expected => (InboundPhase::AwaitingChunk, InboundAction::Continue),
            (InboundPhase::AwaitingAck { .. }, FileTransferMessage::Cancel { .. }) => (
                InboundPhase::Finished,
                InboundAction::Stop,
            ),
            (InboundPhase::AwaitingAck { .. }, _) => (
                InboundPhase::Finished,
                InboundAction::Fail(TransferError::InvalidCheckpointAck),
            ),
            (_, FileTransferMessage::Chunk(chunk)) => match chunk_verdict(
                session.manifest,
                session.kept(),
                session.writer is Some,
                chunk,
                wire.max_chunk_size,
            ) {
                Ok(plan) => (InboundPhase::Writing { plan }, InboundAction::Write(plan)),
                Err(_) => (
                    InboundPhase::Finished,
                    InboundAction::AnswerAndStop(content_refusal(session)),
                ),
            },
            (_, FileTransferMessage::Complete { transferred_bytes, .. }) => match completion_verdict(
                session,
                transferred_bytes,
            ) {
                Ok(terminal) => (
                    InboundPhase::Finished,
                    InboundAction::PersistAnswerAndStop(Reply::Ack(terminal)),
                ),
                Err(error) => (InboundPhase::Finished, InboundAction::Fail(error)),
            },
            (_, FileTransferMessage::Cancel { .. }) => (
                InboundPhase::Finished,
                InboundAction::Stop,
            ),
            (_, FileTransferMessage::Reject { .. }) => (
                InboundPhase::Finished,
                InboundAction::Stop,
            ),
            _ => (
                InboundPhase::Finished,
                InboundAction::Fail(TransferError::InvalidTransferMessage),
            ),
        },
    }
}

/// What follows when an admitted chunk was written: its file's content, with the
/// chunk at its end, is judged. A part file that was cut short is refused.
pub open spec fn store_step(session: ReceiveSession, plan: ChunkPlan) -> (InboundPhase, InboundAction) {
    let content = session.writer->Some_0@;
    let outcome = write_outcome(
        plan,
        session.manifest.entries@[plan.index as int],
        content + session.admitted->Some_0.payload@,
    );
    if content.len() != plan.offset {
        (InboundPhase::Finished, InboundAction::AnswerAndStop(content_refusal(session)))
    } else {
        (InboundPhase::Settling { plan, outcome }, InboundAction::Settle(outcome))
    }
}

/// What follows when the file of a written chunk was settled on disk.
pub open spec fn write_step(
    session: ReceiveSession,
    plan: ChunkPlan,
    outcome: ReceiveWriteOutcome,
) -> (InboundPhase, InboundAction) {
    if outcome == ReceiveWriteOutcome::QuarantinedDigestMismatch {
        (
            InboundPhase::Finished,
            if checkpoint_before(session.manifest, plan.index as int) is Ok {
                InboundAction::PersistAnswerAndStop(content_refusal(session))
            } else {
                InboundAction::AnswerAndStop(content_refusal(session))
            },
        )
    } else {
        match checkpoint_at(session.manifest, plan.index as int, plan.end) {
            Ok(c) => (
                InboundPhase::AwaitingAck { expected: c },
                InboundAction::PersistAndAnswer(Reply::Checkpoint(c)),
            ),
            Err(_) => (
                InboundPhase::Finished,
                InboundAction::AnswerAndStop(content_refusal(session)),
            ),
        }
    }
}

impl InboundTransfer {
    /// Whether a message is what the receiver waits for.
    pub open spec fn awaits_message(self) -> bool {
        self.phase is AwaitingChunk || self.phase is AwaitingAck
    }

    /// Every file that counts as received was published with the promised content,
    /// what is being written is about the place that the checkpoint leads to, and
    /// its judgement is that of its content.
    pub open spec fn coherent(self) -> bool {
        let session = self.session;
        &&& session.sound()
        &&& session.countable()
        &&& match self.phase {
            InboundPhase::Writing { plan } => {
                &&& plan_fits(session.manifest, session.kept(), plan)
                &&& session.writer is Some
                &&& session.admitted matches Some(chunk) && chunk.payload@.len() == plan.end
                    - plan.offset
            },
            InboundPhase::Settling { plan, outcome } => {
                &&& plan_fits(session.manifest, session.kept(), plan)
                &&& outcome == write_outcome(
                    plan,
                    session.manifest.entries@[plan.index as int],
                    session.judged@,
                )
                &&& outcome == ReceiveWriteOutcome::Partial <==> session.writer is Some
            },
            _ => true,
        }
    }

    /// Accepts an offer: the answer carries the checkpoint to resume from, which
    /// a transfer without files never has.
    pub fn accept(session: ReceiveSession) -> (r: (InboundTransfer, Reply))
        requires
            session.sound(),
            session.countable(),
        ensures
            r.0.coherent(),
            r.0.session == session,
            r.0.phase == InboundPhase::AwaitingChunk,
            r.1 == (Reply::Accept {
                transfer_id: session.manifest.id,
                checkpoint: if first_file(session.manifest.entries@, 0) is None {
                    None
                } else {
                    resumed(session.state.checkpoint, session.manifest.id)
                },
            }),
    {
        let checkpoint: Option<TransferCheckpoint> = if has_files(&session.manifest) {
            session.state.checkpoint(session.manifest.id)
        } else {
            None
        };
        let transfer_id = session.manifest.id;
        (
            InboundTransfer { session, phase: InboundPhase::AwaitingChunk },
            Reply::Accept { transfer_id, checkpoint },
        )
    }

    /// Takes a message of the sender.
    pub fn on_message(&mut self, message: FileTransferMessage, wire: WireLimits) -> (action:
        InboundAction)
        requires
            old(self).awaits_message(),
            old(self).coherent(),
        ensures
            (final(self).phase, action) == receive_step(*old(self), message, wire),
            final(self).coherent(),
            final(self).session.manifest == old(self).session.manifest,
            final(self).session.judged == old(self).session.judged,
            final(self).session.published == old(self).session.published,
            final(self).session.state.schema_version == old(self).session.state.schema_version,
            final(self).session.state.transfer_id == old(self).session.state.transfer_id,
            final(self).session.state.manifest_sha256 == old(self).session.state.manifest_sha256,
            match action {
                InboundAction::Write(plan) => {
                    &&& message == FileTransferMessage::Chunk(final(self).session.admitted->Some_0)
                    &&& final(self).session.admitted is Some
                    &&& final(self).session.state == old(self).session.state
                    &&& if plan.part_file == PartFile::Open {
                        final(self).session.writer == old(self).session.writer
                    } else {
                        final(self).session.writer matches Some(content) && content@ == Seq::<u8>::empty()
                    }
                },
                InboundAction::PersistAnswerAndStop(Reply::Ack(terminal)) => {
                    &&& final(self).session.state.complete
                    &&& final(self).session.state.checkpoint == Some(persisted(terminal))
                    &&& final(self).session.writer == old(self).session.writer
                    &&& final(self).session.admitted == old(self).session.admitted
                },
                _ => final(self).session == old(self).session,
            },
    {
        let id = self.session.manifest.id;
        match filter_active_message(&message, id) {
            ActiveStep::Answer(reply) => {
                return InboundAction::Answer(reply);
            },
            ActiveStep::Skip => {
                return InboundAction::Ignore;
            },
            ActiveStep::Deliver => {},
        }
        let phase: InboundPhase = self.phase;
        self.phase = InboundPhase::Finished;
        if let InboundPhase::AwaitingAck { expected } = phase {
            return match message {
                FileTransferMessage::Ack(actual) => if actual == expected {
                    self.phase = InboundPhase::AwaitingChunk;
                    InboundAction::Continue
                } else {
                    InboundAction::Fail(TransferError::InvalidCheckpointAck)
                },
                FileTransferMessage::Cancel { .. } => InboundAction::Stop,
                _ => InboundAction::Fail(TransferError::InvalidCheckpointAck),
            };
        }
        match message {
            FileTransferMessage::Chunk(chunk) => {
                let entries: usize = self.session.manifest.entries.len();
                proof {
                    if chunk_verdict(
                        self.session.manifest,
                        self.session.kept(),
                        self.session.writer is Some,
                        chunk,
                        wire.max_chunk_size,
                    ) is Ok {
                        crate::receive::law_admitted_chunks_keep_the_session_valid(
                            self.session.manifest,
                            self.session.kept(),
                            self.session.writer is Some,
                            chunk,
                            wire.max_chunk_size,
                        );
                    }
                }
                match self.session.begin_chunk(chunk, wire) {
                    Ok(plan) => {
                        self.phase = InboundPhase::Writing { plan };
                        InboundAction::Write(plan)
                    },
                    Err(_) => InboundAction::AnswerAndStop(
                        Reply::Cancel { transfer_id: id, reason: PeerReason::ContentInvalid },
                    ),
                }
            },
            FileTransferMessage::Complete { transferred_bytes, .. } => {
                proof {
                    if completion_verdict(self.session, transferred_bytes) is Ok {
                        lemma_completion_stays_sound(self.session, transferred_bytes);
                    }
                }
                match self.session.complete(transferred_bytes) {
                    Ok(terminal) => InboundAction::PersistAnswerAndStop(Reply::Ack(terminal)),
                    Err(error) => InboundAction::Fail(error),
                }
            },
            FileTransferMessage::Cancel { .. } => InboundAction::Stop,
            FileTransferMessage::Reject { .. } => InboundAction::Stop,
            _ => InboundAction::Fail(TransferError::InvalidTransferMessage),
        }
    }

    /// Takes what an earlier session left of the part file that is being written,
    /// up to the chunk's place.
    pub fn on_resumed(&mut self, prefix: Content)
        requires
            old(self).phase is Writing,
            old(self).coherent(),
            prefix.valid(),
        ensures
            final(self).coherent(),
            final(self).phase == old(self).phase,
            final(self).session.writer == Some(prefix),
            final(self).session.manifest == old(self).session.manifest,
            final(self).session.state == old(self).session.state,
            final(self).session.admitted == old(self).session.admitted,
            final(self).session.published == old(self).session.published,
    {
        self.session.resume_part(prefix);
    }

    /// Takes the word that the admitted chunk was written: its file's content is
    /// judged, and what is to become of the file is said.
    pub fn on_written(&mut self) -> (action: InboundAction)
        requires
            old(self).phase is Writing,
            old(self).coherent(),
        ensures
            (final(self).phase, action) == store_step(old(self).session, old(self).phase->Writing_plan),
            final(self).coherent(),
            final(self).session.manifest == old(self).session.manifest,
            final(self).session.state == old(self).session.state,
            final(self).session.published == old(self).session.published,
            final(self).session.admitted is None,
            action is Settle ==> {
                &&& final(self).session.judged@ == old(self).session.writer->Some_0@
                    + old(self).session.admitted->Some_0.payload@
                &&& action == InboundAction::Settle(ReceiveWriteOutcome::Partial) ==> (
                final(self).session.writer matches Some(content) && content@
                    == final(self).session.judged@)
                &&& action != InboundAction::Settle(ReceiveWriteOutcome::Partial)
                    ==> final(self).session.writer is None
            },
    {
        let id = self.session.manifest.id;
        if let InboundPhase::Writing { plan } = self.phase {
            let entries: usize = self.session.manifest.entries.len();
            self.phase = InboundPhase::Finished;
            match self.session.store_chunk(plan) {
                Ok(outcome) => {
                    self.phase = InboundPhase::Settling { plan, outcome };
                    InboundAction::Settle(outcome)
                },
                Err(_) => InboundAction::AnswerAndStop(
                    Reply::Cancel { transfer_id: id, reason: PeerReason::ContentInvalid },
                ),
            }
        } else {
            InboundAction::Ignore
        }
    }

    /// Takes the word that the file of a written chunk was settled on disk: the
    /// chunk counts from now on, or its file is forgotten up to its start.
    pub fn on_settled(&mut self) -> (action: InboundAction)
        requires
            old(self).phase is Settling,
            old(self).coherent(),
        ensures
            (final(self).phase, action) == write_step(
                old(self).session,
                old(self).phase->Settling_plan,
                old(self).phase->outcome,
            ),
            final(self).coherent(),
            final(self).session.manifest == old(self).session.manifest,
            final(self).session.writer == old(self).session.writer,
            final(self).session.admitted == old(self).session.admitted,
            final(self).session.judged == old(self).session.judged,
            final(self).session.state.schema_version == old(self).session.state.schema_version,
            final(self).session.state.transfer_id == old(self).session.state.transfer_id,
            final(self).session.state.manifest_sha256 == old(self).session.state.manifest_sha256,
            final(self).session.published@ == (if old(self).phase->outcome
                == ReceiveWriteOutcome::Published {
                old(self).session.published@.insert(
                    old(self).phase->Settling_plan.index as int,
                    old(self).session.judged@,
                )
            } else {
                old(self).session.published@
            }),
            ({
                let plan = old(self).phase->Settling_plan;
                let manifest = old(self).session.manifest;
                if old(self).phase->outcome == ReceiveWriteOutcome::QuarantinedDigestMismatch {
                    match checkpoint_before(manifest, plan.index as int) {
                        Ok(c) => final(self).session.kept() == c && !final(self).session.state.complete,
                        Err(_) => final(self).session.state == old(self).session.state,
                    }
                } else {
                    match checkpoint_at(manifest, plan.index as int, plan.end) {
                        Ok(c) => {
                            &&& final(self).session.state.checkpoint == Some(persisted(c))
                            &&& final(self).session.kept() == Some(c)
                            &&& final(self).session.state.complete == old(self).session.state.complete
                        },
                        Err(_) => final(self).session.state.checkpoint
                            == old(self).session.state.checkpoint
                            && final(self).session.state.complete == old(self).session.state.complete,
                    }
                }
            }),
    {
        let id = self.session.manifest.id;
        if let InboundPhase::Settling { plan, outcome } = self.phase {
            let entries: usize = self.session.manifest.entries.len();
            let ghost before = self.session;
            self.phase = InboundPhase::Finished;
            let finished: Result<TransferCheckpoint, TransferError> = self.session.finish_chunk(
                plan,
                outcome,
            );
            proof {
                crate::receive::law_wrong_content_is_never_counted(before, self.session, plan);
            }
            match finished {
                Ok(c) => {
                    self.phase = InboundPhase::AwaitingAck { expected: c };
                    InboundAction::PersistAndAnswer(Reply::Checkpoint(c))
                },
                Err(TransferError::DigestMismatch) => InboundAction::PersistAnswerAndStop(
                    Reply::Cancel { transfer_id: id, reason: PeerReason::ContentInvalid },
                ),
                Err(_) => InboundAction::AnswerAndStop(
                    Reply::Cancel { transfer_id: id, reason: PeerReason::ContentInvalid },
                ),
            }
        } else {
            InboundAction::Ignore
        }
    }

    /// Takes the failure to write an admitted chunk or to settle its file: the state
    /// stays as it is.
    pub fn on_write_failed(&mut self) -> (action: InboundAction)
        requires
            old(self).coherent(),
        ensures
            final(self).coherent(),
            final(self).phase == InboundPhase::Finished,
            final(self).session == old(self).session,
            action == InboundAction::AnswerAndStop(content_refusal(old(self).session)),
    {
        self.phase = InboundPhase::Finished;
        InboundAction::AnswerAndStop(
            Reply::Cancel {
                transfer_id: self.session.manifest.id,
                reason: PeerReason::ContentInvalid,
            },
        )
    }
}

/// The terminal checkpoint counts nothing that the checkpoint before it did not.
proof fn lemma_completion_stays_sound(session: ReceiveSession, transferred_bytes: u64)
    requires
        session.sound(),
        completion_verdict(session, transferred_bytes) is Ok,
    ensures
        forall|k: int| #[trigger]
            crate::receive::counted(
                session.manifest,
                resumed(
                    Some(persisted(completion_verdict(session, transferred_bytes)->Ok_0)),
                    session.manifest.id,
                ),
                k,
            ) ==> session.published@.contains_key(k) && keeps_promise(
                session.manifest.entries@[k],
                session.published@[k],
            ),
{
    let manifest = session.manifest;
    assert forall|k: int| 0 <= k < manifest.entries@.len() && !(
    #[trigger] manifest.entries@[k]).is_dir implies session.published@.contains_key(k)
        && keeps_promise(manifest.entries@[k], session.published@[k]) by {
        crate::receive::law_completion_requires_promised_content(session, transferred_bytes, k);
    }
    assert forall|k: int| #[trigger]
        crate::receive::counted(
            manifest,
            resumed(
                Some(persisted(completion_verdict(session, transferred_bytes)->Ok_0)),
                manifest.id,
            ),
            k,
        ) implies session.published@.contains_key(k) && keeps_promise(
        manifest.entries@[k],
        session.published@[k],
    ) by {
        assert(!manifest.entries@[k].is_dir);
    }
}

/// The terminal acknowledgement is given only for a declaration of completeness
/// that every persisted byte supports.
pub proof fn law_terminal_acknowledgement_needs_every_byte(
    transfer: InboundTransfer,
    message: FileTransferMessage,
    wire: WireLimits,
)
    requires
        receive_step(transfer, message, wire).1 is PersistAnswerAndStop,
    ensures
        message matches FileTransferMessage::Complete { transferred_bytes, .. }
            && completion_verdict(transfer.session, transferred_bytes) is Ok,
{
}

/// The terminal acknowledgement is given only once every file of the manifest was
/// published with the content that the manifest promises.
pub proof fn law_terminal_acknowledgement_needs_promised_content(
    transfer: InboundTransfer,
    message: FileTransferMessage,
    wire: WireLimits,
    k: int,
)
    requires
        transfer.coherent(),
        receive_step(transfer, message, wire).1 is PersistAnswerAndStop,
        0 <= k < transfer.session.manifest.entries@.len(),
        !transfer.session.manifest.entries@[k].is_dir,
    ensures
        transfer.session.published@.contains_key(k),
        keeps_promise(
            transfer.session.manifest.entries@[k],
            transfer.session.published@[k],
        ),
{
    if let FileTransferMessage::Complete { transferred_bytes, .. } = message {
        crate::receive::law_completion_requires_promised_content(
            transfer.session,
            transferred_bytes,
            k,
        );
    }
}

/// A file whose last chunk makes its content other than promised is set aside, the
/// sender is told so, and nothing of the file counts.
pub proof fn law_tampered_files_are_refused(session: ReceiveSession, plan: ChunkPlan)
    requires
        plan.final_chunk,
        session.writer is Some,
        session.writer->Some_0@.len() == plan.offset,
        !keeps_promise(
            session.manifest.entries@[plan.index as int],
            session.writer->Some_0@ + session.admitted->Some_0.payload@,
        ),
    ensures
        store_step(session, plan).1 == InboundAction::Settle(
            ReceiveWriteOutcome::QuarantinedDigestMismatch,
        ),
        forall|after: ReceiveSession| #[trigger]
            write_step(after, plan, ReceiveWriteOutcome::QuarantinedDigestMismatch).0
                == InboundPhase::Finished,
        forall|after: ReceiveSession|
            after.manifest == session.manifest ==> {
                let action = #[trigger] write_step(
                    after,
                    plan,
                    ReceiveWriteOutcome::QuarantinedDigestMismatch,
                ).1;
                action == InboundAction::PersistAnswerAndStop(content_refusal(session)) || action
                    == InboundAction::AnswerAndStop(content_refusal(session))
            },
{
}

/// A refused chunk never leads to a checkpoint: the transfer stops with the
/// state as it was.
pub proof fn law_refused_chunks_stop_the_transfer(
    transfer: InboundTransfer,
    chunk: crate::receive::TransferChunk,
    wire: WireLimits,
)
    requires
        transfer.phase == InboundPhase::AwaitingChunk,
        chunk.transfer_id == transfer.session.manifest.id,
        chunk_verdict(
            transfer.session.manifest,
            transfer.session.kept(),
            transfer.session.writer is Some,
            chunk,
            wire.max_chunk_size,
        ) is Err,
    ensures
        receive_step(transfer, FileTransferMessage::Chunk(chunk), wire) == (
            InboundPhase::Finished,
            InboundAction::AnswerAndStop(content_refusal(transfer.session)),
        ),
{
}

/// While a chunk is awaited, one that is admitted is written as planned, and a
/// declaration of completeness is acknowledged with the end that completing gives, or
/// fails as completing does.
pub proof fn law_the_receiver_goes_on_with_what_is_admitted(
    transfer: InboundTransfer,
    chunk: crate::receive::TransferChunk,
    transferred_bytes: u64,
    wire: WireLimits,
)
    requires
        transfer.phase == InboundPhase::AwaitingChunk,
        chunk.transfer_id == transfer.session.manifest.id,
    ensures
        ({
            let session = transfer.session;
            let plan = chunk_verdict(
                session.manifest,
                session.kept(),
                session.writer is Some,
                chunk,
                wire.max_chunk_size,
            );
            let complete = FileTransferMessage::Complete {
                transfer_id: session.manifest.id,
                transferred_bytes,
            };
            let end = completion_verdict(session, transferred_bytes);
            &&& plan is Ok ==> receive_step(transfer, FileTransferMessage::Chunk(chunk), wire) == (
                InboundPhase::Writing { plan: plan->Ok_0 },
                InboundAction::Write(plan->Ok_0),
            )
            &&& end is Ok ==> receive_step(transfer, complete, wire) == (
                InboundPhase::Finished,
                InboundAction::PersistAnswerAndStop(Reply::Ack(end->Ok_0)),
            )
            &&& end is Err ==> receive_step(transfer, complete, wire) == (
                InboundPhase::Finished,
                InboundAction::Fail(end->Err_0),
            )
        }),
{
}

/// The sender's acknowledgement of the very checkpoint that was reported lets the
/// transfer go on; any other one ends it.
pub proof fn law_only_the_reported_checkpoint_goes_on(
    transfer: InboundTransfer,
    expected: TransferCheckpoint,
    actual: TransferCheckpoint,
    wire: WireLimits,
)
    requires
        transfer.phase == (InboundPhase::AwaitingAck { expected }),
        actual.id == transfer.session.manifest.id,
    ensures
        actual == expected ==> receive_step(transfer, FileTransferMessage::Ack(actual), wire) == (
            InboundPhase::AwaitingChunk,
            InboundAction::Continue,
        ),
        actual != expected ==> receive_step(transfer, FileTransferMessage::Ack(actual), wire) == (
            InboundPhase::Finished,
            InboundAction::Fail(TransferError::InvalidCheckpointAck),
        ),
{
}

/// The sender's word that it cancels this transfer ends it without fault, and no
/// message about another transfer changes anything.
pub proof fn law_the_receiver_stops_when_told(
    transfer: InboundTransfer,
    message: FileTransferMessage,
    wire: WireLimits,
)
    requires
        transfer.awaits_message(),
    ensures
        message matches FileTransferMessage::Cancel { transfer_id, .. } && transfer_id
            == transfer.session.manifest.id ==> receive_step(transfer, message, wire) == (
            InboundPhase::Finished,
            InboundAction::Stop,
        ),
        message matches FileTransferMessage::Reject { transfer_id, .. } && transfer_id
            == transfer.session.manifest.id && transfer.phase == InboundPhase::AwaitingChunk
            ==> receive_step(transfer, message, wire) == (
            InboundPhase::Finished,
            InboundAction::Stop,
        ),
        match message {
            FileTransferMessage::Offer(manifest) => receive_step(transfer, message, wire) == (
                transfer.phase,
                InboundAction::Answer(
                    Reply::Reject { transfer_id: manifest.id, reason: PeerReason::AnotherActive },
                ),
            ),
            FileTransferMessage::Chunk(chunk) => chunk.transfer_id != transfer.session.manifest.id
                ==> receive_step(transfer, message, wire) == (transfer.phase, InboundAction::Ignore),
            FileTransferMessage::Cancel { transfer_id, .. } => transfer_id
                != transfer.session.manifest.id ==> receive_step(transfer, message, wire) == (
                transfer.phase,
                InboundAction::Ignore,
            ),
            FileTransferMessage::Complete { transfer_id, .. } => transfer_id
                != transfer.session.manifest.id ==> receive_step(transfer, message, wire) == (
                transfer.phase,
                InboundAction::Ignore,
            ),
            FileTransferMessage::Ack(c) => c.id != transfer.session.manifest.id ==> receive_step(
                transfer,
                message,
                wire,
            ) == (transfer.phase, InboundAction::Ignore),
            _ => true,
        },
{
}

/// A chunk that follows on what was written before is taken: before the end of its
/// file the part stays open, and at the end the file is published exactly where the
/// whole content has the promised digest.
pub proof fn law_written_chunks_are_settled(session: ReceiveSession, plan: ChunkPlan)
    requires
        session.writer is Some,
        session.admitted is Some,
    ensures
        ({
            let before = session.writer->Some_0@;
            let content = before + session.admitted->Some_0.payload@;
            let entry = session.manifest.entries@[plan.index as int];
            let whole = entry.sha256 is Some && entry.sha256->Some_0@
                == crate::outside::sha256_of(content);
            let action = store_step(session, plan).1;
            &&& before.len() != plan.offset ==> store_step(session, plan).0
                == InboundPhase::Finished
            &&& before.len() == plan.offset ==> {
                &&& action == InboundAction::Settle(ReceiveWriteOutcome::Partial)
                    <==> !plan.final_chunk
                &&& action == InboundAction::Settle(ReceiveWriteOutcome::Published)
                    <==> plan.final_chunk && whole
                &&& action is Settle
            }
        }),
{
}

/// Once a chunk is settled and its content stands, the place behind it is persisted
/// and reported, and the sender's word on exactly that is awaited.
pub proof fn law_settled_chunks_are_reported(
    session: ReceiveSession,
    plan: ChunkPlan,
    outcome: ReceiveWriteOutcome,
    c: TransferCheckpoint,
)
    requires
        outcome != ReceiveWriteOutcome::QuarantinedDigestMismatch,
        plan.index <= u32::MAX,
        c.id == session.manifest.id,
        c.file_index == plan.index,
        c.offset == plan.end,
        c.transferred_bytes == crate::checkpoint::file_bytes(
            session.manifest.entries@,
            plan.index as int,
        ) + plan.end,
    ensures
        write_step(session, plan, outcome) == (
            InboundPhase::AwaitingAck { expected: c },
            InboundAction::PersistAndAnswer(Reply::Checkpoint(c)),
        ),
{
}

/// A file whose content is not the promised one ends the transfer with a refusal; the
/// state is kept for a later attempt wherever a checkpoint before that file can be
/// written down.
pub proof fn law_wrong_content_is_refused_and_noted(session: ReceiveSession, plan: ChunkPlan)
    ensures
        ({
            let next = write_step(
                session,
                plan,
                ReceiveWriteOutcome::QuarantinedDigestMismatch,
            );
            &&& next.0 == InboundPhase::Finished
            &&& checkpoint_before(session.manifest, plan.index as int) is Ok ==> next.1
                == InboundAction::PersistAnswerAndStop(content_refusal(session))
            &&& checkpoint_before(session.manifest, plan.index as int) is Err ==> next.1
                == InboundAction::AnswerAndStop(content_refusal(session))
        }),
{
}

} // verus!
