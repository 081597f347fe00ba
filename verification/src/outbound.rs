//! Sending one queued transfer: from the offer to the terminal acknowledgement.

use vstd::prelude::*;

use crate::checkpoint::checkpoint_after_chunk;
use crate::checkpoint::checkpoint_at;
use crate::checkpoint::checkpoint_verdict;
use crate::checkpoint::first_file;
use crate::checkpoint::lemma_first_file;
use crate::checkpoint::position_after;
use crate::checkpoint::terminal_checkpoint;
use crate::checkpoint::terminal_of;
use crate::checkpoint::validate_checkpoint;
use crate::checkpoint::TransferCheckpoint;
use crate::content::Content;
use crate::manifest::TransferManifest;
use crate::message::active_step;
use crate::message::filter_active_message;
use crate::message::message_transfer_id;
use crate::message::outbound_wins_collision;
use crate::message::subject;
use crate::message::verdicts_fit;
use crate::message::wins;
use crate::message::ActiveStep;
use crate::message::FileTransferMessage;
use crate::message::Reply;
use crate::message::TransferPolicy;
use crate::receive::chunk_verdict;
use crate::receive::keeps_promise;
use crate::receive::TransferChunk;
use crate::sources::QueuedSource;
use crate::transfer_error::PeerReason;
use crate::transfer_error::TransferError;

verus! {

/// What the sender is waiting for.
#[derive(Clone, Copy, PartialEq, Eq, Structural, Debug)]
pub enum OutboundPhase {
    /// The peer's answer to the offer.
    Offered,
    /// A file to be opened, with all of it before the offset to be read again.
    Opening { file_index: usize, resume: Option<TransferCheckpoint>, offset: u64 },
    /// The next chunk of a file that is being read.
    Reading { file_index: usize, resume: Option<TransferCheckpoint> },
    /// The peer's word that a chunk is persisted.
    AwaitingCheckpoint {
        file_index: usize,
        resume: Option<TransferCheckpoint>,
        expected: TransferCheckpoint,
    },
    /// The peer's word that the whole transfer is persisted.
    AwaitingTerminal { terminal: TransferCheckpoint },
    /// Nothing: the transfer is over.
    Finished,
}

/// What the sender does next.
#[derive(Clone, Copy, PartialEq, Eq, Structural, Debug)]
pub enum OutboundAction {
    /// Answer and keep waiting for the same thing.
    Answer(Reply),
    /// Keep waiting.
    Ignore,
    /// Open a file, read all of it before the offset again, and stop there.
    OpenSource { file_index: usize, offset: u64 },
    /// Read the next chunk of the open file.
    Read,
    /// Send the chunk that was read.
    SendChunk,
    /// Acknowledge the checkpoint and read the next chunk.
    AcknowledgeAndRead(Reply),
    /// Tell the peer that everything was sent.
    DeclareComplete(Reply),
    /// Remove the record from the queue: the transfer is acknowledged.
    RemoveRecord,
    /// Give way to the peer's offer and keep the record.
    ReceiveInstead,
    /// Keep the record and try again later.
    Retain,
    /// Answer, keep the record and try again later.
    AnswerAndRetain(Reply),
    /// Give up the connection; the record stays.
    Fail(TransferError),
    /// Answer, then give up the connection; the record stays.
    AnswerAndFail(Reply, TransferError),
}

/// A transfer that is being sent, with the content of the open file as far as it
/// was read and, for the proofs alone, the content of each file that was sent.
pub struct OutboundTransfer {
    pub manifest: TransferManifest,
    pub sources: Vec<QueuedSource>,
    pub phase: OutboundPhase,
    pub content: Option<Content>,
    pub sent: Ghost<Map<int, Seq<u8>>>,
}

/// From where a file is sent when the peer resumes at a checkpoint: files
/// before it are done, the checkpointed file goes on, later ones start anew.
pub open spec fn resume_offset(
    manifest: TransferManifest,
    index: int,
    resume: Option<TransferCheckpoint>,
) -> u64 {
    match resume {
        None => 0,
        Some(c) => if index < c.file_index {
            manifest.entries@[index].size_bytes
        } else if index == c.file_index {
            c.offset
        } else {
            0
        },
    }
}

/// What follows once everything before entry `from` was sent: the next file is
/// opened, or the transfer is declared complete.
pub open spec fn proceed(
    manifest: TransferManifest,
    sources: Seq<QueuedSource>,
    from: int,
    resume: Option<TransferCheckpoint>,
) -> (OutboundPhase, OutboundAction) {
    match first_file(manifest.entries@, from) {
        None => {
            let complete = Reply::Complete {
                transfer_id: manifest.id,
                transferred_bytes: manifest.total_bytes,
            };
            match terminal_of(manifest) {
                Ok(terminal) => (
                    OutboundPhase::AwaitingTerminal { terminal },
                    OutboundAction::DeclareComplete(complete),
                ),
                Err(error) => (
                    OutboundPhase::Finished,
                    OutboundAction::AnswerAndFail(complete, error),
                ),
            }
        },
        Some(i) => if i >= sources.len() {
            (OutboundPhase::Finished, OutboundAction::Fail(TransferError::OrderingDiverged))
        } else if sources[i].is_dir {
            (OutboundPhase::Finished, OutboundAction::Fail(TransferError::TypesDiverged))
        } else if i > u32::MAX {
            (OutboundPhase::Finished, OutboundAction::Fail(TransferError::WireIndexTooLarge))
        } else if manifest.entries@[i].sha256 is None {
            (OutboundPhase::Finished, OutboundAction::Fail(TransferError::MissingDigest))
        } else {
            (
                OutboundPhase::Opening {
                    file_index: i as usize,
                    resume,
                    offset: resume_offset(manifest, i, resume),
                },
                OutboundAction::OpenSource {
                    file_index: i as usize,
                    offset: resume_offset(manifest, i, resume),
                },
            )
        },
    }
}

/// The meaning of a message while the offer is unanswered.
pub open spec fn offer_answer(
    manifest: TransferManifest,
    sources: Seq<QueuedSource>,
    message: FileTransferMessage,
    policy: TransferPolicy,
    portable: Seq<bool>,
) -> (OutboundPhase, OutboundAction) {
    match message {
        FileTransferMessage::Offer(incoming) => if policy.verdict(incoming, portable) is Err {
            (
                OutboundPhase::Offered,
                OutboundAction::Answer(
                    Reply::Reject { transfer_id: incoming.id, reason: PeerReason::PolicyViolation },
                ),
            )
        } else if wins(manifest, incoming) {
            (
                OutboundPhase::Offered,
                OutboundAction::Answer(
                    Reply::Reject { transfer_id: incoming.id, reason: PeerReason::CollisionLoser },
                ),
            )
        } else {
            (OutboundPhase::Finished, OutboundAction::ReceiveInstead)
        },
        _ => if subject(message) is Some && subject(message) != Some(manifest.id) {
            (OutboundPhase::Offered, OutboundAction::Ignore)
        } else {
            match message {
                FileTransferMessage::Accept { checkpoint: Some(c), .. } => match checkpoint_verdict(
                    manifest,
                    c,
                    false,
                ) {
                    Err(error) => (OutboundPhase::Finished, OutboundAction::Fail(error)),
                    Ok(_) => proceed(manifest, sources, 0, Some(c)),
                },
                FileTransferMessage::Accept { checkpoint: None, .. } => proceed(
                    manifest,
                    sources,
                    0,
                    None,
                ),
                FileTransferMessage::Reject { .. } => (
                    OutboundPhase::Finished,
                    OutboundAction::Retain,
                ),
                FileTransferMessage::Cancel { .. } => (
                    OutboundPhase::Finished,
                    OutboundAction::Retain,
                ),
                _ => (
                    OutboundPhase::Finished,
                    OutboundAction::AnswerAndFail(
                        Reply::Cancel {
                            transfer_id: manifest.id,
                            reason: PeerReason::UnexpectedOfferResponse,
                        },
                        TransferError::InvalidOfferResponse,
                    ),
                ),
            }
        },
    }
}

/// The meaning of a message while a chunk or the whole transfer awaits the
/// peer's word.
pub open spec fn progress_answer(
    manifest: TransferManifest,
    phase: OutboundPhase,
    message: FileTransferMessage,
) -> (OutboundPhase, OutboundAction) {
    match active_step(message, manifest.id) {
        ActiveStep::Answer(reply) => (phase, OutboundAction::Answer(reply)),
        ActiveStep::Skip => (phase, OutboundAction::Ignore),
        ActiveStep::Deliver => match (phase, message) {
            (
                OutboundPhase::AwaitingCheckpoint { file_index, resume, expected },
                FileTransferMessage::Checkpoint(actual),
            ) if actual == expected => (
                OutboundPhase::Reading { file_index, resume },
                OutboundAction::AcknowledgeAndRead(Reply::Ack(actual)),
            ),
            (
                OutboundPhase::AwaitingTerminal { terminal },
                FileTransferMessage::Ack(actual),
            ) if actual == terminal => (OutboundPhase::Finished, OutboundAction::RemoveRecord),
            (_, FileTransferMessage::Reject { .. }) => (
                OutboundPhase::Finished,
                OutboundAction::Retain,
            ),
            (_, FileTransferMessage::Cancel { .. }) => (
                OutboundPhase::Finished,
                OutboundAction::Retain,
            ),
            (OutboundPhase::AwaitingTerminal { .. }, _) => (
                OutboundPhase::Finished,
                OutboundAction::AnswerAndFail(
                    Reply::Cancel {
                        transfer_id: manifest.id,
                        reason: PeerReason::InvalidTerminalAck,
                    },
                    TransferError::InvalidTerminalAck,
                ),
            ),
            _ => (
                OutboundPhase::Finished,
                OutboundAction::AnswerAndFail(
                    Reply::Cancel {
                        transfer_id: manifest.id,
                        reason: PeerReason::InvalidCheckpoint,
                    },
                    TransferError::InvalidPersistenceCheckpoint,
                ),
            ),
        },
    }
}

/// The meaning of a message to the sender.
pub open spec fn message_step(
    transfer: OutboundTransfer,
    message: FileTransferMessage,
    policy: TransferPolicy,
    portable: Seq<bool>,
) -> (OutboundPhase, OutboundAction) {
    if transfer.phase == OutboundPhase::Offered {
        offer_answer(transfer.manifest, transfer.sources@, message, policy, portable)
    } else {
        progress_answer(transfer.manifest, transfer.phase, message)
    }
}

/// What follows when a chunk was read from the current file.
pub open spec fn chunk_step(
    manifest: TransferManifest,
    file_index: usize,
    resume: Option<TransferCheckpoint>,
    offset: u64,
    plain_len: u32,
) -> (OutboundPhase, OutboundAction) {
    if offset + plain_len > u64::MAX {
        (OutboundPhase::Finished, OutboundAction::Fail(TransferError::ChunkOffsetOverflow))
    } else {
        match checkpoint_at(manifest, file_index as int, (offset + plain_len) as u64) {
            Err(error) => (OutboundPhase::Finished, OutboundAction::Fail(error)),
            Ok(expected) => (
                OutboundPhase::AwaitingCheckpoint { file_index, resume, expected },
                OutboundAction::SendChunk,
            ),
        }
    }
}

/// How much of the open file is to be read for the next chunk: what is left of it, as
/// far as a chunk may hold it, and nothing at its end. An empty file is sent as one
/// empty chunk, unless it was sent before the accepted checkpoint.
pub open spec fn wanted_next(
    size: int,
    read: int,
    covered: bool,
    sent_any: bool,
    max_chunk: u32,
) -> Option<u32> {
    if read < size {
        Some(
            if size - read <= max_chunk {
                (size - read) as u32
            } else {
                max_chunk
            },
        )
    } else if size == 0 && !covered && !sent_any {
        Some(0)
    } else {
        None
    }
}

/// Whether an accepted checkpoint lies at or behind a file.
pub open spec fn covered_by(resume: Option<TransferCheckpoint>, file_index: usize) -> bool {
    resume matches Some(checkpoint) && file_index <= checkpoint.file_index
}

/// What follows when the current file was read to its end.
pub open spec fn file_end_step(
    manifest: TransferManifest,
    sources: Seq<QueuedSource>,
    index: int,
    resume: Option<TransferCheckpoint>,
    content: Seq<u8>,
) -> (OutboundPhase, OutboundAction) {
    if keeps_promise(manifest.entries@[index], content) {
        proceed(manifest, sources, index + 1, resume)
    } else {
        (
            OutboundPhase::Finished,
            OutboundAction::AnswerAndRetain(
                Reply::Cancel { transfer_id: manifest.id, reason: PeerReason::SourceChanged },
            ),
        )
    }
}

/// Whether every file before an entry was read with the content that the manifest
/// promises.
pub open spec fn unchanged_before(
    manifest: TransferManifest,
    sent: Map<int, Seq<u8>>,
    n: int,
) -> bool {
    forall|k: int|
        0 <= k < n && !(#[trigger] manifest.entries@[k]).is_dir ==> sent.contains_key(k)
            && keeps_promise(manifest.entries@[k], sent[k])
}

/// The chunk that a piece of a file makes.
pub open spec fn makes_chunk(
    chunk: TransferChunk,
    manifest: TransferManifest,
    file_index: usize,
    offset: int,
    payload: Seq<u8>,
) -> bool {
    &&& chunk.transfer_id == manifest.id
    &&& chunk.file_index == file_index
    &&& chunk.offset == offset
    &&& chunk.plain_len == payload.len()
    &&& !chunk.compressed
    &&& chunk.final_chunk_for_file == (offset + payload.len()
        == manifest.entries@[file_index as int].size_bytes)
    &&& chunk.payload@ == payload
}

impl OutboundTransfer {
    /// Whether a message is what the sender waits for.
    pub open spec fn awaits_message(self) -> bool {
        self.phase is Offered || self.phase is AwaitingCheckpoint || self.phase is AwaitingTerminal
    }

    /// Whether the file that is being read is one of the manifest's files.
    pub open spec fn reads_an_entry(self) -> bool {
        match self.phase {
            OutboundPhase::Opening { file_index, .. } => file_index < self.manifest.entries@.len()
                && file_index <= u32::MAX,
            OutboundPhase::Reading { file_index, .. } => file_index < self.manifest.entries@.len()
                && file_index <= u32::MAX,
            OutboundPhase::AwaitingCheckpoint { file_index, .. } => file_index
                < self.manifest.entries@.len() && file_index <= u32::MAX,
            _ => true,
        }
    }

    /// Whether the content of the open file is at hand.
    pub open spec fn holds_content(self) -> bool {
        self.phase is Reading || self.phase is AwaitingCheckpoint ==> (self.content matches Some(
            content,
        ) && content.valid())
    }

    /// Every file before the one that is at hand was read as it was queued.
    pub open spec fn sound(self) -> bool {
        match self.phase {
            OutboundPhase::Opening { file_index, .. } => unchanged_before(
                self.manifest,
                self.sent@,
                file_index as int,
            ),
            OutboundPhase::Reading { file_index, .. } => unchanged_before(
                self.manifest,
                self.sent@,
                file_index as int,
            ),
            OutboundPhase::AwaitingCheckpoint { file_index, .. } => unchanged_before(
                self.manifest,
                self.sent@,
                file_index as int,
            ),
            OutboundPhase::AwaitingTerminal { .. } => unchanged_before(
                self.manifest,
                self.sent@,
                self.manifest.entries@.len() as int,
            ),
            _ => true,
        }
    }

    /// What the peer is to confirm is what was sent: the place that the open file was
    /// read to, or the end of everything that was offered.
    pub open spec fn awaits_its_own(self) -> bool {
        match self.phase {
            OutboundPhase::AwaitingCheckpoint { file_index, expected, .. } => checkpoint_at(
                self.manifest,
                file_index as int,
                self.content->Some_0@.len() as u64,
            ) == Ok::<TransferCheckpoint, TransferError>(expected),
            OutboundPhase::AwaitingTerminal { terminal } => terminal_of(self.manifest) == Ok::<
                TransferCheckpoint,
                TransferError,
            >(terminal),
            _ => true,
        }
    }

    /// What holds between the steps of a transfer.
    pub open spec fn coherent(self) -> bool {
        self.reads_an_entry() && self.holds_content() && self.sound() && self.awaits_its_own()
    }

    /// A transfer whose offer has just been sent.
    pub fn offered(manifest: TransferManifest, sources: Vec<QueuedSource>) -> (t: Self)
        ensures
            t.manifest == manifest,
            t.sources == sources,
            t.phase == OutboundPhase::Offered,
            t.content is None,
            t.sent@ == Map::<int, Seq<u8>>::empty(),
            t.coherent(),
    {
        OutboundTransfer {
            manifest,
            sources,
            phase: OutboundPhase::Offered,
            content: None,
            sent: Ghost(Map::empty()),
        }
    }

    fn advance(&mut self, from: usize, resume: Option<TransferCheckpoint>) -> (action:
        OutboundAction)
        requires
            from <= old(self).manifest.entries.len(),
            unchanged_before(old(self).manifest, old(self).sent@, from as int),
        ensures
            (final(self).phase, action) == proceed(
                old(self).manifest,
                old(self).sources@,
                from as int,
                resume,
            ),
            final(self).manifest == old(self).manifest,
            final(self).sources == old(self).sources,
            final(self).content == old(self).content,
            final(self).sent == old(self).sent,
            final(self).coherent(),
    {
        proof {
            lemma_first_file(self.manifest.entries@, from as int);
        }
        let mut i: usize = from;
        while i < self.manifest.entries.len() && self.manifest.entries[i].is_dir
            invariant
                i <= self.manifest.entries.len(),
                first_file(self.manifest.entries@, from as int) == first_file(
                    self.manifest.entries@,
                    i as int,
                ),
            decreases self.manifest.entries.len() - i,
        {
            i += 1;
        }
        if i >= self.manifest.entries.len() {
            let complete = Reply::Complete {
                transfer_id: self.manifest.id,
                transferred_bytes: self.manifest.total_bytes,
            };
            return match terminal_checkpoint(&self.manifest) {
                Ok(terminal) => {
                    self.phase = OutboundPhase::AwaitingTerminal { terminal };
                    OutboundAction::DeclareComplete(complete)
                },
                Err(error) => {
                    self.phase = OutboundPhase::Finished;
                    OutboundAction::AnswerAndFail(complete, error)
                },
            };
        }
        self.phase = OutboundPhase::Finished;
        if i >= self.sources.len() {
            return OutboundAction::Fail(TransferError::OrderingDiverged);
        }
        if self.sources[i].is_dir {
            return OutboundAction::Fail(TransferError::TypesDiverged);
        }
        if i > 0xffff_ffff {
            return OutboundAction::Fail(TransferError::WireIndexTooLarge);
        }
        if self.manifest.entries[i].sha256.is_none() {
            return OutboundAction::Fail(TransferError::MissingDigest);
        }
        let offset: u64 = match resume {
            None => 0,
            Some(c) => if i < c.file_index as usize {
                self.manifest.entries[i].size_bytes
            } else if i == c.file_index as usize {
                c.offset
            } else {
                0
            },
        };
        self.phase = OutboundPhase::Opening { file_index: i, resume, offset };
        OutboundAction::OpenSource { file_index: i, offset }
    }

    fn on_offer_answer(
        &mut self,
        message: &FileTransferMessage,
        policy: &TransferPolicy,
        portable: &Vec<bool>,
    ) -> (action: OutboundAction)
        requires
            old(self).phase is Offered,
            verdicts_fit(*message, portable@),
        ensures
            (final(self).phase, action) == offer_answer(
                old(self).manifest,
                old(self).sources@,
                *message,
                *policy,
                portable@,
            ),
            final(self).manifest == old(self).manifest,
            final(self).sources == old(self).sources,
            final(self).content == old(self).content,
            final(self).sent == old(self).sent,
            final(self).coherent(),
    {
        if let FileTransferMessage::Offer(incoming) = message {
            if policy.admits(incoming, portable).is_err() {
                return OutboundAction::Answer(
                    Reply::Reject { transfer_id: incoming.id, reason: PeerReason::PolicyViolation },
                );
            }
            if outbound_wins_collision(&self.manifest, incoming) {
                return OutboundAction::Answer(
                    Reply::Reject { transfer_id: incoming.id, reason: PeerReason::CollisionLoser },
                );
            }
            self.phase = OutboundPhase::Finished;
            return OutboundAction::ReceiveInstead;
        }
        if let Some(id) = message_transfer_id(message) {
            if id != self.manifest.id {
                return OutboundAction::Ignore;
            }
        }
        match message {
            FileTransferMessage::Accept { checkpoint, .. } => {
                if let Some(c) = checkpoint {
                    match validate_checkpoint(&self.manifest, *c, false) {
                        Err(error) => {
                            self.phase = OutboundPhase::Finished;
                            return OutboundAction::Fail(error);
                        },
                        Ok(_) => {},
                    }
                }
                self.advance(0, *checkpoint)
            },
            FileTransferMessage::Reject { .. } => {
                self.phase = OutboundPhase::Finished;
                OutboundAction::Retain
            },
            FileTransferMessage::Cancel { .. } => {
                self.phase = OutboundPhase::Finished;
                OutboundAction::Retain
            },
            _ => {
                self.phase = OutboundPhase::Finished;
                OutboundAction::AnswerAndFail(
                    Reply::Cancel {
                        transfer_id: self.manifest.id,
                        reason: PeerReason::UnexpectedOfferResponse,
                    },
                    TransferError::InvalidOfferResponse,
                )
            },
        }
    }

    fn on_progress_answer(&mut self, message: &FileTransferMessage) -> (action: OutboundAction)
        requires
            old(self).phase is AwaitingCheckpoint || old(self).phase is AwaitingTerminal,
            old(self).coherent(),
        ensures
            (final(self).phase, action) == progress_answer(
                old(self).manifest,
                old(self).phase,
                *message,
            ),
            final(self).manifest == old(self).manifest,
            final(self).sources == old(self).sources,
            final(self).content == old(self).content,
            final(self).sent == old(self).sent,
            final(self).coherent(),
    {
        match filter_active_message(message, self.manifest.id) {
            ActiveStep::Answer(reply) => {
                return OutboundAction::Answer(reply);
            },
            ActiveStep::Skip => {
                return OutboundAction::Ignore;
            },
            ActiveStep::Deliver => {},
        }
        let phase: OutboundPhase = self.phase;
        self.phase = OutboundPhase::Finished;
        match message {
            FileTransferMessage::Reject { .. } => {
                return OutboundAction::Retain;
            },
            FileTransferMessage::Cancel { .. } => {
                return OutboundAction::Retain;
            },
            _ => {},
        }
        let id = self.manifest.id;
        match phase {
            OutboundPhase::AwaitingCheckpoint { file_index, resume, expected } => {
                if let FileTransferMessage::Checkpoint(actual) = message {
                    if *actual == expected {
                        self.phase = OutboundPhase::Reading { file_index, resume };
                        return OutboundAction::AcknowledgeAndRead(Reply::Ack(*actual));
                    }
                }
                OutboundAction::AnswerAndFail(
                    Reply::Cancel { transfer_id: id, reason: PeerReason::InvalidCheckpoint },
                    TransferError::InvalidPersistenceCheckpoint,
                )
            },
            OutboundPhase::AwaitingTerminal { terminal } => {
                if let FileTransferMessage::Ack(actual) = message {
                    if *actual == terminal {
                        return OutboundAction::RemoveRecord;
                    }
                }
                OutboundAction::AnswerAndFail(
                    Reply::Cancel { transfer_id: id, reason: PeerReason::InvalidTerminalAck },
                    TransferError::InvalidTerminalAck,
                )
            },
            _ => OutboundAction::Ignore,
        }
    }

    /// Takes a message of the peer.
    pub fn on_message(
        &mut self,
        message: &FileTransferMessage,
        policy: &TransferPolicy,
        portable: &Vec<bool>,
    ) -> (action: OutboundAction)
        requires
            old(self).awaits_message(),
            old(self).coherent(),
            verdicts_fit(*message, portable@),
        ensures
            (final(self).phase, action) == message_step(
                *old(self),
                *message,
                *policy,
                portable@,
            ),
            final(self).manifest == old(self).manifest,
            final(self).sources == old(self).sources,
            final(self).content == old(self).content,
            final(self).sent == old(self).sent,
            final(self).coherent(),
    {
        if self.phase == OutboundPhase::Offered {
            self.on_offer_answer(message, policy, portable)
        } else {
            self.on_progress_answer(message)
        }
    }

    /// Takes the file that was opened, with all of it before the offset read again.
    /// A file that ends before the offset was cut short.
    pub fn on_opened(&mut self, prefix: Content) -> (action: OutboundAction)
        requires
            old(self).phase is Opening,
            old(self).coherent(),
            prefix.valid(),
        ensures
            if prefix@.len() == old(self).phase->offset {
                &&& final(self).phase == (OutboundPhase::Reading {
                    file_index: old(self).phase->Opening_file_index,
                    resume: old(self).phase->Opening_resume,
                })
                &&& action == OutboundAction::Read
                &&& final(self).content == Some(prefix)
            } else {
                &&& final(self).phase == OutboundPhase::Finished
                &&& action == OutboundAction::Fail(TransferError::PrefixTruncated)
            },
            final(self).manifest == old(self).manifest,
            final(self).sources == old(self).sources,
            final(self).sent == old(self).sent,
            final(self).coherent(),
    {
        if let OutboundPhase::Opening { file_index, resume, offset } = self.phase {
            if prefix.len() != offset {
                self.phase = OutboundPhase::Finished;
                return OutboundAction::Fail(TransferError::PrefixTruncated);
            }
            self.content = Some(prefix);
            self.phase = OutboundPhase::Reading { file_index, resume };
            OutboundAction::Read
        } else {
            OutboundAction::Ignore
        }
    }

    /// How much to read of the open file for the next chunk, if anything is left of it.
    /// `sent_any` tells whether a chunk of the file was sent since it was opened.
    pub fn next_read(&self, sent_any: bool, max_chunk: u32) -> (wanted: Option<u32>)
        requires
            self.phase is Reading,
            self.coherent(),
        ensures
            wanted == wanted_next(
                self.manifest.entries@[self.phase->Reading_file_index as int].size_bytes as int,
                self.content->Some_0@.len() as int,
                covered_by(self.phase->Reading_resume, self.phase->Reading_file_index),
                sent_any,
                max_chunk,
            ),
    {
        if let (OutboundPhase::Reading { file_index, resume }, Some(content)) = (
            self.phase,
            &self.content,
        ) {
            let size: u64 = self.manifest.entries[file_index].size_bytes;
            let read: u64 = content.len();
            if read < size {
                let left: u64 = size - read;
                return Some(
                    if left <= max_chunk as u64 {
                        left as u32
                    } else {
                        max_chunk
                    },
                );
            }
            let covered: bool = match resume {
                Some(checkpoint) => file_index as u64 <= checkpoint.file_index as u64,
                None => false,
            };
            if size == 0 && !covered && !sent_any {
                return Some(0);
            }
        }
        None
    }

    /// Takes the next piece of the current file and makes it the chunk that starts
    /// where the file was read to.
    pub fn on_chunk(&mut self, payload: Vec<u8>) -> (r: (OutboundAction, Option<TransferChunk>))
        requires
            old(self).phase is Reading,
            old(self).coherent(),
            payload@.len() <= u32::MAX,
        ensures
            ({
                let index = old(self).phase->Reading_file_index;
                let read = old(self).content->Some_0@;
                &&& (final(self).phase, r.0) == chunk_step(
                    old(self).manifest,
                    index,
                    old(self).phase->Reading_resume,
                    read.len() as u64,
                    payload@.len() as u32,
                )
                &&& r.1 is Some <==> r.0 == OutboundAction::SendChunk
                &&& r.1 matches Some(chunk) ==> makes_chunk(
                    chunk,
                    old(self).manifest,
                    index,
                    read.len() as int,
                    payload@,
                ) && final(self).content->Some_0@ == read + payload@
            }),
            final(self).manifest == old(self).manifest,
            final(self).sources == old(self).sources,
            final(self).sent == old(self).sent,
            final(self).coherent(),
    {
        let mut held: Option<Content> = None;
        std::mem::swap(&mut held, &mut self.content);
        if let (OutboundPhase::Reading { file_index, resume }, Some(mut content)) = (
            self.phase,
            held,
        ) {
            self.phase = OutboundPhase::Finished;
            let offset: u64 = content.len();
            if !content.absorb(payload.as_slice()) {
                return (OutboundAction::Fail(TransferError::ChunkOffsetOverflow), None);
            }
            let end: u64 = content.len();
            match checkpoint_after_chunk(&self.manifest, file_index, end) {
                Err(error) => (OutboundAction::Fail(error), None),
                Ok(expected) => {
                    self.phase =
                    OutboundPhase::AwaitingCheckpoint { file_index, resume, expected };
                    self.content = Some(content);
                    let chunk = TransferChunk {
                        transfer_id: self.manifest.id,
                        file_index: file_index as u32,
                        offset,
                        plain_len: payload.len() as u32,
                        compressed: false,
                        final_chunk_for_file: end == self.manifest.entries[file_index].size_bytes,
                        payload,
                    };
                    (OutboundAction::SendChunk, Some(chunk))
                },
            }
        } else {
            (OutboundAction::Ignore, None)
        }
    }

    /// Takes the end of the current file. Content that changed since it was queued,
    /// before or after the place where sending went on, is not declared complete.
    pub fn on_file_end(&mut self) -> (action: OutboundAction)
        requires
            old(self).phase is Reading,
            old(self).coherent(),
        ensures
            (final(self).phase, action) == file_end_step(
                old(self).manifest,
                old(self).sources@,
                old(self).phase->Reading_file_index as int,
                old(self).phase->Reading_resume,
                old(self).content->Some_0@,
            ),
            final(self).sent@ == (if keeps_promise(
                old(self).manifest.entries@[old(self).phase->Reading_file_index as int],
                old(self).content->Some_0@,
            ) {
                old(self).sent@.insert(
                    old(self).phase->Reading_file_index as int,
                    old(self).content->Some_0@,
                )
            } else {
                old(self).sent@
            }),
            final(self).content is None,
            final(self).manifest == old(self).manifest,
            final(self).sources == old(self).sources,
            final(self).coherent(),
    {
        let mut held: Option<Content> = None;
        std::mem::swap(&mut held, &mut self.content);
        if let (OutboundPhase::Reading { file_index, resume }, Some(content)) = (self.phase, held) {
            let ghost read = content@;
            let digest = content.finish();
            let unchanged: bool = match &self.manifest.entries[file_index].sha256 {
                Some(promised) => digest.keeps(promised),
                None => false,
            };
            if !unchanged {
                self.phase = OutboundPhase::Finished;
                return OutboundAction::AnswerAndRetain(
                    Reply::Cancel {
                        transfer_id: self.manifest.id,
                        reason: PeerReason::SourceChanged,
                    },
                );
            }
            self.sent = Ghost(self.sent@.insert(file_index as int, read));
            assert(file_index < self.manifest.entries.len());
            self.advance(file_index + 1, resume)
        } else {
            OutboundAction::Ignore
        }
    }
}

/// Whatever changed in a file since it was queued, in the part that was sent now or
/// in the part before the accepted checkpoint, the transfer is cancelled and its
/// record stays: completion is not declared.
pub proof fn law_changed_sources_are_cancelled(
    manifest: TransferManifest,
    sources: Seq<QueuedSource>,
    index: int,
    resume: Option<TransferCheckpoint>,
    prefix: Seq<u8>,
    sent_now: Seq<u8>,
)
    requires
        !keeps_promise(manifest.entries@[index], prefix + sent_now),
    ensures
        file_end_step(manifest, sources, index, resume, prefix + sent_now) == (
            OutboundPhase::Finished,
            OutboundAction::AnswerAndRetain(
                Reply::Cancel { transfer_id: manifest.id, reason: PeerReason::SourceChanged },
            ),
        ),
{
}

/// Completion is awaited only of a transfer all of whose files were read with the
/// content that the manifest promises.
pub proof fn law_completion_is_declared_of_unchanged_files(transfer: OutboundTransfer, k: int)
    requires
        transfer.coherent(),
        transfer.phase is AwaitingTerminal,
        0 <= k < transfer.manifest.entries@.len(),
        !transfer.manifest.entries@[k].is_dir,
    ensures
        transfer.sent@.contains_key(k),
        keeps_promise(transfer.manifest.entries@[k], transfer.sent@[k]),
{
}

/// Sending goes on after a chunk only when the peer confirms exactly the place that the
/// file was read to.
pub proof fn law_sending_goes_on_only_when_confirmed(
    transfer: OutboundTransfer,
    message: FileTransferMessage,
    policy: TransferPolicy,
    portable: Seq<bool>,
)
    requires
        transfer.coherent(),
        message_step(transfer, message, policy, portable).1 is AcknowledgeAndRead,
    ensures
        transfer.phase is AwaitingCheckpoint,
        checkpoint_at(
            transfer.manifest,
            transfer.phase->AwaitingCheckpoint_file_index as int,
            transfer.content->Some_0@.len() as u64,
        ) matches Ok(reached) && message == FileTransferMessage::Checkpoint(reached),
{
}

/// The record of a transfer leaves the queue only when the peer acknowledges
/// exactly the terminal checkpoint of what was offered, all of whose files were read
/// with the content that was promised.
pub proof fn law_records_leave_the_queue_only_when_acknowledged(
    transfer: OutboundTransfer,
    message: FileTransferMessage,
    policy: TransferPolicy,
    portable: Seq<bool>,
)
    requires
        transfer.coherent(),
        message_step(transfer, message, policy, portable).1 == OutboundAction::RemoveRecord,
    ensures
        transfer.phase is AwaitingTerminal,
        terminal_of(transfer.manifest) matches Ok(terminal) && message
            == FileTransferMessage::Ack(terminal),
        unchanged_before(
            transfer.manifest,
            transfer.sent@,
            transfer.manifest.entries@.len() as int,
        ),
{
}

/// The terminal checkpoint is awaited only after every file of the manifest was
/// passed, and it is the manifest's.
pub proof fn law_completion_is_declared_after_the_last_file(
    manifest: TransferManifest,
    sources: Seq<QueuedSource>,
    from: int,
    resume: Option<TransferCheckpoint>,
)
    requires
        0 <= from <= manifest.entries@.len(),
        proceed(manifest, sources, from, resume).1 is DeclareComplete,
    ensures
        forall|k: int| from <= k < manifest.entries@.len() ==> (#[trigger] manifest.entries@[k]).is_dir,
        proceed(manifest, sources, from, resume).0 == (OutboundPhase::AwaitingTerminal {
            terminal: terminal_of(manifest)->Ok_0,
        }),
        terminal_of(manifest) is Ok,
{
    lemma_first_file(manifest.entries@, from);
}

/// A message about another transfer changes nothing.
pub proof fn law_stale_messages_are_ignored(
    transfer: OutboundTransfer,
    message: FileTransferMessage,
    policy: TransferPolicy,
    portable: Seq<bool>,
)
    requires
        !(message is Offer),
        subject(message) is Some,
        subject(message) != Some(transfer.manifest.id),
    ensures
        message_step(transfer, message, policy, portable) == (
            transfer.phase,
            OutboundAction::Ignore,
        ),
{
}

/// An offer that arrives while chunks or the end of a transfer await the peer's
/// word is rejected and changes nothing.
pub proof fn law_offers_do_not_disturb_an_active_transfer(
    transfer: OutboundTransfer,
    incoming: TransferManifest,
    policy: TransferPolicy,
    portable: Seq<bool>,
)
    requires
        transfer.phase is AwaitingCheckpoint || transfer.phase is AwaitingTerminal,
    ensures
        message_step(transfer, FileTransferMessage::Offer(incoming), policy, portable) == (
            transfer.phase,
            OutboundAction::Answer(
                Reply::Reject { transfer_id: incoming.id, reason: PeerReason::AnotherActive },
            ),
        ),
{
}

/// Sender and receiver agree where a resumed transfer goes on: at the
/// receiver's next position the sender reads from the same offset, and of every
/// file before it nothing is left to send.
pub proof fn law_both_sides_resume_at_the_same_place(
    manifest: TransferManifest,
    resume: Option<TransferCheckpoint>,
    k: int,
)
    requires
        manifest.entries@.len() <= usize::MAX,
        position_after(manifest, resume) matches Ok(Some(at)) && 0 <= k < at.index,
        !manifest.entries@[k].is_dir,
    ensures
        ({
            let at = position_after(manifest, resume)->Ok_0->Some_0;
            &&& resume_offset(manifest, at.index as int, resume) == at.offset
            &&& resume_offset(manifest, k, resume) == manifest.entries@[k].size_bytes
        }),
{
    match resume {
        Some(c) => {
            lemma_first_file(manifest.entries@, c.file_index + 1);
        },
        None => {
            lemma_first_file(manifest.entries@, 0);
        },
    }
}

/// The checkpoint that the receiver reports for an admitted chunk is the one
/// that the sender of that chunk expects.
pub proof fn law_reported_checkpoint_is_the_expected_one(
    manifest: TransferManifest,
    checkpoint: Option<TransferCheckpoint>,
    writer_open: bool,
    chunk: TransferChunk,
    max_chunk_size: usize,
    resume: Option<TransferCheckpoint>,
)
    requires
        chunk_verdict(manifest, checkpoint, writer_open, chunk, max_chunk_size) is Ok,
        checkpoint_at(
            manifest,
            chunk.file_index as int,
            (chunk.offset + chunk.plain_len) as u64,
        ) is Ok,
    ensures
        ({
            let plan = chunk_verdict(manifest, checkpoint, writer_open, chunk, max_chunk_size)->Ok_0;
            let index = chunk.file_index as usize;
            let sent = chunk_step(manifest, index, resume, chunk.offset, chunk.plain_len).0;
            let reported = checkpoint_at(manifest, plan.index as int, plan.end)->Ok_0;
            &&& sent == (OutboundPhase::AwaitingCheckpoint {
                file_index: index,
                resume,
                expected: reported,
            })
            &&& progress_answer(manifest, sent, FileTransferMessage::Checkpoint(reported)).1
                == OutboundAction::AcknowledgeAndRead(Reply::Ack(reported))
        }),
{
}

/// Where the peer resumes at a checkpoint, the files before it are sent from their end
/// on, the file that it stands in from its offset on, and all others from their start;
/// without a checkpoint every file is.
pub proof fn law_files_are_sent_from_where_they_are_missing(
    manifest: TransferManifest,
    index: int,
    c: TransferCheckpoint,
)
    ensures
        resume_offset(manifest, index, None) == 0,
        index < c.file_index ==> resume_offset(manifest, index, Some(c))
            == manifest.entries@[index].size_bytes,
        index == c.file_index ==> resume_offset(manifest, index, Some(c)) == c.offset,
        index > c.file_index ==> resume_offset(manifest, index, Some(c)) == 0,
{
}

/// The next file that is sent is the first one that is no directory, and completion is
/// declared, with the total of the offer, exactly where there is none left.
pub proof fn law_every_file_is_sent_in_turn(
    manifest: TransferManifest,
    sources: Seq<QueuedSource>,
    from: int,
    k: int,
    resume: Option<TransferCheckpoint>,
)
    requires
        0 <= from <= manifest.entries@.len() <= u32::MAX,
        sources.len() == manifest.entries@.len(),
        terminal_of(manifest) is Ok,
        forall|i: int|
            0 <= i < sources.len() ==> (#[trigger] sources[i]).is_dir
                == manifest.entries@[i].is_dir && (sources[i].is_dir
                || manifest.entries@[i].sha256 is Some),
    ensures
        from <= k < manifest.entries@.len() && !manifest.entries@[k].is_dir && (forall|i: int|
            from <= i < k ==> (#[trigger] manifest.entries@[i]).is_dir) ==> proceed(
            manifest,
            sources,
            from,
            resume,
        ) == (
            OutboundPhase::Opening {
                file_index: k as usize,
                resume,
                offset: resume_offset(manifest, k, resume),
            },
            OutboundAction::OpenSource {
                file_index: k as usize,
                offset: resume_offset(manifest, k, resume),
            },
        ),
        (forall|i: int|
            from <= i < manifest.entries@.len() ==> (#[trigger] manifest.entries@[i]).is_dir)
            ==> proceed(manifest, sources, from, resume) == (
            OutboundPhase::AwaitingTerminal { terminal: terminal_of(manifest)->Ok_0 },
            OutboundAction::DeclareComplete(
                Reply::Complete {
                    transfer_id: manifest.id,
                    transferred_bytes: manifest.total_bytes,
                },
            ),
        ),
{
    lemma_first_file(manifest.entries@, from);
    if from <= k < manifest.entries@.len() {
        assert(sources[k].is_dir == manifest.entries@[k].is_dir);
    }
}

/// An accepted offer is sent from its first file on, an offer that is rejected or
/// cancelled stays in the queue, and a checkpoint that is none of this transfer's is
/// not sent from.
pub proof fn law_accepted_offers_are_sent(
    manifest: TransferManifest,
    sources: Seq<QueuedSource>,
    checkpoint: Option<TransferCheckpoint>,
    reason: String,
    policy: TransferPolicy,
    portable: Seq<bool>,
)
    ensures
        ({
            let accept = FileTransferMessage::Accept { transfer_id: manifest.id, checkpoint };
            let answer = offer_answer(manifest, sources, accept, policy, portable);
            let valid = checkpoint matches Some(c) ==> checkpoint_verdict(manifest, c, false) is Ok;
            &&& valid ==> answer == proceed(manifest, sources, 0, checkpoint)
            &&& !valid ==> answer.0 == OutboundPhase::Finished && answer.1 is Fail
        }),
        offer_answer(
            manifest,
            sources,
            FileTransferMessage::Reject { transfer_id: manifest.id, reason },
            policy,
            portable,
        ) == (OutboundPhase::Finished, OutboundAction::Retain),
        offer_answer(
            manifest,
            sources,
            FileTransferMessage::Cancel { transfer_id: manifest.id, reason },
            policy,
            portable,
        ) == (OutboundPhase::Finished, OutboundAction::Retain),
{
}

/// An offer that crosses this one is received instead exactly where the policy admits
/// it and it goes ahead; otherwise it is rejected, and the answer to this one is still
/// awaited.
pub proof fn law_crossing_offers_are_settled(
    manifest: TransferManifest,
    sources: Seq<QueuedSource>,
    incoming: TransferManifest,
    policy: TransferPolicy,
    portable: Seq<bool>,
)
    ensures
        ({
            let answer = offer_answer(
                manifest,
                sources,
                FileTransferMessage::Offer(incoming),
                policy,
                portable,
            );
            let admitted = policy.verdict(incoming, portable) is Ok;
            &&& answer.1 == OutboundAction::ReceiveInstead <==> admitted && !wins(manifest, incoming)
            &&& !(answer.1 == OutboundAction::ReceiveInstead) ==> answer == (
                OutboundPhase::Offered,
                OutboundAction::Answer(
                    Reply::Reject {
                        transfer_id: incoming.id,
                        reason: if admitted {
                            PeerReason::CollisionLoser
                        } else {
                            PeerReason::PolicyViolation
                        },
                    },
                ),
            )
        }),
{
}

/// The peer's word on exactly what is awaited lets sending go on, or takes the record
/// out of the queue; its word on another place of this transfer does neither.
pub proof fn law_the_awaited_word_lets_sending_go_on(
    manifest: TransferManifest,
    file_index: usize,
    resume: Option<TransferCheckpoint>,
    awaited: TransferCheckpoint,
    told: TransferCheckpoint,
)
    requires
        told.id == manifest.id,
    ensures
        ({
            let chunk = OutboundPhase::AwaitingCheckpoint { file_index, resume, expected: awaited };
            let end = OutboundPhase::AwaitingTerminal { terminal: awaited };
            let checkpoint = FileTransferMessage::Checkpoint(told);
            let ack = FileTransferMessage::Ack(told);
            &&& told == awaited ==> progress_answer(manifest, chunk, checkpoint) == (
                OutboundPhase::Reading { file_index, resume },
                OutboundAction::AcknowledgeAndRead(Reply::Ack(told)),
            )
            &&& told == awaited ==> progress_answer(manifest, end, ack) == (
                OutboundPhase::Finished,
                OutboundAction::RemoveRecord,
            )
            &&& told != awaited ==> progress_answer(manifest, chunk, checkpoint).1 is AnswerAndFail
            &&& told != awaited ==> progress_answer(manifest, end, ack).1 is AnswerAndFail
        }),
{
}

/// While a word is awaited, the peer's rejection or cancellation of this transfer keeps
/// its record.
pub proof fn law_refused_transfers_stay_in_the_queue(
    manifest: TransferManifest,
    phase: OutboundPhase,
    reason: String,
)
    requires
        phase is AwaitingCheckpoint || phase is AwaitingTerminal,
    ensures
        progress_answer(
            manifest,
            phase,
            FileTransferMessage::Reject { transfer_id: manifest.id, reason },
        ) == (OutboundPhase::Finished, OutboundAction::Retain),
        progress_answer(
            manifest,
            phase,
            FileTransferMessage::Cancel { transfer_id: manifest.id, reason },
        ) == (OutboundPhase::Finished, OutboundAction::Retain),
{
}

/// Until a file is read to its end something is wanted of it, never more than is left
/// or a chunk may hold, and as much as that allows; at its end nothing is, but for the
/// one empty chunk of an empty file that the peer does not have.
pub proof fn law_files_are_read_to_their_end(
    size: int,
    read: int,
    covered: bool,
    sent_any: bool,
    max_chunk: u32,
)
    requires
        0 <= read <= size,
        max_chunk > 0,
    ensures
        read < size ==> (wanted_next(size, read, covered, sent_any, max_chunk) matches Some(n) && 0 < n
            && n <= max_chunk && read + n <= size && (n == max_chunk || read + n == size)),
        read == size && size > 0 ==> wanted_next(size, read, covered, sent_any, max_chunk) is None,
        size == 0 ==> (wanted_next(size, read, covered, sent_any, max_chunk) == Some(0u32)
            <==> !covered && !sent_any),
        size == 0 && (covered || sent_any) ==> wanted_next(size, read, covered, sent_any, max_chunk)
            is None,
{
}

/// A file counts as sent before exactly where the accepted checkpoint stands in it or
/// in a later one.
pub proof fn law_checkpoints_cover_the_files_up_to_them(c: TransferCheckpoint, file_index: usize)
    ensures
        covered_by(Some(c), file_index) <==> file_index <= c.file_index,
        !covered_by(None, file_index),
{
}

/// What is read of a file is sent as the chunk that begins where the file was read to,
/// and the peer's word on the place behind it is awaited.
pub proof fn law_sent_chunks_await_their_checkpoint(
    manifest: TransferManifest,
    file_index: usize,
    resume: Option<TransferCheckpoint>,
    offset: u64,
    plain_len: u32,
    c: TransferCheckpoint,
)
    requires
        file_index <= u32::MAX,
        c.id == manifest.id,
        c.file_index == file_index,
        c.offset == offset + plain_len,
        c.transferred_bytes == crate::checkpoint::file_bytes(manifest.entries@, file_index as int)
            + c.offset,
    ensures
        chunk_step(manifest, file_index, resume, offset, plain_len) == (
            OutboundPhase::AwaitingCheckpoint { file_index, resume, expected: c },
            OutboundAction::SendChunk,
        ),
{
}

/// A file that is read to its end as it was promised is followed by the next one.
pub proof fn law_unchanged_files_are_followed_by_the_next(
    manifest: TransferManifest,
    sources: Seq<QueuedSource>,
    index: int,
    resume: Option<TransferCheckpoint>,
    content: Seq<u8>,
)
    ensures
        manifest.entries@[index].sha256 is Some && manifest.entries@[index].sha256->Some_0@
            == crate::outside::sha256_of(content) ==> file_end_step(
            manifest,
            sources,
            index,
            resume,
            content,
        ) == proceed(manifest, sources, index + 1, resume),
        !(manifest.entries@[index].sha256 is Some && manifest.entries@[index].sha256->Some_0@
            == crate::outside::sha256_of(content)) ==> file_end_step(
            manifest,
            sources,
            index,
            resume,
            content,
        ) == (
            OutboundPhase::Finished,
            OutboundAction::AnswerAndRetain(
                Reply::Cancel { transfer_id: manifest.id, reason: PeerReason::SourceChanged },
            ),
        ),
{
}

/// What one side sends of a file the other admits: a chunk that is made of what comes
/// next at the awaited place, no longer than a chunk may be and than the file is, is
/// admitted by the receiver of the same manifest.
pub proof fn law_sent_chunks_are_admitted(
    manifest: TransferManifest,
    checkpoint: Option<TransferCheckpoint>,
    writer_open: bool,
    chunk: TransferChunk,
    at: crate::checkpoint::FilePosition,
    payload: Seq<u8>,
    max_chunk_size: usize,
)
    requires
        crate::checkpoint::position_after(manifest, checkpoint) == Ok::<
            Option<crate::checkpoint::FilePosition>,
            TransferError,
        >(Some(at)),
        makes_chunk(chunk, manifest, at.index, at.offset as int, payload),
        manifest.entries@[at.index as int].sha256 is Some,
        at.offset + payload.len() <= manifest.entries@[at.index as int].size_bytes,
        payload.len() <= max_chunk_size,
    ensures
        crate::receive::chunk_verdict(manifest, checkpoint, writer_open, chunk, max_chunk_size) is Ok,
        chunk.payload@ == payload,
        chunk.final_chunk_for_file <==> at.offset + payload.len()
            == manifest.entries@[at.index as int].size_bytes,
{
}

/// A chunk behind which no offset can be counted fails the transfer.
pub proof fn law_uncountable_chunks_fail(
    manifest: TransferManifest,
    file_index: usize,
    resume: Option<TransferCheckpoint>,
    offset: u64,
    plain_len: u32,
)
    ensures
        offset + plain_len > u64::MAX ==> chunk_step(
            manifest,
            file_index,
            resume,
            offset,
            plain_len,
        ) == (OutboundPhase::Finished, OutboundAction::Fail(TransferError::ChunkOffsetOverflow)),
{
}

/// A transfer whose sources no longer match what was offered fails for the fault that
/// the next file has: it is missing from the sources, a directory there, too far behind
/// to be numbered, or without a digest.
pub proof fn law_diverged_sources_fail_the_transfer(
    manifest: TransferManifest,
    sources: Seq<QueuedSource>,
    from: int,
    k: int,
    resume: Option<TransferCheckpoint>,
)
    requires
        0 <= from <= k < manifest.entries@.len(),
        !manifest.entries@[k].is_dir,
        forall|i: int| from <= i < k ==> (#[trigger] manifest.entries@[i]).is_dir,
    ensures
        ({
            let next = proceed(manifest, sources, from, resume);
            &&& next.1 == OutboundAction::Fail(TransferError::OrderingDiverged) <==> k
                >= sources.len()
            &&& next.1 == OutboundAction::Fail(TransferError::TypesDiverged) <==> k < sources.len()
                && sources[k].is_dir
            &&& next.1 == OutboundAction::Fail(TransferError::WireIndexTooLarge) <==> u32::MAX < k
                < sources.len() && !sources[k].is_dir
            &&& next.1 == OutboundAction::Fail(TransferError::MissingDigest) <==> k < sources.len()
                && !sources[k].is_dir && k <= u32::MAX && manifest.entries@[k].sha256 is None
            &&& next.1 is Fail <==> next.0 == OutboundPhase::Finished
        }),
{
    lemma_first_file(manifest.entries@, from);
}

} // verus!
