//! Receiving a transfer: the persisted state, admitting and committing chunks,
//! and bringing what lies on disk in line with the manifest.

use vstd::prelude::*;

use crate::checkpoint::checkpoint_after_chunk;
use crate::checkpoint::checkpoint_at;
use crate::checkpoint::checkpoint_before;
use crate::checkpoint::checkpoint_before_entry;
use crate::checkpoint::checkpoint_verdict;
use crate::checkpoint::file_bytes;
use crate::checkpoint::first_file;
use crate::checkpoint::has_files;
use crate::checkpoint::last_file;
use crate::checkpoint::lemma_first_file;
use crate::checkpoint::lemma_last_file;
use crate::checkpoint::next_file_position;
use crate::checkpoint::position_after;
use crate::checkpoint::terminal_checkpoint;
use crate::checkpoint::terminal_of;
use crate::checkpoint::validate_checkpoint;
use crate::checkpoint::FilePosition;
use crate::checkpoint::TransferCheckpoint;
use crate::content::Content;
use crate::content::FileDigest;
use crate::ids::TransferId;
use crate::manifest::TransferEntry;
use crate::manifest::TransferManifest;
use crate::manifest::WireLimits;
use crate::outside::sha256_of;
use crate::text::hyphenated;
use crate::text::same_text;
use crate::transfer_error::TransferError;

verus! {

/// The version of the persisted receive state.
pub const RECEIVE_STATE_SCHEMA_VERSION: u16 = 2;

/// A checkpoint as it is kept beside the received files.
#[derive(Clone, Copy, PartialEq, Eq, Structural, Debug)]
pub struct PersistedCheckpoint {
    pub file_index: u32,
    pub offset: u64,
    pub transferred_bytes: u64,
}

/// What is kept beside the received files of one transfer.
#[derive(Clone, Debug)]
pub struct ReceiveState {
    pub schema_version: u16,
    pub transfer_id: String,
    pub manifest_sha256: String,
    pub checkpoint: Option<PersistedCheckpoint>,
    pub complete: bool,
}

/// The part of a checkpoint that is kept.
pub open spec fn persisted(checkpoint: TransferCheckpoint) -> PersistedCheckpoint {
    PersistedCheckpoint {
        file_index: checkpoint.file_index,
        offset: checkpoint.offset,
        transferred_bytes: checkpoint.transferred_bytes,
    }
}

/// The checkpoint that a kept one stands for.
pub open spec fn resumed(kept: Option<PersistedCheckpoint>, id: TransferId) -> Option<
    TransferCheckpoint,
> {
    match kept {
        Some(c) => Some(
            (TransferCheckpoint {
                id,
                file_index: c.file_index,
                offset: c.offset,
                transferred_bytes: c.transferred_bytes,
            }),
        ),
        None => None,
    }
}

impl ReceiveState {
    /// The kept checkpoint of the transfer.
    pub fn checkpoint(&self, id: TransferId) -> (r: Option<TransferCheckpoint>)
        ensures
            r == resumed(self.checkpoint, id),
    {
        match self.checkpoint {
            Some(c) => Some(
                TransferCheckpoint {
                    id,
                    file_index: c.file_index,
                    offset: c.offset,
                    transferred_bytes: c.transferred_bytes,
                },
            ),
            None => None,
        }
    }

    /// Keeps a checkpoint.
    pub fn set_checkpoint(&mut self, checkpoint: TransferCheckpoint)
        ensures
            final(self).checkpoint == Some(persisted(checkpoint)),
            final(self).schema_version == old(self).schema_version,
            final(self).transfer_id == old(self).transfer_id,
            final(self).manifest_sha256 == old(self).manifest_sha256,
            final(self).complete == old(self).complete,
    {
        self.checkpoint =
        Some(
            PersistedCheckpoint {
                file_index: checkpoint.file_index,
                offset: checkpoint.offset,
                transferred_bytes: checkpoint.transferred_bytes,
            },
        );
    }

    /// Keeps a checkpoint, or none.
    pub fn replace_checkpoint(&mut self, checkpoint: Option<TransferCheckpoint>)
        ensures
            final(self).checkpoint == (match checkpoint {
                Some(c) => Some(persisted(c)),
                None => None,
            }),
            final(self).schema_version == old(self).schema_version,
            final(self).transfer_id == old(self).transfer_id,
            final(self).manifest_sha256 == old(self).manifest_sha256,
            final(self).complete == old(self).complete,
    {
        match checkpoint {
            Some(c) => {
                self.set_checkpoint(c);
            },
            None => {
                self.checkpoint = None;
            },
        }
    }
}

/// A kept checkpoint of the transfer is read back as it was.
pub proof fn law_kept_checkpoints_read_back(checkpoint: TransferCheckpoint)
    ensures
        resumed(Some(persisted(checkpoint)), checkpoint.id) == Some(checkpoint),
{
}

/// A piece of one file.
#[derive(Clone, Debug)]
pub struct TransferChunk {
    pub transfer_id: TransferId,
    pub file_index: u32,
    pub offset: u64,
    pub plain_len: u32,
    pub compressed: bool,
    pub final_chunk_for_file: bool,
    pub payload: Vec<u8>,
}

/// Where the bytes of a chunk are written: to the part file that is open, to a
/// new one, or to one that an earlier session left.
#[derive(Clone, Copy, PartialEq, Eq, Structural, Debug)]
pub enum PartFile {
    Open,
    Create,
    Resume,
}

/// What is to be done with an admitted chunk.
#[derive(Clone, Copy, PartialEq, Eq, Structural, Debug)]
pub struct ChunkPlan {
    pub index: usize,
    pub offset: u64,
    pub end: u64,
    pub part_file: PartFile,
    pub final_chunk: bool,
}

/// What became of the written bytes: the part file is still open, the file was
/// published, or its content is not what the manifest promises.
#[derive(Clone, Copy, PartialEq, Eq, Structural, Debug)]
pub enum ReceiveWriteOutcome {
    Partial,
    Published,
    QuarantinedDigestMismatch,
}

/// A transfer that is being received: what is kept of it, the content of the part
/// file that is open, the chunk that is being written, and, for the proofs alone,
/// the content that was last judged and the content of each published file.
pub struct ReceiveSession {
    pub manifest: TransferManifest,
    pub state: ReceiveState,
    pub writer: Option<Content>,
    pub admitted: Option<TransferChunk>,
    pub judged: Ghost<Seq<u8>>,
    pub published: Ghost<Map<int, Seq<u8>>>,
}

/// Whether a content is what an entry promises.
pub open spec fn keeps_promise(entry: TransferEntry, content: Seq<u8>) -> bool {
    entry.sha256 matches Some(promised) && promised@ == sha256_of(content)
}

/// What becomes of a file's content once a chunk of it is written: it stays open
/// before its end, and at its end only the promised content is published.
pub open spec fn write_outcome(plan: ChunkPlan, entry: TransferEntry, content: Seq<u8>) -> ReceiveWriteOutcome {
    if !plan.final_chunk {
        ReceiveWriteOutcome::Partial
    } else if keeps_promise(entry, content) {
        ReceiveWriteOutcome::Published
    } else {
        ReceiveWriteOutcome::QuarantinedDigestMismatch
    }
}

/// Judges the content of a file of which a chunk was written.
pub fn decide_write(plan: ChunkPlan, entry: &TransferEntry, content: Content) -> (outcome:
    ReceiveWriteOutcome)
    ensures
        outcome == write_outcome(plan, *entry, content@),
{
    if !plan.final_chunk {
        return ReceiveWriteOutcome::Partial;
    }
    let digest = content.finish();
    let kept: bool = match &entry.sha256 {
        Some(promised) => digest.keeps(promised),
        None => false,
    };
    if kept {
        ReceiveWriteOutcome::Published
    } else {
        ReceiveWriteOutcome::QuarantinedDigestMismatch
    }
}

/// Whether all of a file counts as received at a checkpoint.
pub open spec fn counted(
    manifest: TransferManifest,
    checkpoint: Option<TransferCheckpoint>,
    k: int,
) -> bool {
    &&& 0 <= k < manifest.entries@.len()
    &&& !manifest.entries@[k].is_dir
    &&& checkpoint matches Some(c) && (k < c.file_index || (k == c.file_index && c.offset
        == manifest.entries@[k].size_bytes))
}

/// Whether a plan is about the place that a checkpoint leads to.
pub open spec fn plan_fits(
    manifest: TransferManifest,
    checkpoint: Option<TransferCheckpoint>,
    plan: ChunkPlan,
) -> bool {
    &&& position_after(manifest, checkpoint) matches Ok(Some(at)) && at.index == plan.index
        && at.offset == plan.offset
    &&& plan.index < manifest.entries@.len()
    &&& !manifest.entries@[plan.index as int].is_dir
    &&& plan.offset <= plan.end <= manifest.entries@[plan.index as int].size_bytes
    &&& plan.final_chunk == (plan.end == manifest.entries@[plan.index as int].size_bytes)
}

/// What is to be done with a chunk, or why it is refused.
pub open spec fn chunk_verdict(
    manifest: TransferManifest,
    checkpoint: Option<TransferCheckpoint>,
    writer_open: bool,
    chunk: TransferChunk,
    max_chunk_size: usize,
) -> Result<ChunkPlan, TransferError> {
    if chunk.transfer_id != manifest.id {
        Err(TransferError::ChunkIdMismatch)
    } else if chunk.compressed {
        Err(TransferError::ChunkCompressed)
    } else if chunk.payload@.len() != chunk.plain_len {
        Err(TransferError::ChunkPayloadLength)
    } else if chunk.plain_len > max_chunk_size {
        Err(TransferError::ChunkTooLarge)
    } else {
        match position_after(manifest, checkpoint) {
            Err(error) => Err(error),
            Ok(None) => Err(TransferError::ChunkAfterCompletion),
            Ok(Some(at)) => {
                let entry = manifest.entries@[at.index as int];
                let end = chunk.offset + chunk.plain_len;
                if chunk.file_index != at.index {
                    Err(TransferError::ChunkWrongFile)
                } else if chunk.offset != at.offset {
                    Err(TransferError::ChunkNotContiguous)
                } else if entry.sha256 is None {
                    Err(TransferError::MissingDigest)
                } else if end > u64::MAX {
                    Err(TransferError::ChunkOffsetOverflow)
                } else if end > entry.size_bytes {
                    Err(TransferError::ChunkPastFile)
                } else if chunk.final_chunk_for_file != (end == entry.size_bytes) {
                    Err(TransferError::ChunkFinalMarker)
                } else {
                    Ok(
                        (ChunkPlan {
                            index: at.index,
                            offset: at.offset,
                            end: end as u64,
                            part_file: if writer_open {
                                PartFile::Open
                            } else if checkpoint matches Some(c) && c.file_index == at.index {
                                PartFile::Resume
                            } else {
                                PartFile::Create
                            },
                            final_chunk: chunk.final_chunk_for_file,
                        }),
                    )
                }
            },
        }
    }
}

proof fn lemma_position_is_a_file(manifest: TransferManifest, checkpoint: Option<TransferCheckpoint>)
    requires
        position_after(manifest, checkpoint) matches Ok(Some(_)),
        manifest.entries@.len() <= usize::MAX,
    ensures
        ({
            let at = position_after(manifest, checkpoint)->Ok_0->Some_0;
            &&& at.index < manifest.entries@.len()
            &&& !manifest.entries@[at.index as int].is_dir
            &&& at.offset <= manifest.entries@[at.index as int].size_bytes
            &&& at.transferred_bytes == file_bytes(manifest.entries@, at.index as int) + at.offset
        }),
{
    match checkpoint {
        Some(c) => {
            if c.file_index < manifest.entries@.len() {
                lemma_first_file(manifest.entries@, c.file_index + 1);
            }
        },
        None => {
            lemma_first_file(manifest.entries@, 0);
        },
    }
}

impl ReceiveSession {
    /// Whether the kept checkpoint is one that the manifest allows.
    pub open spec fn valid(self) -> bool {
        self.state.checkpoint matches Some(_) ==> checkpoint_verdict(
            self.manifest,
            resumed(self.state.checkpoint, self.manifest.id)->Some_0,
            false,
        ) is Ok
    }

    /// The kept checkpoint, as one of this transfer.
    pub open spec fn kept(self) -> Option<TransferCheckpoint> {
        resumed(self.state.checkpoint, self.manifest.id)
    }

    /// Every file that counts as received was published with the content that the
    /// manifest promises.
    pub open spec fn sound(self) -> bool {
        forall|k: int| #[trigger]
            counted(self.manifest, self.kept(), k) ==> self.published@.contains_key(k)
                && keeps_promise(self.manifest.entries@[k], self.published@[k])
    }

    /// The content of the part file that is open can be counted.
    pub open spec fn countable(self) -> bool {
        self.writer matches Some(content) ==> content.valid()
    }

    /// Admits a chunk, or says why not. The admitted chunk is kept until it is
    /// written; the part file that is open goes on, and any other starts empty.
    pub fn begin_chunk(&mut self, chunk: TransferChunk, wire: WireLimits) -> (r: Result<
        ChunkPlan,
        TransferError,
    >)
        ensures
            r == chunk_verdict(
                old(self).manifest,
                old(self).kept(),
                old(self).writer is Some,
                chunk,
                wire.max_chunk_size,
            ),
            final(self).manifest == old(self).manifest,
            final(self).state == old(self).state,
            final(self).judged == old(self).judged,
            final(self).published == old(self).published,
            match r {
                Err(_) => final(self).writer == old(self).writer && final(self).admitted
                    == old(self).admitted,
                Ok(plan) => {
                    &&& final(self).admitted == Some(chunk)
                    &&& plan.part_file == PartFile::Open ==> final(self).writer == old(self).writer
                    &&& plan.part_file != PartFile::Open ==> (final(self).writer matches Some(content)
                        && content.valid() && content@ == Seq::<u8>::empty())
                },
            },
    {
        if chunk.transfer_id != self.manifest.id {
            return Err(TransferError::ChunkIdMismatch);
        }
        if chunk.compressed {
            return Err(TransferError::ChunkCompressed);
        }
        if chunk.payload.len() != chunk.plain_len as usize {
            return Err(TransferError::ChunkPayloadLength);
        }
        if chunk.plain_len as usize > wire.max_chunk_size {
            return Err(TransferError::ChunkTooLarge);
        }
        let checkpoint: Option<TransferCheckpoint> = self.state.checkpoint(self.manifest.id);
        let at: FilePosition = match next_file_position(&self.manifest, checkpoint) {
            Err(error) => {
                return Err(error);
            },
            Ok(None) => {
                return Err(TransferError::ChunkAfterCompletion);
            },
            Ok(Some(at)) => at,
        };
        let count: usize = self.manifest.entries.len();
        proof {
            lemma_position_is_a_file(self.manifest, checkpoint);
        }
        if chunk.file_index as usize != at.index {
            return Err(TransferError::ChunkWrongFile);
        }
        if chunk.offset != at.offset {
            return Err(TransferError::ChunkNotContiguous);
        }
        if self.manifest.entries[at.index].sha256.is_none() {
            return Err(TransferError::MissingDigest);
        }
        let size: u64 = self.manifest.entries[at.index].size_bytes;
        let end: u64 = match chunk.offset.checked_add(chunk.plain_len as u64) {
            Some(end) => end,
            None => {
                return Err(TransferError::ChunkOffsetOverflow);
            },
        };
        if end > size {
            return Err(TransferError::ChunkPastFile);
        }
        if chunk.final_chunk_for_file != (end == size) {
            return Err(TransferError::ChunkFinalMarker);
        }
        let left_behind: bool = match checkpoint {
            Some(c) => c.file_index as usize == at.index,
            None => false,
        };
        let part_file: PartFile = if self.writer.is_some() {
            PartFile::Open
        } else if left_behind {
            PartFile::Resume
        } else {
            PartFile::Create
        };
        let final_chunk: bool = chunk.final_chunk_for_file;
        if self.writer.is_none() {
            self.writer = Some(Content::new());
        }
        self.admitted = Some(chunk);
        Ok(ChunkPlan { index: at.index, offset: at.offset, end, part_file, final_chunk })
    }

    /// Puts what an earlier session left of a part file in front of the chunk that
    /// is being written.
    pub fn resume_part(&mut self, prefix: Content)
        ensures
            final(self).manifest == old(self).manifest,
            final(self).state == old(self).state,
            final(self).admitted == old(self).admitted,
            final(self).judged == old(self).judged,
            final(self).published == old(self).published,
            final(self).writer == Some(prefix),
    {
        self.writer = Some(prefix);
    }

    /// Adds the admitted chunk to the content of its file and judges it. Before its
    /// place the content must be whole: a part file that was cut short is refused.
    pub fn store_chunk(&mut self, plan: ChunkPlan) -> (r: Result<ReceiveWriteOutcome, TransferError>)
        requires
            old(self).admitted is Some,
            old(self).writer is Some,
            old(self).countable(),
            plan.index < old(self).manifest.entries.len(),
            old(self).admitted->Some_0.payload@.len() == plan.end - plan.offset,
        ensures
            final(self).manifest == old(self).manifest,
            final(self).state == old(self).state,
            final(self).published == old(self).published,
            final(self).admitted is None,
            final(self).countable(),
            if old(self).writer->Some_0@.len() != plan.offset {
                &&& r == Err::<ReceiveWriteOutcome, TransferError>(TransferError::PrefixTruncated)
                &&& final(self).writer is None
                &&& final(self).judged == old(self).judged
            } else {
                &&& final(self).judged@ == old(self).writer->Some_0@
                    + old(self).admitted->Some_0.payload@
                &&& r == Ok::<ReceiveWriteOutcome, TransferError>(
                    write_outcome(
                        plan,
                        old(self).manifest.entries@[plan.index as int],
                        final(self).judged@,
                    ),
                )
                &&& if plan.final_chunk {
                    final(self).writer is None
                } else {
                    final(self).writer matches Some(content) && content@ == final(self).judged@
                }
            },
    {
        let mut writer: Option<Content> = None;
        std::mem::swap(&mut writer, &mut self.writer);
        let mut admitted: Option<TransferChunk> = None;
        std::mem::swap(&mut admitted, &mut self.admitted);
        match (writer, admitted) {
            (Some(mut content), Some(chunk)) => {
                if content.len() != plan.offset {
                    return Err(TransferError::PrefixTruncated);
                }
                let ghost before = content@;
                let taken: bool = content.absorb(chunk.payload.as_slice());
                assert(taken);
                self.judged = Ghost(before + chunk.payload@);
                if plan.final_chunk {
                    Ok(decide_write(plan, &self.manifest.entries[plan.index], content))
                } else {
                    self.writer = Some(content);
                    Ok(ReceiveWriteOutcome::Partial)
                }
            },
            _ => Err(TransferError::PrefixTruncated),
        }
    }

    /// Records what became of a written chunk and gives the checkpoint to report. A
    /// file whose content is wrong is forgotten up to its start.
    pub fn finish_chunk(&mut self, plan: ChunkPlan, outcome: ReceiveWriteOutcome) -> (r: Result<
        TransferCheckpoint,
        TransferError,
    >)
        requires
            plan.index < old(self).manifest.entries.len(),
            outcome == write_outcome(
                plan,
                old(self).manifest.entries@[plan.index as int],
                old(self).judged@,
            ),
        ensures
            old(self).sound() && plan_fits(old(self).manifest, old(self).kept(), plan)
                ==> final(self).sound(),
            final(self).manifest == old(self).manifest,
            final(self).state.schema_version == old(self).state.schema_version,
            final(self).state.transfer_id == old(self).state.transfer_id,
            final(self).state.manifest_sha256 == old(self).state.manifest_sha256,
            final(self).writer == old(self).writer,
            final(self).admitted == old(self).admitted,
            final(self).judged == old(self).judged,
            final(self).published@ == (if outcome == ReceiveWriteOutcome::Published {
                old(self).published@.insert(plan.index as int, old(self).judged@)
            } else {
                old(self).published@
            }),
            outcome != ReceiveWriteOutcome::QuarantinedDigestMismatch ==> {
                &&& r == checkpoint_at(old(self).manifest, plan.index as int, plan.end)
                &&& final(self).state.complete == old(self).state.complete
                &&& final(self).state.checkpoint == (match r {
                    Ok(c) => Some(persisted(c)),
                    Err(_) => old(self).state.checkpoint,
                })
            },
            outcome == ReceiveWriteOutcome::QuarantinedDigestMismatch ==> match checkpoint_before(
                old(self).manifest,
                plan.index as int,
            ) {
                Ok(c) => {
                    &&& r == Err::<TransferCheckpoint, TransferError>(TransferError::DigestMismatch)
                    &&& !final(self).state.complete
                    &&& resumed(final(self).state.checkpoint, old(self).manifest.id) == c
                },
                Err(error) => {
                    &&& r == Err::<TransferCheckpoint, TransferError>(error)
                    &&& final(self).state == old(self).state
                },
            },
    {
        let r: Result<TransferCheckpoint, TransferError>;
        if outcome == ReceiveWriteOutcome::QuarantinedDigestMismatch {
            r =
            match checkpoint_before_entry(&self.manifest, plan.index) {
                Ok(c) => {
                    self.state.replace_checkpoint(c);
                    self.state.complete = false;
                    Err(TransferError::DigestMismatch)
                },
                Err(error) => Err(error),
            };
        } else {
            if outcome == ReceiveWriteOutcome::Published {
                self.published =
                Ghost(self.published@.insert(plan.index as int, self.judged@));
            }
            r =
            match checkpoint_after_chunk(&self.manifest, plan.index, plan.end) {
                Ok(c) => {
                    self.state.set_checkpoint(c);
                    Ok(c)
                },
                Err(error) => Err(error),
            };
        }
        proof {
            assert(old(self).manifest.entries.len() <= usize::MAX);
            if old(self).sound() && plan_fits(old(self).manifest, old(self).kept(), plan) {
                law_wrong_content_is_never_counted(*old(self), *self, plan);
            }
        }
        r
    }

    /// Whether the sender may declare the transfer complete, and the terminal
    /// checkpoint to acknowledge. The state is then marked complete.
    pub fn complete(&mut self, transferred_bytes: u64) -> (r: Result<
        TransferCheckpoint,
        TransferError,
    >)
        ensures
            r == completion_verdict(*old(self), transferred_bytes),
            final(self).manifest == old(self).manifest,
            final(self).writer == old(self).writer,
            final(self).admitted == old(self).admitted,
            final(self).judged == old(self).judged,
            final(self).published == old(self).published,
            final(self).state.schema_version == old(self).state.schema_version,
            final(self).state.transfer_id == old(self).state.transfer_id,
            final(self).state.manifest_sha256 == old(self).state.manifest_sha256,
            match r {
                Ok(terminal) => final(self).state.complete && final(self).state.checkpoint == Some(
                    persisted(terminal),
                ),
                Err(_) => final(self).state == old(self).state,
            },
    {
        if transferred_bytes != self.manifest.total_bytes {
            return Err(TransferError::CompleteByteCount);
        }
        let checkpoint: Option<TransferCheckpoint> = self.state.checkpoint(self.manifest.id);
        match next_file_position(&self.manifest, checkpoint) {
            Err(error) => {
                return Err(error);
            },
            Ok(Some(_)) => {
                return Err(TransferError::CompleteTooEarly);
            },
            Ok(None) => {},
        }
        if self.writer.is_some() {
            return Err(TransferError::CompleteWithOpenWriter);
        }
        match terminal_checkpoint(&self.manifest) {
            Err(error) => Err(error),
            Ok(terminal) => {
                self.state.set_checkpoint(terminal);
                self.state.complete = true;
                Ok(terminal)
            },
        }
    }
}

/// Whether a transfer may be declared complete: the sender counts what the
/// manifest does, nothing is left to receive, and no part file is open.
pub open spec fn completion_verdict(session: ReceiveSession, transferred_bytes: u64) -> Result<
    TransferCheckpoint,
    TransferError,
> {
    if transferred_bytes != session.manifest.total_bytes {
        Err(TransferError::CompleteByteCount)
    } else {
        match position_after(
            session.manifest,
            resumed(session.state.checkpoint, session.manifest.id),
        ) {
            Err(error) => Err(error),
            Ok(Some(_)) => Err(TransferError::CompleteTooEarly),
            Ok(None) => if session.writer is Some {
                Err(TransferError::CompleteWithOpenWriter)
            } else {
                terminal_of(session.manifest)
            },
        }
    }
}

/// Committing an admitted chunk leaves a checkpoint that the manifest allows,
/// whether the file goes on, was published, or turned out to be wrong.
pub proof fn law_admitted_chunks_keep_the_session_valid(
    manifest: TransferManifest,
    checkpoint: Option<TransferCheckpoint>,
    writer_open: bool,
    chunk: TransferChunk,
    max_chunk_size: usize,
)
    requires
        manifest.entries@.len() <= usize::MAX,
        chunk_verdict(manifest, checkpoint, writer_open, chunk, max_chunk_size) is Ok,
    ensures
        ({
            let plan = chunk_verdict(manifest, checkpoint, writer_open, chunk, max_chunk_size)->Ok_0;
            &&& plan.index < manifest.entries@.len()
            &&& plan.end == plan.offset + chunk.payload@.len()
            &&& checkpoint_at(manifest, plan.index as int, plan.end) matches Ok(c)
                ==> checkpoint_verdict(manifest, c, false) is Ok
            &&& checkpoint_before(manifest, plan.index as int) matches Ok(Some(c))
                ==> checkpoint_verdict(manifest, c, false) is Ok
            &&& plan_fits(manifest, checkpoint, plan)
        }),
{
    lemma_position_is_a_file(manifest, checkpoint);
    let plan = chunk_verdict(manifest, checkpoint, writer_open, chunk, max_chunk_size)->Ok_0;
    lemma_last_file(manifest.entries@, plan.index as int);
}

/// A transfer is only declared complete once every byte of every file has been
/// persisted and verified up to the last file's end.
pub proof fn law_completion_requires_every_file(session: ReceiveSession, transferred_bytes: u64)
    requires
        completion_verdict(session, transferred_bytes) is Ok,
    ensures
        transferred_bytes == session.manifest.total_bytes,
        session.writer is None,
        match resumed(session.state.checkpoint, session.manifest.id) {
            Some(c) => c.transferred_bytes == file_bytes(
                session.manifest.entries@,
                session.manifest.entries@.len() as int,
            ),
            None => first_file(session.manifest.entries@, 0) is None,
        },
{
    match resumed(session.state.checkpoint, session.manifest.id) {
        Some(c) => {
            lemma_first_file(session.manifest.entries@, c.file_index + 1);
        },
        None => {},
    }
}

/// Whatever a written chunk leads to, only files with the promised content count
/// afterwards: nothing of a file whose content is wrong does.
pub proof fn law_wrong_content_is_never_counted(
    before: ReceiveSession,
    after: ReceiveSession,
    plan: ChunkPlan,
)
    requires
        before.sound(),
        before.manifest.entries@.len() <= usize::MAX,
        plan_fits(before.manifest, before.kept(), plan),
        after.manifest == before.manifest,
        ({
            let entry = before.manifest.entries@[plan.index as int];
            let outcome = write_outcome(plan, entry, before.judged@);
            &&& after.published@ == (if outcome == ReceiveWriteOutcome::Published {
                before.published@.insert(plan.index as int, before.judged@)
            } else {
                before.published@
            })
            &&& if outcome == ReceiveWriteOutcome::QuarantinedDigestMismatch {
                match checkpoint_before(before.manifest, plan.index as int) {
                    Ok(c) => after.kept() == c,
                    Err(_) => after.kept() == before.kept(),
                }
            } else {
                match checkpoint_at(before.manifest, plan.index as int, plan.end) {
                    Ok(c) => after.kept() == Some(c),
                    Err(_) => after.kept() == before.kept(),
                }
            }
        }),
    ensures
        after.sound(),
        !keeps_promise(before.manifest.entries@[plan.index as int], before.judged@)
            && plan.final_chunk && checkpoint_before(before.manifest, plan.index as int) is Ok
            ==> !counted(after.manifest, after.kept(), plan.index as int),
{
    let manifest = before.manifest;
    let entries = manifest.entries@;
    let index = plan.index as int;
    lemma_last_file(entries, index);
    match before.kept() {
        Some(c) => {
            lemma_first_file(entries, c.file_index + 1);
        },
        None => {
            lemma_first_file(entries, 0);
        },
    }
    assert forall|k: int| 0 <= k < index && !(#[trigger] entries[k]).is_dir implies counted(
        manifest,
        before.kept(),
        k,
    ) by {}
    assert forall|k: int| #[trigger] counted(manifest, after.kept(), k) implies after.published@.contains_key(k)
        && keeps_promise(entries[k], after.published@[k]) by {
        if counted(manifest, before.kept(), k) {
        } else if k < index {
            assert(!entries[k].is_dir);
        }
    }
}

/// A transfer is only declared complete once every file was published with the
/// content that the manifest promises.
pub proof fn law_completion_requires_promised_content(
    session: ReceiveSession,
    transferred_bytes: u64,
    k: int,
)
    requires
        session.sound(),
        completion_verdict(session, transferred_bytes) is Ok,
        0 <= k < session.manifest.entries@.len(),
        !session.manifest.entries@[k].is_dir,
    ensures
        session.published@.contains_key(k),
        keeps_promise(session.manifest.entries@[k], session.published@[k]),
{
    match session.kept() {
        Some(c) => {
            lemma_first_file(session.manifest.entries@, c.file_index + 1);
            assert(counted(session.manifest, session.kept(), k));
        },
        None => {
            lemma_first_file(session.manifest.entries@, 0);
        },
    }
}

/// A file found on disk; the digest of its content is known where its length is
/// the expected one.
#[derive(Clone, Copy)]
pub struct ObservedFile {
    pub len: u64,
    pub digest: Option<FileDigest>,
}

/// What was found at an entry's final path and at the path of its part file.
#[derive(Clone, Copy)]
pub struct ObservedEntry {
    pub final_file: Option<ObservedFile>,
    pub part_file: Option<ObservedFile>,
}

/// What to do with a file found on disk.
#[derive(Clone, Copy, PartialEq, Eq, Structural, Debug)]
pub enum ArtifactAction {
    Keep,
    Quarantine,
    Publish,
}

/// What to do about one entry, how much of it counts as received, and whether
/// it is the first that is not whole.
#[derive(Clone, Copy, PartialEq, Eq, Structural, Debug)]
pub struct EntryPlan {
    pub final_action: ArtifactAction,
    pub part_action: ArtifactAction,
    pub reached: Option<u64>,
    pub incomplete: bool,
}

/// Whether a file has the length and the content that the entry promises.
pub open spec fn holds_content(file: ObservedFile, entry: TransferEntry) -> bool {
    &&& file.len == entry.size_bytes
    &&& file.digest matches Some(digest) && keeps_promise(entry, digest@)
}

/// A found file is set aside; where none was found there is nothing to do.
pub open spec fn set_aside(file: Option<ObservedFile>) -> ArtifactAction {
    if file is Some {
        ArtifactAction::Quarantine
    } else {
        ArtifactAction::Keep
    }
}

/// What to do about one entry. Nothing after the first incomplete file is kept.
pub open spec fn entry_plan(
    entry: TransferEntry,
    observed: ObservedEntry,
    incomplete_seen: bool,
) -> Result<EntryPlan, TransferError> {
    if entry.is_dir {
        Ok(
            (EntryPlan {
                final_action: ArtifactAction::Keep,
                part_action: ArtifactAction::Keep,
                reached: None,
                incomplete: incomplete_seen,
            }),
        )
    } else if incomplete_seen {
        Ok(
            (EntryPlan {
                final_action: set_aside(observed.final_file),
                part_action: set_aside(observed.part_file),
                reached: None,
                incomplete: true,
            }),
        )
    } else if entry.sha256 is None {
        Err(TransferError::MissingDigest)
    } else if observed.final_file matches Some(f) && holds_content(f, entry) {
        Ok(
            (EntryPlan {
                final_action: ArtifactAction::Keep,
                part_action: set_aside(observed.part_file),
                reached: Some(entry.size_bytes),
                incomplete: false,
            }),
        )
    } else {
        let final_action = set_aside(observed.final_file);
        match observed.part_file {
            None => Ok(
                (EntryPlan {
                    final_action,
                    part_action: ArtifactAction::Keep,
                    reached: None,
                    incomplete: true,
                }),
            ),
            Some(part) => if part.len < entry.size_bytes {
                Ok(
                    (EntryPlan {
                        final_action,
                        part_action: ArtifactAction::Keep,
                        reached: Some(part.len),
                        incomplete: true,
                    }),
                )
            } else if holds_content(part, entry) {
                Ok(
                    (EntryPlan {
                        final_action,
                        part_action: ArtifactAction::Publish,
                        reached: Some(entry.size_bytes),
                        incomplete: false,
                    }),
                )
            } else {
                Ok(
                    (EntryPlan {
                        final_action,
                        part_action: ArtifactAction::Quarantine,
                        reached: None,
                        incomplete: true,
                    }),
                )
            },
        }
    }
}

fn is_whole(file: &ObservedFile, entry: &TransferEntry) -> (b: bool)
    ensures
        b == holds_content(*file, *entry),
{
    if file.len != entry.size_bytes {
        return false;
    }
    match (&file.digest, &entry.sha256) {
        (Some(digest), Some(promised)) => digest.keeps(promised),
        _ => false,
    }
}

fn set_aside_found(file: &Option<ObservedFile>) -> (a: ArtifactAction)
    ensures
        a == set_aside(*file),
{
    if file.is_some() {
        ArtifactAction::Quarantine
    } else {
        ArtifactAction::Keep
    }
}

/// Decides what to do about one entry.
pub fn reconcile_entry(
    entry: &TransferEntry,
    observed: &ObservedEntry,
    incomplete_seen: bool,
) -> (r: Result<EntryPlan, TransferError>)
    ensures
        r == entry_plan(*entry, *observed, incomplete_seen),
{
    if entry.is_dir {
        return Ok(
            EntryPlan {
                final_action: ArtifactAction::Keep,
                part_action: ArtifactAction::Keep,
                reached: None,
                incomplete: incomplete_seen,
            },
        );
    }
    let final_action: ArtifactAction = set_aside_found(&observed.final_file);
    if incomplete_seen {
        return Ok(
            EntryPlan {
                final_action,
                part_action: set_aside_found(&observed.part_file),
                reached: None,
                incomplete: true,
            },
        );
    }
    if entry.sha256.is_none() {
        return Err(TransferError::MissingDigest);
    }
    if let Some(f) = &observed.final_file {
        if is_whole(f, entry) {
            return Ok(
                EntryPlan {
                    final_action: ArtifactAction::Keep,
                    part_action: set_aside_found(&observed.part_file),
                    reached: Some(entry.size_bytes),
                    incomplete: false,
                },
            );
        }
    }
    match &observed.part_file {
        None => Ok(
            EntryPlan {
                final_action,
                part_action: ArtifactAction::Keep,
                reached: None,
                incomplete: true,
            },
        ),
        Some(part) => if part.len < entry.size_bytes {
            Ok(
                EntryPlan {
                    final_action,
                    part_action: ArtifactAction::Keep,
                    reached: Some(part.len),
                    incomplete: true,
                },
            )
        } else if is_whole(part, entry) {
            Ok(
                EntryPlan {
                    final_action,
                    part_action: ArtifactAction::Publish,
                    reached: Some(entry.size_bytes),
                    incomplete: false,
                },
            )
        } else {
            Ok(
                EntryPlan {
                    final_action,
                    part_action: ArtifactAction::Quarantine,
                    reached: None,
                    incomplete: true,
                },
            )
        },
    }
}

/// How far the first entries carry a transfer.
pub ghost struct Progress {
    pub checkpoint: Option<TransferCheckpoint>,
    pub incomplete: bool,
}

/// How far the first `n` entries carry a transfer, given what was found of them.
pub open spec fn progress(
    manifest: TransferManifest,
    observed: Seq<ObservedEntry>,
    n: int,
) -> Result<Progress, TransferError>
    decreases n,
{
    if n <= 0 {
        Ok((Progress { checkpoint: None, incomplete: false }))
    } else {
        match progress(manifest, observed, n - 1) {
            Err(error) => Err(error),
            Ok(p) => match entry_plan(manifest.entries@[n - 1], observed[n - 1], p.incomplete) {
                Err(error) => Err(error),
                Ok(plan) => match plan.reached {
                    None => Ok(
                        (Progress { checkpoint: p.checkpoint, incomplete: plan.incomplete }),
                    ),
                    Some(offset) => match checkpoint_at(manifest, n - 1, offset) {
                        Err(error) => Err(error),
                        Ok(c) => Ok((Progress { checkpoint: Some(c), incomplete: plan.incomplete })),
                    },
                },
            },
        }
    }
}

/// A later failure cannot be preceded by an earlier one that was missed.
proof fn lemma_progress_error_stays(
    manifest: TransferManifest,
    observed: Seq<ObservedEntry>,
    i: int,
    n: int,
)
    requires
        0 <= i <= n,
        progress(manifest, observed, i) is Err,
    ensures
        progress(manifest, observed, n) == progress(manifest, observed, i),
    decreases n,
{
    if i < n {
        lemma_progress_error_stays(manifest, observed, i, n - 1);
    }
}

/// What to do about every entry, and the checkpoint that results.
#[derive(Debug)]
pub struct Reconciliation {
    pub checkpoint: Option<TransferCheckpoint>,
    pub incomplete: bool,
    pub plans: Vec<EntryPlan>,
}

/// Brings what was found on disk in line with the manifest.
pub fn reconcile_receive_checkpoint(
    manifest: &TransferManifest,
    observed: &Vec<ObservedEntry>,
) -> (r: Result<Reconciliation, TransferError>)
    requires
        observed.len() == manifest.entries.len(),
    ensures
        match r {
            Err(error) => progress(*manifest, observed@, observed@.len() as int) == Err::<
                Progress,
                TransferError,
            >(error),
            Ok(done) => {
                &&& progress(*manifest, observed@, observed@.len() as int) == Ok::<
                    Progress,
                    TransferError,
                >((Progress { checkpoint: done.checkpoint, incomplete: done.incomplete }))
                &&& done.plans@.len() == observed@.len()
                &&& forall|i: int|
                    0 <= i < observed@.len() ==> entry_plan(
                        manifest.entries@[i],
                        observed@[i],
                        progress(*manifest, observed@, i)->Ok_0.incomplete,
                    ) == Ok::<EntryPlan, TransferError>(#[trigger] done.plans@[i])
            },
        },
{
    let mut checkpoint: Option<TransferCheckpoint> = None;
    let mut incomplete: bool = false;
    let mut plans: Vec<EntryPlan> = Vec::new();
    let mut i: usize = 0;
    while i < observed.len()
        invariant
            i <= observed.len(),
            observed.len() == manifest.entries.len(),
            plans.len() == i,
            progress(*manifest, observed@, i as int) == Ok::<Progress, TransferError>(
                (Progress { checkpoint, incomplete }),
            ),
            forall|k: int|
                0 <= k < i ==> entry_plan(
                    manifest.entries@[k],
                    observed@[k],
                    progress(*manifest, observed@, k)->Ok_0.incomplete,
                ) == Ok::<EntryPlan, TransferError>(#[trigger] plans@[k]),
        decreases observed.len() - i,
    {
        let plan: EntryPlan = match reconcile_entry(
            &manifest.entries[i],
            &observed[i],
            incomplete,
        ) {
            Ok(plan) => plan,
            Err(error) => {
                proof {
                    lemma_progress_error_stays(*manifest, observed@, i + 1, observed@.len() as int);
                }
                return Err(error);
            },
        };
        if let Some(offset) = plan.reached {
            match checkpoint_after_chunk(manifest, i, offset) {
                Ok(c) => {
                    checkpoint = Some(c);
                },
                Err(error) => {
                    proof {
                        lemma_progress_error_stays(
                            *manifest,
                            observed@,
                            i + 1,
                            observed@.len() as int,
                        );
                    }
                    return Err(error);
                },
            }
        }
        incomplete = plan.incomplete;
        plans.push(plan);
        i += 1;
    }
    Ok(Reconciliation { checkpoint, incomplete, plans })
}

proof fn lemma_progress(manifest: TransferManifest, observed: Seq<ObservedEntry>, n: int)
    requires
        0 <= n <= manifest.entries@.len(),
        observed.len() == manifest.entries@.len(),
        progress(manifest, observed, n) is Ok,
    ensures
        ({
            let p = progress(manifest, observed, n)->Ok_0;
            &&& p.checkpoint matches Some(c) ==> c.id == manifest.id && c.file_index < n
                && checkpoint_verdict(manifest, c, false) is Ok
            &&& !p.incomplete ==> match last_file(manifest.entries@, n) {
                None => p.checkpoint is None,
                Some(i) => checkpoint_at(manifest, i, manifest.entries@[i].size_bytes) is Ok
                    && p.checkpoint == Some(
                    checkpoint_at(manifest, i, manifest.entries@[i].size_bytes)->Ok_0,
                ),
            }
        }),
    decreases n,
{
    if n > 0 {
        lemma_progress(manifest, observed, n - 1);
    }
}

/// The checkpoint that reconciliation gives is one that the manifest allows.
pub proof fn law_reconciled_checkpoints_are_valid(
    manifest: TransferManifest,
    observed: Seq<ObservedEntry>,
)
    requires
        observed.len() == manifest.entries@.len(),
        progress(manifest, observed, observed.len() as int) is Ok,
    ensures
        progress(manifest, observed, observed.len() as int)->Ok_0.checkpoint matches Some(c)
            ==> checkpoint_verdict(manifest, c, false) is Ok,
{
    lemma_progress(manifest, observed, observed.len() as int);
}

/// Where every file was found whole, nothing is left to transfer.
pub proof fn law_whole_files_leave_nothing_to_transfer(
    manifest: TransferManifest,
    observed: Seq<ObservedEntry>,
)
    requires
        observed.len() == manifest.entries@.len(),
        progress(manifest, observed, observed.len() as int) matches Ok(p) && !p.incomplete,
    ensures
        position_after(
            manifest,
            progress(manifest, observed, observed.len() as int)->Ok_0.checkpoint,
        ) == Ok::<Option<FilePosition>, TransferError>(None),
{
    let entries = manifest.entries@;
    lemma_progress(manifest, observed, observed.len() as int);
    lemma_last_file(entries, entries.len() as int);
    match last_file(entries, entries.len() as int) {
        Some(i) => {
            lemma_first_file(entries, i + 1);
        },
        None => {
            lemma_first_file(entries, 0);
        },
    }
}

proof fn lemma_incomplete_stays(
    manifest: TransferManifest,
    observed: Seq<ObservedEntry>,
    i: int,
    n: int,
)
    requires
        0 <= i <= n,
        progress(manifest, observed, n) is Ok,
        progress(manifest, observed, i)->Ok_0.incomplete,
        progress(manifest, observed, i) is Ok,
    ensures
        progress(manifest, observed, n)->Ok_0.incomplete,
        progress(manifest, observed, n)->Ok_0.checkpoint == progress(manifest, observed, i)->Ok_0.checkpoint,
    decreases n,
{
    if i < n {
        lemma_incomplete_stays(manifest, observed, i, n - 1);
    }
}

/// No file that follows an incomplete one stays where it was found, and none of
/// its bytes count.
pub proof fn law_nothing_after_an_incomplete_file_is_kept(
    manifest: TransferManifest,
    observed: Seq<ObservedEntry>,
    i: int,
    k: int,
)
    requires
        observed.len() == manifest.entries@.len(),
        progress(manifest, observed, observed.len() as int) is Ok,
        0 < i <= k < observed.len(),
        progress(manifest, observed, i) matches Ok(p) && p.incomplete,
        !manifest.entries@[k].is_dir,
    ensures
        ({
            let p = progress(manifest, observed, k);
            &&& p is Ok
            &&& entry_plan(manifest.entries@[k], observed[k], p->Ok_0.incomplete) matches Ok(plan)
                && plan.reached is None && (observed[k].final_file is Some ==> plan.final_action
                == ArtifactAction::Quarantine) && (observed[k].part_file is Some
                ==> plan.part_action == ArtifactAction::Quarantine)
        }),
{
    if progress(manifest, observed, k) is Err {
        lemma_progress_error_stays(manifest, observed, k, observed.len() as int);
    }
    lemma_incomplete_stays(manifest, observed, i, k);
}

/// A file is published or kept at its final path only with the promised content.
pub proof fn law_only_promised_content_is_published(
    entry: TransferEntry,
    observed: ObservedEntry,
    incomplete_seen: bool,
)
    requires
        !entry.is_dir,
        entry_plan(entry, observed, incomplete_seen) is Ok,
    ensures
        ({
            let plan = entry_plan(entry, observed, incomplete_seen)->Ok_0;
            &&& plan.part_action == ArtifactAction::Publish ==> (observed.part_file is Some
                && holds_content(observed.part_file->Some_0, entry))
            &&& (plan.final_action == ArtifactAction::Keep && observed.final_file is Some)
                ==> holds_content(observed.final_file->Some_0, entry)
            &&& plan.final_action != ArtifactAction::Publish
        }),
{
}

/// The state of a transfer that has just begun.
pub fn fresh_receive_state(id: TransferId, manifest_sha256: String) -> (state: ReceiveState)
    ensures
        state.schema_version == RECEIVE_STATE_SCHEMA_VERSION,
        state.transfer_id@ == hyphenated(id.0),
        state.manifest_sha256@ == manifest_sha256@,
        state.checkpoint is None,
        !state.complete,
{
    ReceiveState {
        schema_version: RECEIVE_STATE_SCHEMA_VERSION,
        transfer_id: id.text(),
        manifest_sha256,
        checkpoint: None,
        complete: false,
    }
}

/// Whether a state found on disk belongs to this manifest.
pub fn admit_existing_state(
    state: &ReceiveState,
    id: TransferId,
    manifest_sha256: &str,
) -> (r: Result<(), TransferError>)
    ensures
        r == (if state.schema_version == RECEIVE_STATE_SCHEMA_VERSION && state.transfer_id@
            == hyphenated(id.0) && state.manifest_sha256@ == manifest_sha256@ {
            Ok::<(), TransferError>(())
        } else {
            Err::<(), TransferError>(TransferError::ForeignDestination)
        }),
{
    let expected = id.text();
    if state.schema_version == RECEIVE_STATE_SCHEMA_VERSION && same_text(
        &state.transfer_id,
        &expected,
    ) && same_text(&state.manifest_sha256, manifest_sha256) {
        Ok(())
    } else {
        Err(TransferError::ForeignDestination)
    }
}

/// What becomes of the completion mark once disk and manifest agree.
pub open spec fn settled(
    manifest: TransferManifest,
    complete: bool,
    reconciled: Option<TransferCheckpoint>,
) -> Result<bool, TransferError> {
    match position_after(manifest, reconciled) {
        Err(error) => Err(error),
        Ok(Some(_)) => match reconciled {
            Some(c) => match checkpoint_verdict(manifest, c, false) {
                Err(error) => Err(error),
                Ok(_) => Ok(false),
            },
            None => Ok(false),
        },
        Ok(None) => if complete && first_file(manifest.entries@, 0) is None && reconciled is Some {
            Err(TransferError::UnexpectedFiles)
        } else if complete && first_file(manifest.entries@, 0) is Some {
            match terminal_of(manifest) {
                Err(error) => Err(error),
                Ok(terminal) => if reconciled != Some(terminal) {
                    Err(TransferError::DestinationChanged)
                } else {
                    Ok(true)
                },
            }
        } else {
            Ok(complete)
        },
    }
}

/// Puts a reconciled checkpoint into a found or fresh state. A transfer that
/// still misses bytes is no longer complete; one that claims to be complete must
/// match its manifest.
pub fn settle_receive_state(
    manifest: &TransferManifest,
    state: &mut ReceiveState,
    reconciled: Option<TransferCheckpoint>,
) -> (r: Result<(), TransferError>)
    ensures
        match settled(*manifest, old(state).complete, reconciled) {
            Err(error) => r == Err::<(), TransferError>(error),
            Ok(complete) => {
                &&& r == Ok::<(), TransferError>(())
                &&& final(state).complete == complete
                &&& final(state).checkpoint == (match reconciled {
                    Some(c) => Some(persisted(c)),
                    None => None,
                })
                &&& final(state).schema_version == old(state).schema_version
                &&& final(state).transfer_id == old(state).transfer_id
                &&& final(state).manifest_sha256 == old(state).manifest_sha256
            },
        },
{
    match next_file_position(manifest, reconciled) {
        Err(error) => {
            return Err(error);
        },
        Ok(Some(_)) => {
            state.complete = false;
        },
        Ok(None) => {},
    }
    if state.complete {
        if !has_files(manifest) {
            if reconciled.is_some() {
                return Err(TransferError::UnexpectedFiles);
            }
        } else {
            let terminal: TransferCheckpoint = match terminal_checkpoint(manifest) {
                Err(error) => {
                    return Err(error);
                },
                Ok(terminal) => terminal,
            };
            match reconciled {
                Some(c) => {
                    if c != terminal {
                        return Err(TransferError::DestinationChanged);
                    }
                },
                None => {
                    return Err(TransferError::DestinationChanged);
                },
            }
        }
    }
    if let Some(c) = reconciled {
        match validate_checkpoint(manifest, c, false) {
            Err(error) => {
                return Err(error);
            },
            Ok(_) => {},
        }
    }
    state.replace_checkpoint(reconciled);
    Ok(())
}

/// Whether an entry was found whole, under its name or as a part.
pub open spec fn found_whole(entry: TransferEntry, observed: ObservedEntry) -> bool {
    ||| observed.final_file matches Some(file) && holds_content(file, entry)
    ||| observed.part_file matches Some(file) && holds_content(file, entry)
}

/// The content that stands under the name of an entry that was found whole.
pub open spec fn standing_content(entry: TransferEntry, observed: ObservedEntry) -> Seq<u8> {
    if observed.final_file matches Some(file) && holds_content(file, entry) {
        observed.final_file->Some_0.digest->Some_0@
    } else {
        observed.part_file->Some_0.digest->Some_0@
    }
}

/// The contents that stand under their names once the plans of a reconciliation
/// are carried out.
pub open spec fn found_contents(manifest: TransferManifest, observed: Seq<ObservedEntry>) -> Map<
    int,
    Seq<u8>,
> {
    Map::new(
        |k: int|
            0 <= k < observed.len() && !manifest.entries@[k].is_dir && found_whole(
                manifest.entries@[k],
                observed[k],
            ),
        |k: int| standing_content(manifest.entries@[k], observed[k]),
    )
}

proof fn lemma_counted_files_were_whole(
    manifest: TransferManifest,
    observed: Seq<ObservedEntry>,
    n: int,
)
    requires
        0 <= n <= manifest.entries@.len(),
        observed.len() == manifest.entries@.len(),
        progress(manifest, observed, n) is Ok,
    ensures
        ({
            let p = progress(manifest, observed, n)->Ok_0;
            &&& forall|k: int| #[trigger]
                counted(manifest, p.checkpoint, k) ==> found_whole(
                    manifest.entries@[k],
                    observed[k],
                )
            &&& !p.incomplete ==> forall|k: int|
                0 <= k < n && !(#[trigger] manifest.entries@[k]).is_dir ==> found_whole(
                    manifest.entries@[k],
                    observed[k],
                )
        }),
    decreases n,
{
    if n > 0 {
        lemma_counted_files_were_whole(manifest, observed, n - 1);
        lemma_progress(manifest, observed, n - 1);
        lemma_progress(manifest, observed, n);
        let p = progress(manifest, observed, n)->Ok_0;
        assert forall|k: int| #[trigger] counted(manifest, p.checkpoint, k) implies found_whole(
            manifest.entries@[k],
            observed[k],
        ) by {
            let before = progress(manifest, observed, n - 1)->Ok_0;
            if counted(manifest, before.checkpoint, k) {
            } else {
                assert(!manifest.entries@[k].is_dir);
            }
        }
    }
}

/// How far a transfer has come, as what was found of it and of its state says.
pub open spec fn opening_error(
    manifest: TransferManifest,
    complete: bool,
    observed: Seq<ObservedEntry>,
) -> Option<TransferError> {
    match progress(manifest, observed, observed.len() as int) {
        Err(error) => Some(error),
        Ok(p) => match settled(manifest, complete, p.checkpoint) {
            Err(error) => Some(error),
            Ok(_) => None,
        },
    }
}

impl ReceiveSession {
    /// Opens the session of a transfer from its state and what was found on disk,
    /// and says what to do about each entry.
    pub fn open(
        manifest: TransferManifest,
        state: ReceiveState,
        observed: &Vec<ObservedEntry>,
    ) -> (r: Result<(ReceiveSession, Vec<EntryPlan>), TransferError>)
        requires
            observed.len() == manifest.entries.len(),
        ensures
            match r {
                Err(error) => opening_error(manifest, state.complete, observed@) == Some(error),
                Ok(opened) => {
                    let p = progress(manifest, observed@, observed@.len() as int);
                    &&& opening_error(manifest, state.complete, observed@) is None
                    &&& opened.0.manifest == manifest
                    &&& opened.0.kept() == p->Ok_0.checkpoint
                    &&& opened.0.state.complete == settled(
                        manifest,
                        state.complete,
                        p->Ok_0.checkpoint,
                    )->Ok_0
                    &&& opened.0.state.schema_version == state.schema_version
                    &&& opened.0.state.transfer_id == state.transfer_id
                    &&& opened.0.state.manifest_sha256 == state.manifest_sha256
                    &&& opened.0.writer is None
                    &&& opened.0.admitted is None
                    &&& opened.0.published@ == found_contents(manifest, observed@)
                    &&& opened.0.sound()
                    &&& opened.1@.len() == observed@.len()
                    &&& forall|i: int|
                        0 <= i < observed@.len() ==> entry_plan(
                            manifest.entries@[i],
                            observed@[i],
                            progress(manifest, observed@, i)->Ok_0.incomplete,
                        ) == Ok::<EntryPlan, TransferError>(#[trigger] opened.1@[i])
                },
            },
    {
        let mut state = state;
        let found: Reconciliation = match reconcile_receive_checkpoint(&manifest, observed) {
            Ok(found) => found,
            Err(error) => {
                return Err(error);
            },
        };
        proof {
            lemma_progress(manifest, observed@, observed@.len() as int);
            lemma_counted_files_were_whole(manifest, observed@, observed@.len() as int);
        }
        match settle_receive_state(&manifest, &mut state, found.checkpoint) {
            Ok(_) => {},
            Err(error) => {
                return Err(error);
            },
        }
        let session = ReceiveSession {
            manifest,
            state,
            writer: None,
            admitted: None,
            judged: Ghost(Seq::empty()),
            published: Ghost(found_contents(manifest, observed@)),
        };
        assert(session.kept() == found.checkpoint);
        Ok((session, found.plans))
    }
}

/// The next chunk of a transfer is admitted exactly where it is one of this transfer,
/// not compressed, as long as it says and no longer than allowed, begins at the very
/// byte that is awaited, stays within its file, and says that it is the last one
/// exactly where the file then ends. It is then written to where it belongs.
pub proof fn law_the_awaited_chunk_is_admitted(
    manifest: TransferManifest,
    checkpoint: Option<TransferCheckpoint>,
    writer_open: bool,
    chunk: TransferChunk,
    max_chunk_size: usize,
    at: FilePosition,
)
    requires
        position_after(manifest, checkpoint) == Ok::<Option<FilePosition>, TransferError>(Some(at)),
    ensures
        ({
            let entry = manifest.entries@[at.index as int];
            let end = chunk.offset + chunk.payload@.len();
            let verdict = chunk_verdict(manifest, checkpoint, writer_open, chunk, max_chunk_size);
            &&& verdict is Ok <==> {
                &&& chunk.transfer_id == manifest.id
                &&& !chunk.compressed
                &&& chunk.plain_len == chunk.payload@.len()
                &&& chunk.payload@.len() <= max_chunk_size
                &&& chunk.file_index == at.index
                &&& chunk.offset == at.offset
                &&& entry.sha256 is Some
                &&& end <= entry.size_bytes
                &&& chunk.final_chunk_for_file <==> end == entry.size_bytes
            }
            &&& verdict matches Ok(plan) ==> {
                &&& plan.index == at.index
                &&& plan.offset == at.offset
                &&& plan.end == end
                &&& plan.final_chunk <==> end == entry.size_bytes
                &&& plan.part_file == PartFile::Open <==> writer_open
                &&& plan.part_file == PartFile::Resume <==> !writer_open && (
                checkpoint matches Some(c) && c.file_index == at.index)
            }
        }),
{
}

/// Where nothing is awaited any more, every chunk is refused.
pub proof fn law_no_chunk_follows_the_last(
    manifest: TransferManifest,
    checkpoint: Option<TransferCheckpoint>,
    writer_open: bool,
    chunk: TransferChunk,
    max_chunk_size: usize,
)
    requires
        position_after(manifest, checkpoint) == Ok::<Option<FilePosition>, TransferError>(None),
    ensures
        chunk_verdict(manifest, checkpoint, writer_open, chunk, max_chunk_size) is Err,
{
}

/// A file is published exactly where its last chunk is there and its content has the
/// digest that was promised, and set aside exactly where it has another; before its
/// last chunk nothing is decided.
pub proof fn law_whole_files_are_published(plan: ChunkPlan, entry: TransferEntry, content: Seq<u8>)
    ensures
        write_outcome(plan, entry, content) == ReceiveWriteOutcome::Published <==> plan.final_chunk
            && entry.sha256 is Some && entry.sha256->Some_0@ == sha256_of(content),
        write_outcome(plan, entry, content) == ReceiveWriteOutcome::Partial <==> !plan.final_chunk,
{
}

/// A transfer is complete exactly where the sender counts the manifest's total, no byte
/// is awaited, no part file is open and the end of the manifest can be written down;
/// and what is acknowledged is that end.
pub proof fn law_finished_transfers_are_complete(
    session: ReceiveSession,
    transferred_bytes: u64,
    terminal: TransferCheckpoint,
)
    ensures
        completion_verdict(session, transferred_bytes) == Ok::<TransferCheckpoint, TransferError>(
            terminal,
        ) <==> {
            &&& transferred_bytes == session.manifest.total_bytes
            &&& position_after(session.manifest, session.kept()) == Ok::<
                Option<FilePosition>,
                TransferError,
            >(None)
            &&& session.writer is None
            &&& terminal_of(session.manifest) == Ok::<TransferCheckpoint, TransferError>(terminal)
        },
{
}

/// What a kept checkpoint stands for has its place and its count, under the transfer's
/// identifier.
pub proof fn law_kept_checkpoints_keep_their_place(kept: PersistedCheckpoint, id: TransferId)
    ensures
        resumed(Some(kept), id) == Some(
            (TransferCheckpoint {
                id,
                file_index: kept.file_index,
                offset: kept.offset,
                transferred_bytes: kept.transferred_bytes,
            }),
        ),
        resumed(None, id) is None,
{
}

/// What is found of the first file that is not known to be whole decides: a whole file
/// under its name stays and counts in full, a whole part is published and counts in
/// full, a shorter part stays and counts as far as it goes, and nothing else counts.
pub proof fn law_found_files_are_taken_up(entry: TransferEntry, observed: ObservedEntry)
    requires
        !entry.is_dir,
        entry.sha256 is Some,
    ensures
        ({
            let whole = |f: Option<ObservedFile>|
                f matches Some(file) && file.len == entry.size_bytes && (file.digest matches Some(
                    digest,
                ) && entry.sha256->Some_0@ == sha256_of(digest@));
            let plan = entry_plan(entry, observed, false)->Ok_0;
            &&& entry_plan(entry, observed, false) is Ok
            &&& whole(observed.final_file) ==> plan.reached == Some(entry.size_bytes)
                && plan.final_action == ArtifactAction::Keep && !plan.incomplete
            &&& !whole(observed.final_file) && whole(observed.part_file) ==> plan.reached == Some(
                entry.size_bytes,
            ) && plan.part_action == ArtifactAction::Publish && !plan.incomplete
            &&& !whole(observed.final_file) && (observed.part_file matches Some(part) && part.len
                < entry.size_bytes) ==> plan.reached == Some(observed.part_file->Some_0.len)
                && plan.part_action == ArtifactAction::Keep && plan.incomplete
            &&& !whole(observed.final_file) && !whole(observed.part_file) && !(
            observed.part_file matches Some(part) && part.len < entry.size_bytes) ==> plan.reached
                is None && plan.incomplete
            &&& !whole(observed.final_file) && observed.final_file is Some ==> plan.final_action
                == ArtifactAction::Quarantine
            &&& whole(observed.final_file) && observed.part_file is Some ==> plan.part_action
                == ArtifactAction::Quarantine
        }),
{
}

/// A directory neither counts nor changes whether something is missing.
pub proof fn law_found_directories_change_nothing(
    entry: TransferEntry,
    observed: ObservedEntry,
    incomplete_seen: bool,
)
    requires
        entry.is_dir,
    ensures
        entry_plan(entry, observed, incomplete_seen) == Ok::<EntryPlan, TransferError>(
            (EntryPlan {
                final_action: ArtifactAction::Keep,
                part_action: ArtifactAction::Keep,
                reached: None,
                incomplete: incomplete_seen,
            }),
        ),
{
}

proof fn lemma_whole_prefix(manifest: TransferManifest, observed: Seq<ObservedEntry>, n: int)
    requires
        0 <= n <= manifest.entries@.len() <= u32::MAX,
        observed.len() == manifest.entries@.len(),
        crate::checkpoint::totals_agree(manifest),
        forall|i: int|
            0 <= i < n && !(#[trigger] manifest.entries@[i]).is_dir ==> found_whole(
                manifest.entries@[i],
                observed[i],
            ),
    ensures
        progress(manifest, observed, n) is Ok,
        !progress(manifest, observed, n)->Ok_0.incomplete,
    decreases n,
{
    if n > 0 {
        lemma_whole_prefix(manifest, observed, n - 1);
        crate::checkpoint::lemma_file_bytes_grow(
            manifest.entries@,
            n,
            manifest.entries@.len() as int,
        );
        if !manifest.entries@[n - 1].is_dir {
            assert(found_whole(manifest.entries@[n - 1], observed[n - 1]));
        }
    }
}

/// A transfer whose files were all received goes on after the last of them, and one of
/// which the files up to some place are whole goes on inside the file at that place, as
/// far as its part reaches, or at its start where there is no part.
pub proof fn law_received_files_are_not_sent_again(
    manifest: TransferManifest,
    observed: Seq<ObservedEntry>,
    k: int,
)
    requires
        0 <= k <= manifest.entries@.len() <= u32::MAX,
        observed.len() == manifest.entries@.len(),
        crate::checkpoint::totals_agree(manifest),
        forall|i: int|
            0 <= i < k && !(#[trigger] manifest.entries@[i]).is_dir ==> found_whole(
                manifest.entries@[i],
                observed[i],
            ),
        k < manifest.entries@.len() ==> {
            let entry = manifest.entries@[k];
            &&& !entry.is_dir
            &&& entry.sha256 is Some
            &&& observed[k].final_file is None
            &&& observed[k].part_file matches Some(part) ==> part.len < entry.size_bytes
        },
        forall|i: int|
            k < i < manifest.entries@.len() && !(#[trigger] manifest.entries@[i]).is_dir
                ==> manifest.entries@[i].sha256 is Some,
    ensures
        ({
            let entries = manifest.entries@;
            let p = progress(manifest, observed, observed.len() as int);
            let next = position_after(manifest, p->Ok_0.checkpoint);
            &&& p is Ok
            &&& k == entries.len() ==> next == Ok::<Option<FilePosition>, TransferError>(None)
            &&& k < entries.len() ==> next == Ok::<Option<FilePosition>, TransferError>(
                Some(
                    (FilePosition {
                        index: k as usize,
                        offset: match observed[k].part_file {
                            Some(part) => part.len,
                            None => 0,
                        },
                        transferred_bytes: (file_bytes(entries, k) + (
                        match observed[k].part_file {
                            Some(part) => part.len as int,
                            None => 0,
                        })) as u64,
                    }),
                ),
            )
        }),
{
    let entries = manifest.entries@;
    lemma_whole_prefix(manifest, observed, k);
    if k == entries.len() {
        law_whole_files_leave_nothing_to_transfer(manifest, observed);
    } else {
        let at_k = progress(manifest, observed, k)->Ok_0;
        lemma_progress(manifest, observed, k);
        crate::checkpoint::lemma_file_bytes_grow(entries, k + 1, entries.len() as int);
        assert(file_bytes(entries, k + 1) == file_bytes(entries, k) + entries[k].size_bytes);
        let after = progress(manifest, observed, k + 1);
        assert(after is Ok && after->Ok_0.incomplete);
        lemma_rest_is_missing(manifest, observed, k + 1, entries.len() as int);
        lemma_incomplete_stays(manifest, observed, k + 1, entries.len() as int);
        let c = progress(manifest, observed, observed.len() as int)->Ok_0.checkpoint;
        assert(c == after->Ok_0.checkpoint);
        match observed[k].part_file {
            Some(part) => {
                assert(c == Some(checkpoint_at(manifest, k, part.len)->Ok_0));
            },
            None => {
                assert(c == at_k.checkpoint);
                lemma_last_file(entries, k);
                match last_file(entries, k) {
                    Some(i) => {
                        lemma_first_file(entries, i + 1);
                    },
                    None => {
                        lemma_first_file(entries, 0);
                    },
                }
            },
        }
    }
}

proof fn lemma_rest_is_missing(
    manifest: TransferManifest,
    observed: Seq<ObservedEntry>,
    from: int,
    n: int,
)
    requires
        0 <= from <= n <= manifest.entries@.len(),
        progress(manifest, observed, from) matches Ok(p) && p.incomplete,
    ensures
        progress(manifest, observed, n) matches Ok(p) && p.incomplete,
    decreases n,
{
    if from < n {
        lemma_rest_is_missing(manifest, observed, from, n - 1);
    }
}

/// A transfer that still awaits a byte is not complete; one that awaits none keeps its
/// mark, unless it claims an end that is not the one that was found.
pub proof fn law_the_completion_mark_is_checked(
    manifest: TransferManifest,
    complete: bool,
    reconciled: Option<TransferCheckpoint>,
)
    requires
        position_after(manifest, reconciled) is Ok,
    ensures
        position_after(manifest, reconciled)->Ok_0 is Some ==> settled(manifest, complete, reconciled)
            == Ok::<bool, TransferError>(false),
        position_after(manifest, reconciled)->Ok_0 is None && !complete ==> settled(
            manifest,
            complete,
            reconciled,
        ) == Ok::<bool, TransferError>(false),
        settled(manifest, complete, reconciled) == Ok::<bool, TransferError>(true) ==> complete && (
        match reconciled {
            Some(c) => terminal_of(manifest) == Ok::<TransferCheckpoint, TransferError>(c),
            None => first_file(manifest.entries@, 0) is None,
        }),
        position_after(manifest, reconciled)->Ok_0 is None && complete && (match reconciled {
            Some(c) => first_file(manifest.entries@, 0) is Some && terminal_of(manifest) == Ok::<
                TransferCheckpoint,
                TransferError,
            >(c),
            None => first_file(manifest.entries@, 0) is None,
        }) ==> settled(manifest, complete, reconciled) == Ok::<bool, TransferError>(true),
{
}

/// A refused chunk is refused for a fault that it has, and the error names that fault.
pub proof fn law_refused_chunks_name_their_fault(
    manifest: TransferManifest,
    checkpoint: Option<TransferCheckpoint>,
    writer_open: bool,
    chunk: TransferChunk,
    max_chunk_size: usize,
    at: FilePosition,
)
    requires
        position_after(manifest, checkpoint) == Ok::<Option<FilePosition>, TransferError>(Some(at)),
    ensures
        ({
            let entry = manifest.entries@[at.index as int];
            let end = chunk.offset + chunk.plain_len;
            match chunk_verdict(manifest, checkpoint, writer_open, chunk, max_chunk_size) {
                Ok(_) => true,
                Err(TransferError::ChunkIdMismatch) => chunk.transfer_id != manifest.id,
                Err(TransferError::ChunkCompressed) => chunk.compressed,
                Err(TransferError::ChunkPayloadLength) => chunk.payload@.len() != chunk.plain_len,
                Err(TransferError::ChunkTooLarge) => chunk.plain_len > max_chunk_size,
                Err(TransferError::ChunkWrongFile) => chunk.file_index != at.index,
                Err(TransferError::ChunkNotContiguous) => chunk.offset != at.offset,
                Err(TransferError::MissingDigest) => entry.sha256 is None,
                Err(TransferError::ChunkOffsetOverflow) => end > u64::MAX,
                Err(TransferError::ChunkPastFile) => entry.size_bytes < end <= u64::MAX,
                Err(TransferError::ChunkFinalMarker) => chunk.final_chunk_for_file != (end
                    == entry.size_bytes),
                Err(_) => false,
            }
        }),
{
}

} // verus!
