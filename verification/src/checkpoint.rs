//! How far a transfer has come, and where it goes on.

use vstd::prelude::*;

use crate::ids::TransferId;
use crate::manifest::TransferEntry;
use crate::manifest::TransferManifest;
use crate::transfer_error::TransferError;

verus! {

/// A persisted position: everything before entry `file_index` and the first
/// `offset` bytes of that entry, `transferred_bytes` bytes in all.
#[derive(Clone, Copy, PartialEq, Eq, Structural, Debug)]
pub struct TransferCheckpoint {
    pub id: TransferId,
    pub file_index: u32,
    pub offset: u64,
    pub transferred_bytes: u64,
}

/// Where the next chunk belongs.
#[derive(Clone, Copy, PartialEq, Eq, Structural, Debug)]
pub struct FilePosition {
    pub index: usize,
    pub offset: u64,
    pub transferred_bytes: u64,
}

/// The bytes of the files among the first `n` entries.
pub open spec fn file_bytes(entries: Seq<TransferEntry>, n: int) -> nat
    decreases n,
{
    if n <= 0 {
        0
    } else {
        file_bytes(entries, n - 1) + if entries[n - 1].is_dir {
            0nat
        } else {
            entries[n - 1].size_bytes as nat
        }
    }
}

/// The first file at or after `from`.
pub open spec fn first_file(entries: Seq<TransferEntry>, from: int) -> Option<int>
    decreases entries.len() - from,
{
    if from >= entries.len() {
        None
    } else if !entries[from].is_dir {
        Some(from)
    } else {
        first_file(entries, from + 1)
    }
}

/// The last file before `n`.
pub open spec fn last_file(entries: Seq<TransferEntry>, n: int) -> Option<int>
    decreases n,
{
    if n <= 0 {
        None
    } else if !entries[n - 1].is_dir {
        Some(n - 1)
    } else {
        last_file(entries, n - 1)
    }
}

/// A longer prefix of the entries holds at least as many bytes.
pub proof fn lemma_file_bytes_grow(entries: Seq<TransferEntry>, i: int, j: int)
    requires
        0 <= i <= j <= entries.len(),
    ensures
        file_bytes(entries, i) <= file_bytes(entries, j),
    decreases j,
{
    if i < j {
        lemma_file_bytes_grow(entries, i, j - 1);
    }
}

/// The first file is a file, and only directories precede it.
pub proof fn lemma_first_file(entries: Seq<TransferEntry>, from: int)
    requires
        0 <= from <= entries.len(),
    ensures
        match first_file(entries, from) {
            Some(i) => from <= i < entries.len() && !entries[i].is_dir && file_bytes(entries, i)
                == file_bytes(entries, from) && forall|k: int|
                from <= k < i ==> (#[trigger] entries[k]).is_dir,
            None => file_bytes(entries, entries.len() as int) == file_bytes(entries, from)
                && forall|k: int|
                from <= k < entries.len() ==> (#[trigger] entries[k]).is_dir,
        },
    decreases entries.len() - from,
{
    if from < entries.len() && entries[from].is_dir {
        lemma_first_file(entries, from + 1);
    }
}

/// The last file is a file, and only directories follow it.
pub proof fn lemma_last_file(entries: Seq<TransferEntry>, n: int)
    requires
        0 <= n <= entries.len(),
    ensures
        match last_file(entries, n) {
            Some(i) => 0 <= i < n && !entries[i].is_dir && file_bytes(entries, n) == file_bytes(
                entries,
                i,
            ) + entries[i].size_bytes && forall|k: int|
                i < k < n ==> (#[trigger] entries[k]).is_dir,
            None => file_bytes(entries, n) == 0 && forall|k: int|
                0 <= k < n ==> (#[trigger] entries[k]).is_dir,
        },
    decreases n,
{
    if n > 0 && entries[n - 1].is_dir {
        lemma_last_file(entries, n - 1);
    }
}

/// The bytes of the files before an entry.
pub fn bytes_before_entry(manifest: &TransferManifest, entry_index: usize) -> (r: Result<
    u64,
    TransferError,
>)
    requires
        entry_index <= manifest.entries.len(),
    ensures
        r == bytes_before(manifest.entries@, entry_index as int),
{
    let mut total: u64 = 0;
    let mut i: usize = 0;
    while i < entry_index
        invariant
            i <= entry_index <= manifest.entries.len(),
            total == file_bytes(manifest.entries@, i as int),
        decreases entry_index - i,
    {
        if !manifest.entries[i].is_dir {
            match total.checked_add(manifest.entries[i].size_bytes) {
                Some(sum) => {
                    total = sum;
                },
                None => {
                    proof {
                        lemma_file_bytes_grow(manifest.entries@, i + 1, entry_index as int);
                    }
                    return Err(TransferError::ManifestByteTotalOverflow);
                },
            }
        }
        i += 1;
    }
    Ok(total)
}

/// The bytes before an entry, where they can be counted.
pub open spec fn bytes_before(entries: Seq<TransferEntry>, n: int) -> Result<u64, TransferError> {
    if file_bytes(entries, n) <= u64::MAX {
        Ok(file_bytes(entries, n) as u64)
    } else {
        Err(TransferError::ManifestByteTotalOverflow)
    }
}

/// What is wrong with a checkpoint, if anything. A directory may only carry one
/// where `allow_directory_terminal` holds.
pub open spec fn checkpoint_verdict(
    manifest: TransferManifest,
    checkpoint: TransferCheckpoint,
    allow_directory_terminal: bool,
) -> Result<(), TransferError> {
    let index = checkpoint.file_index as int;
    let entry = manifest.entries@[index];
    let before = file_bytes(manifest.entries@, index);
    if checkpoint.id != manifest.id {
        Err(TransferError::CheckpointIdMismatch)
    } else if index >= manifest.entries@.len() {
        Err(TransferError::CheckpointOutsideManifest)
    } else if entry.is_dir && !allow_directory_terminal {
        Err(TransferError::CheckpointAtDirectory)
    } else if entry.is_dir && checkpoint.offset != 0 {
        Err(TransferError::DirectoryCheckpointOffset)
    } else if !entry.is_dir && checkpoint.offset > entry.size_bytes {
        Err(TransferError::CheckpointPastFile)
    } else if before > u64::MAX {
        Err(TransferError::ManifestByteTotalOverflow)
    } else if before + checkpoint.offset > u64::MAX {
        Err(TransferError::CheckpointByteTotalOverflow)
    } else if checkpoint.transferred_bytes != before + checkpoint.offset {
        Err(TransferError::CheckpointInconsistent)
    } else {
        Ok(())
    }
}

/// Checks a checkpoint against the manifest.
pub fn validate_checkpoint(
    manifest: &TransferManifest,
    checkpoint: TransferCheckpoint,
    allow_directory_terminal: bool,
) -> (r: Result<(), TransferError>)
    ensures
        r == checkpoint_verdict(*manifest, checkpoint, allow_directory_terminal),
{
    if checkpoint.id != manifest.id {
        return Err(TransferError::CheckpointIdMismatch);
    }
    let index: usize = checkpoint.file_index as usize;
    if index >= manifest.entries.len() {
        return Err(TransferError::CheckpointOutsideManifest);
    }
    let entry = &manifest.entries[index];
    if entry.is_dir {
        if !allow_directory_terminal {
            return Err(TransferError::CheckpointAtDirectory);
        }
        if checkpoint.offset != 0 {
            return Err(TransferError::DirectoryCheckpointOffset);
        }
    } else if checkpoint.offset > entry.size_bytes {
        return Err(TransferError::CheckpointPastFile);
    }
    let before: u64 = match bytes_before_entry(manifest, index) {
        Ok(before) => before,
        Err(error) => {
            return Err(error);
        },
    };
    match before.checked_add(checkpoint.offset) {
        Some(expected) => if checkpoint.transferred_bytes != expected {
            Err(TransferError::CheckpointInconsistent)
        } else {
            Ok(())
        },
        None => Err(TransferError::CheckpointByteTotalOverflow),
    }
}

/// The start of the first file at or after `from`.
pub open spec fn start_of_next_file(manifest: TransferManifest, from: int) -> Result<
    Option<FilePosition>,
    TransferError,
> {
    match first_file(manifest.entries@, from) {
        None => Ok(None),
        Some(i) => match bytes_before(manifest.entries@, i) {
            Err(error) => Err(error),
            Ok(before) => Ok(
                Some((FilePosition { index: i as usize, offset: 0, transferred_bytes: before })),
            ),
        },
    }
}

/// Where a transfer goes on: inside the checkpointed file, or at the start of
/// the first file that follows it.
pub open spec fn position_after(
    manifest: TransferManifest,
    checkpoint: Option<TransferCheckpoint>,
) -> Result<Option<FilePosition>, TransferError> {
    match checkpoint {
        None => start_of_next_file(manifest, 0),
        Some(c) => match checkpoint_verdict(manifest, c, false) {
            Err(error) => Err(error),
            Ok(_) => if c.offset < manifest.entries@[c.file_index as int].size_bytes {
                Ok(
                    Some(
                        (FilePosition {
                            index: c.file_index as usize,
                            offset: c.offset,
                            transferred_bytes: c.transferred_bytes,
                        }),
                    ),
                )
            } else {
                start_of_next_file(manifest, c.file_index + 1)
            },
        },
    }
}

/// Where a transfer goes on after a checkpoint, or from its start.
pub fn next_file_position(
    manifest: &TransferManifest,
    checkpoint: Option<TransferCheckpoint>,
) -> (r: Result<Option<FilePosition>, TransferError>)
    ensures
        r == position_after(*manifest, checkpoint),
{
    let mut i: usize = 0;
    match checkpoint {
        Some(c) => {
            match validate_checkpoint(manifest, c, false) {
                Ok(_) => {},
                Err(error) => {
                    return Err(error);
                },
            }
            let index: usize = c.file_index as usize;
            let count: usize = manifest.entries.len();
            assert(index < count);
            if c.offset < manifest.entries[index].size_bytes {
                return Ok(
                    Some(
                        FilePosition {
                            index,
                            offset: c.offset,
                            transferred_bytes: c.transferred_bytes,
                        },
                    ),
                );
            }
            i = index + 1;
        },
        None => {},
    }
    let ghost from = i as int;
    while i < manifest.entries.len()
        invariant
            from <= i <= manifest.entries.len(),
            first_file(manifest.entries@, from) == first_file(manifest.entries@, i as int),
            position_after(*manifest, checkpoint) == start_of_next_file(*manifest, from),
        decreases manifest.entries.len() - i,
    {
        if !manifest.entries[i].is_dir {
            return match bytes_before_entry(manifest, i) {
                Ok(before) => Ok(
                    Some(FilePosition { index: i, offset: 0, transferred_bytes: before }),
                ),
                Err(error) => Err(error),
            };
        }
        i += 1;
    }
    Ok(None)
}

/// The checkpoint of a finished transfer: the end of its last file, or its last
/// directory where it has no file.
pub open spec fn terminal_of(manifest: TransferManifest) -> Result<
    TransferCheckpoint,
    TransferError,
> {
    let entries = manifest.entries@;
    match last_file(entries, entries.len() as int) {
        Some(i) => if i > u32::MAX {
            Err(TransferError::TerminalIndexTooLarge)
        } else {
            Ok(
                (TransferCheckpoint {
                    id: manifest.id,
                    file_index: i as u32,
                    offset: entries[i].size_bytes,
                    transferred_bytes: manifest.total_bytes,
                }),
            )
        },
        None => if entries.len() == 0 || entries.len() - 1 > u32::MAX {
            Err(TransferError::EmptyManifest)
        } else {
            Ok(
                (TransferCheckpoint {
                    id: manifest.id,
                    file_index: (entries.len() - 1) as u32,
                    offset: 0,
                    transferred_bytes: manifest.total_bytes,
                }),
            )
        },
    }
}

/// The checkpoint of a finished transfer.
pub fn terminal_checkpoint(manifest: &TransferManifest) -> (r: Result<
    TransferCheckpoint,
    TransferError,
>)
    ensures
        r == terminal_of(*manifest),
{
    let mut n: usize = manifest.entries.len();
    while n > 0
        invariant
            n <= manifest.entries.len(),
            last_file(manifest.entries@, manifest.entries@.len() as int) == last_file(
                manifest.entries@,
                n as int,
            ),
        decreases n,
    {
        let entry = &manifest.entries[n - 1];
        if !entry.is_dir {
            if n - 1 > 0xffff_ffff {
                return Err(TransferError::TerminalIndexTooLarge);
            }
            return Ok(
                TransferCheckpoint {
                    id: manifest.id,
                    file_index: (n - 1) as u32,
                    offset: entry.size_bytes,
                    transferred_bytes: manifest.total_bytes,
                },
            );
        }
        n -= 1;
    }
    let count: usize = manifest.entries.len();
    if count == 0 || count - 1 > 0xffff_ffff {
        return Err(TransferError::EmptyManifest);
    }
    Ok(
        TransferCheckpoint {
            id: manifest.id,
            file_index: (count - 1) as u32,
            offset: 0,
            transferred_bytes: manifest.total_bytes,
        },
    )
}

/// The checkpoint after the first `offset` bytes of an entry.
pub open spec fn checkpoint_at(manifest: TransferManifest, file_index: int, offset: u64) -> Result<
    TransferCheckpoint,
    TransferError,
> {
    let before = file_bytes(manifest.entries@, file_index);
    if before > u64::MAX {
        Err(TransferError::ManifestByteTotalOverflow)
    } else if before + offset > u64::MAX {
        Err(TransferError::ChunkCheckpointOverflow)
    } else if file_index > u32::MAX {
        Err(TransferError::FileIndexTooLarge)
    } else {
        Ok(
            (TransferCheckpoint {
                id: manifest.id,
                file_index: file_index as u32,
                offset,
                transferred_bytes: (before + offset) as u64,
            }),
        )
    }
}

/// The checkpoint after the first `offset` bytes of an entry.
pub fn checkpoint_after_chunk(manifest: &TransferManifest, file_index: usize, offset: u64) -> (r:
    Result<TransferCheckpoint, TransferError>)
    requires
        file_index <= manifest.entries.len(),
    ensures
        r == checkpoint_at(*manifest, file_index as int, offset),
{
    let before: u64 = match bytes_before_entry(manifest, file_index) {
        Ok(before) => before,
        Err(error) => {
            return Err(error);
        },
    };
    match before.checked_add(offset) {
        None => Err(TransferError::ChunkCheckpointOverflow),
        Some(transferred_bytes) => if file_index > 0xffff_ffff {
            Err(TransferError::FileIndexTooLarge)
        } else {
            Ok(
                TransferCheckpoint {
                    id: manifest.id,
                    file_index: file_index as u32,
                    offset,
                    transferred_bytes,
                },
            )
        },
    }
}

/// The checkpoint at the end of the last file before an entry.
pub open spec fn checkpoint_before(manifest: TransferManifest, entry_index: int) -> Result<
    Option<TransferCheckpoint>,
    TransferError,
> {
    match last_file(manifest.entries@, entry_index) {
        None => Ok(None),
        Some(i) => match checkpoint_at(manifest, i, manifest.entries@[i].size_bytes) {
            Ok(c) => Ok(Some(c)),
            Err(error) => Err(error),
        },
    }
}

/// The checkpoint at the end of the last file before an entry, if there is one.
pub fn checkpoint_before_entry(manifest: &TransferManifest, entry_index: usize) -> (r: Result<
    Option<TransferCheckpoint>,
    TransferError,
>)
    requires
        entry_index <= manifest.entries.len(),
    ensures
        r == checkpoint_before(*manifest, entry_index as int),
{
    let mut n: usize = entry_index;
    while n > 0
        invariant
            n <= entry_index <= manifest.entries.len(),
            last_file(manifest.entries@, entry_index as int) == last_file(
                manifest.entries@,
                n as int,
            ),
        decreases n,
    {
        if !manifest.entries[n - 1].is_dir {
            let size: u64 = manifest.entries[n - 1].size_bytes;
            return match checkpoint_after_chunk(manifest, n - 1, size) {
                Ok(c) => Ok(Some(c)),
                Err(error) => Err(error),
            };
        }
        n -= 1;
    }
    Ok(None)
}

/// Whether a manifest lists any file.
pub fn has_files(manifest: &TransferManifest) -> (b: bool)
    ensures
        b == (first_file(manifest.entries@, 0) is Some),
{
    let mut i: usize = 0;
    while i < manifest.entries.len()
        invariant
            i <= manifest.entries.len(),
            first_file(manifest.entries@, 0) == first_file(manifest.entries@, i as int),
        decreases manifest.entries.len() - i,
    {
        if !manifest.entries[i].is_dir {
            return true;
        }
        i += 1;
    }
    false
}

/// A manifest whose total is the sum of its files.
pub open spec fn totals_agree(manifest: TransferManifest) -> bool {
    manifest.total_bytes == file_bytes(manifest.entries@, manifest.entries@.len() as int)
}

/// Every checkpoint that is made inside a file is a valid one.
pub proof fn law_made_checkpoints_are_valid(manifest: TransferManifest, index: int, offset: u64)
    requires
        0 <= index < manifest.entries@.len(),
        !manifest.entries@[index].is_dir,
        offset <= manifest.entries@[index].size_bytes,
        checkpoint_at(manifest, index, offset) is Ok,
    ensures
        checkpoint_verdict(manifest, checkpoint_at(manifest, index, offset)->Ok_0, false) is Ok,
{
}

/// The checkpoint to which a refused file falls back is valid, and the transfer
/// goes on from it at the start of the first file at or after the refused one.
pub proof fn law_falling_back_repeats_the_refused_file(manifest: TransferManifest, index: int)
    requires
        0 <= index < manifest.entries@.len(),
        !manifest.entries@[index].is_dir,
        checkpoint_before(manifest, index) is Ok,
        file_bytes(manifest.entries@, index) <= u64::MAX,
        manifest.entries@.len() <= usize::MAX,
    ensures
        checkpoint_before(manifest, index)->Ok_0 matches Some(c) ==> checkpoint_verdict(
            manifest,
            c,
            false,
        ) is Ok,
        position_after(manifest, checkpoint_before(manifest, index)->Ok_0) == Ok::<
            Option<FilePosition>,
            TransferError,
        >(
            Some(
                (FilePosition {
                    index: index as usize,
                    offset: 0,
                    transferred_bytes: file_bytes(manifest.entries@, index) as u64,
                }),
            ),
        ),
{
    let entries = manifest.entries@;
    lemma_last_file(entries, index);
    match last_file(entries, index) {
        Some(i) => {
            lemma_first_file(entries, i + 1);
            lemma_first_is(entries, i + 1, index);
        },
        None => {
            lemma_first_is(entries, 0, index);
        },
    }
}

proof fn lemma_first_is(entries: Seq<TransferEntry>, from: int, index: int)
    requires
        0 <= from <= index < entries.len(),
        !entries[index].is_dir,
        forall|k: int| from <= k < index ==> (#[trigger] entries[k]).is_dir,
    ensures
        first_file(entries, from) == Some(index),
    decreases index - from,
{
    if from < index {
        assert(entries[from].is_dir);
        lemma_first_is(entries, from + 1, index);
    }
}

/// The terminal checkpoint of a manifest with files is valid and leaves nothing
/// to transfer.
pub proof fn law_terminal_checkpoint_ends_the_transfer(manifest: TransferManifest)
    requires
        totals_agree(manifest),
        first_file(manifest.entries@, 0) is Some,
        terminal_of(manifest) is Ok,
    ensures
        checkpoint_verdict(manifest, terminal_of(manifest)->Ok_0, false) is Ok,
        position_after(manifest, Some(terminal_of(manifest)->Ok_0)) == Ok::<
            Option<FilePosition>,
            TransferError,
        >(None),
{
    let entries = manifest.entries@;
    lemma_first_file(entries, 0);
    lemma_last_file(entries, entries.len() as int);
    let first = first_file(entries, 0)->Some_0;
    assert(!entries[first].is_dir);
    match last_file(entries, entries.len() as int) {
        Some(i) => {
            lemma_first_file(entries, i + 1);
            lemma_file_bytes_grow(entries, i, entries.len() as int);
        },
        None => {
            assert(entries[first].is_dir);
        },
    }
}

/// Where nothing is left to transfer, every file lies at or before the
/// checkpoint and the checkpoint counts the bytes of the whole manifest.
pub proof fn law_nothing_left_means_every_byte_counted(
    manifest: TransferManifest,
    checkpoint: TransferCheckpoint,
)
    requires
        position_after(manifest, Some(checkpoint)) == Ok::<Option<FilePosition>, TransferError>(
            None,
        ),
    ensures
        checkpoint.transferred_bytes == file_bytes(
            manifest.entries@,
            manifest.entries@.len() as int,
        ),
        forall|k: int|
            checkpoint.file_index < k < manifest.entries@.len() ==> (
            #[trigger] manifest.entries@[k]).is_dir,
{
    let entries = manifest.entries@;
    lemma_first_file(entries, checkpoint.file_index + 1);
}

/// Persisting a chunk at the expected position advances the transfer: the new
/// checkpoint is valid, counts exactly the chunk's bytes more, and what comes
/// next lies strictly further on.
pub proof fn law_a_persisted_chunk_advances(
    manifest: TransferManifest,
    checkpoint: Option<TransferCheckpoint>,
    length: u64,
)
    requires
        manifest.entries@.len() <= usize::MAX,
        position_after(manifest, checkpoint) matches Ok(Some(at)) && at.offset + length
            <= manifest.entries@[at.index as int].size_bytes && checkpoint_at(
            manifest,
            at.index as int,
            (at.offset + length) as u64,
        ) is Ok,
    ensures
        ({
            let at = position_after(manifest, checkpoint)->Ok_0->Some_0;
            let c = checkpoint_at(manifest, at.index as int, (at.offset + length) as u64)->Ok_0;
            &&& checkpoint_verdict(manifest, c, false) is Ok
            &&& c.transferred_bytes == at.transferred_bytes + length
            &&& match position_after(manifest, Some(c)) {
                Ok(Some(next)) => {
                    ||| next.index > at.index
                    ||| next.index == at.index && next.offset == at.offset + length
                },
                Ok(None) => true,
                Err(error) => error == TransferError::ManifestByteTotalOverflow,
            }
        }),
{
    let entries = manifest.entries@;
    let at = position_after(manifest, checkpoint)->Ok_0->Some_0;
    match checkpoint {
        Some(c) => {
            lemma_first_file(entries, c.file_index + 1);
        },
        None => {
            lemma_first_file(entries, 0);
        },
    }
    lemma_first_file(entries, at.index + 1);
}

/// The bytes before a place are those of the files that stand before it, one by one:
/// a file adds its size, a directory nothing.
pub proof fn law_files_add_up(entries: Seq<TransferEntry>, n: int)
    requires
        0 <= n < entries.len(),
    ensures
        file_bytes(entries, 0) == 0,
        file_bytes(entries, n + 1) - file_bytes(entries, n) == (if entries[n].is_dir {
            0
        } else {
            entries[n].size_bytes as int
        }),
{
}

/// A checkpoint is valid exactly where it is one of this transfer, names an entry,
/// stands within a file or, where that is allowed, at a directory with nothing of it
/// done, and counts the bytes of the files before it and its own.
pub proof fn law_checkpoints_are_valid_inside_their_file(
    manifest: TransferManifest,
    checkpoint: TransferCheckpoint,
    allow_directory_terminal: bool,
)
    ensures
        checkpoint_verdict(manifest, checkpoint, allow_directory_terminal) is Ok <==> {
            let at = checkpoint.file_index as int;
            &&& checkpoint.id == manifest.id
            &&& at < manifest.entries@.len()
            &&& manifest.entries@[at].is_dir ==> allow_directory_terminal && checkpoint.offset == 0
            &&& !manifest.entries@[at].is_dir ==> checkpoint.offset
                <= manifest.entries@[at].size_bytes
            &&& checkpoint.transferred_bytes == file_bytes(manifest.entries@, at)
                + checkpoint.offset
        },
{
}

/// From the start, a transfer begins with the first file, at its first byte and with
/// nothing counted yet; without a file there is nothing to transfer.
pub proof fn law_transfers_start_with_the_first_file(manifest: TransferManifest, k: int)
    ensures
        0 <= k < manifest.entries@.len() && !manifest.entries@[k].is_dir && (forall|i: int|
            0 <= i < k ==> (#[trigger] manifest.entries@[i]).is_dir) ==> position_after(
            manifest,
            None,
        ) == Ok::<Option<FilePosition>, TransferError>(
            Some((FilePosition { index: k as usize, offset: 0, transferred_bytes: 0 })),
        ),
        (forall|i: int| 0 <= i < manifest.entries@.len() ==> (#[trigger] manifest.entries@[i]).is_dir)
            ==> position_after(manifest, None) == Ok::<Option<FilePosition>, TransferError>(None),
{
    lemma_first_file(manifest.entries@, 0);
}

/// After a checkpoint inside a file a transfer goes on right there, and after one at
/// a file's end with the next file, at its first byte and with everything before it
/// counted; where no file follows nothing is left.
pub proof fn law_transfers_go_on_behind_their_checkpoint(
    manifest: TransferManifest,
    c: TransferCheckpoint,
    k: int,
)
    requires
        checkpoint_verdict(manifest, c, false) is Ok,
        totals_agree(manifest),
    ensures
        ({
            let entries = manifest.entries@;
            let here = c.file_index as int;
            let left = c.offset < entries[here].size_bytes;
            &&& left ==> position_after(manifest, Some(c)) == Ok::<
                Option<FilePosition>,
                TransferError,
            >(
                Some(
                    (FilePosition {
                        index: here as usize,
                        offset: c.offset,
                        transferred_bytes: c.transferred_bytes,
                    }),
                ),
            )
            &&& !left && here < k < entries.len() && !entries[k].is_dir && (forall|i: int|
                here < i < k ==> (#[trigger] entries[i]).is_dir) ==> position_after(
                manifest,
                Some(c),
            ) == Ok::<Option<FilePosition>, TransferError>(
                Some(
                    (FilePosition {
                        index: k as usize,
                        offset: 0,
                        transferred_bytes: c.transferred_bytes,
                    }),
                ),
            )
            &&& !left && (forall|i: int|
                here < i < entries.len() ==> (#[trigger] entries[i]).is_dir) ==> position_after(
                manifest,
                Some(c),
            ) == Ok::<Option<FilePosition>, TransferError>(None)
        }),
{
    let entries = manifest.entries@;
    let here = c.file_index as int;
    lemma_first_file(entries, here + 1);
    if here < k < entries.len() {
        lemma_file_bytes_grow(entries, k, entries.len() as int);
        assert(file_bytes(entries, here + 1) == file_bytes(entries, here) + entries[here].size_bytes);
    }
}

/// The checkpoint of a finished transfer stands at the end of its last file, or, where
/// it has none, at its last directory, and counts every byte.
pub proof fn law_finished_transfers_end_at_the_last_file(manifest: TransferManifest, k: int)
    requires
        0 < manifest.entries@.len() <= u32::MAX,
    ensures
        ({
            let entries = manifest.entries@;
            &&& 0 <= k < entries.len() && !entries[k].is_dir && (forall|i: int|
                k < i < entries.len() ==> (#[trigger] entries[i]).is_dir) ==> terminal_of(manifest)
                == Ok::<TransferCheckpoint, TransferError>(
                (TransferCheckpoint {
                    id: manifest.id,
                    file_index: k as u32,
                    offset: entries[k].size_bytes,
                    transferred_bytes: manifest.total_bytes,
                }),
            )
            &&& (forall|i: int| 0 <= i < entries.len() ==> (#[trigger] entries[i]).is_dir)
                ==> terminal_of(manifest) == Ok::<TransferCheckpoint, TransferError>(
                (TransferCheckpoint {
                    id: manifest.id,
                    file_index: (entries.len() - 1) as u32,
                    offset: 0,
                    transferred_bytes: manifest.total_bytes,
                }),
            )
        }),
{
    lemma_last_file(manifest.entries@, manifest.entries@.len() as int);
}

/// The checkpoint of a place counts the files before it and the bytes of its own, and
/// there is one wherever these numbers can be written.
pub proof fn law_checkpoints_count_what_came_before(
    manifest: TransferManifest,
    index: int,
    offset: u64,
)
    requires
        0 <= index <= u32::MAX,
    ensures
        checkpoint_at(manifest, index, offset) is Ok <==> file_bytes(manifest.entries@, index)
            + offset <= u64::MAX,
        checkpoint_at(manifest, index, offset) matches Ok(c) ==> c.id == manifest.id && c.file_index
            == index && c.offset == offset && c.transferred_bytes == file_bytes(
            manifest.entries@,
            index,
        ) + offset,
{
}

/// Falling back to an entry keeps the last file before it, whole, and nothing where
/// there is none.
pub proof fn law_falling_back_keeps_the_file_before(
    manifest: TransferManifest,
    entry_index: int,
    k: int,
)
    requires
        totals_agree(manifest),
        0 <= entry_index <= manifest.entries@.len() <= u32::MAX,
    ensures
        ({
            let entries = manifest.entries@;
            &&& 0 <= k < entry_index && !entries[k].is_dir && (forall|i: int|
                k < i < entry_index ==> (#[trigger] entries[i]).is_dir) ==> checkpoint_before(
                manifest,
                entry_index,
            ) == Ok::<Option<TransferCheckpoint>, TransferError>(
                Some(
                    (TransferCheckpoint {
                        id: manifest.id,
                        file_index: k as u32,
                        offset: entries[k].size_bytes,
                        transferred_bytes: file_bytes(entries, k + 1) as u64,
                    }),
                ),
            )
            &&& (forall|i: int| 0 <= i < entry_index ==> (#[trigger] entries[i]).is_dir)
                ==> checkpoint_before(manifest, entry_index) == Ok::<
                Option<TransferCheckpoint>,
                TransferError,
            >(None)
        }),
{
    let entries = manifest.entries@;
    lemma_last_file(entries, entry_index);
    if 0 <= k < entry_index {
        lemma_file_bytes_grow(entries, k + 1, entries.len() as int);
    }
}

/// A refused checkpoint is refused for a fault that it has, and the error names that
/// fault.
pub proof fn law_refused_checkpoints_name_their_fault(
    manifest: TransferManifest,
    checkpoint: TransferCheckpoint,
    allow_directory_terminal: bool,
)
    ensures
        ({
            let index = checkpoint.file_index as int;
            let entry = manifest.entries@[index];
            let before = file_bytes(manifest.entries@, index);
            match checkpoint_verdict(manifest, checkpoint, allow_directory_terminal) {
                Ok(_) => checkpoint.id == manifest.id && index < manifest.entries@.len()
                    && checkpoint.transferred_bytes == before + checkpoint.offset,
                Err(TransferError::CheckpointIdMismatch) => checkpoint.id != manifest.id,
                Err(TransferError::CheckpointOutsideManifest) => index >= manifest.entries@.len(),
                Err(TransferError::CheckpointAtDirectory) => entry.is_dir
                    && !allow_directory_terminal,
                Err(TransferError::DirectoryCheckpointOffset) => entry.is_dir && checkpoint.offset
                    != 0,
                Err(TransferError::CheckpointPastFile) => !entry.is_dir && checkpoint.offset
                    > entry.size_bytes,
                Err(TransferError::ManifestByteTotalOverflow) => before > u64::MAX,
                Err(TransferError::CheckpointByteTotalOverflow) => before + checkpoint.offset
                    > u64::MAX,
                Err(TransferError::CheckpointInconsistent) => checkpoint.transferred_bytes != before
                    + checkpoint.offset && before + checkpoint.offset <= u64::MAX,
                Err(_) => false,
            }
        }),
{
}

} // verus!
