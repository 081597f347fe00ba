//! Which files may be trusted with what is persisted, and how they are named.

use vstd::prelude::*;

use crate::outside::uuid_text;
use crate::paths::last_dot;
use crate::paths::law_the_last_dot_is_found;
use crate::text::append;
use crate::text::concat;
use crate::text::decimal;
use crate::text::decimal_text;
use crate::text::hyphenated;
use crate::text::same_text;
use crate::text::to_chars;
use crate::text::from_chars;

verus! {

/// How many bytes are hashed at a time.
pub const HASH_BLOCK_BYTES: u64 = 65_536;

/// How often a free quarantine name is looked for.
pub const QUARANTINE_ATTEMPTS: u32 = 8;

/// What stands at a path. A link is not followed.
#[derive(Clone, Copy, PartialEq, Eq, Structural, Debug)]
pub enum FileKind {
    Regular,
    Directory,
    Symlink,
    Other,
}

/// What is known of a file. `mode` is absent where the platform has none, and
/// `modified_nanos` where the file system does not tell.
#[derive(Clone, Copy, PartialEq, Eq, Structural, Debug)]
pub struct FileFacts {
    pub kind: FileKind,
    pub len: u64,
    pub mode: Option<u32>,
    pub modified_nanos: Option<u128>,
}

/// Why a persisted file is not read.
#[derive(Clone, Copy, PartialEq, Eq, Structural, Debug)]
pub enum FileError {
    NotRegular,
    NotOwnerOnly,
    TooLong,
    Changed,
}

impl FileError {
    /// The wording of the failure, for a file that is described and lies at a path.
    pub open spec fn wording(
        self,
        description: Seq<char>,
        path: Seq<char>,
        max_bytes: nat,
    ) -> Seq<char> {
        match self {
            FileError::NotRegular => description + " is not a safe regular file"@,
            FileError::NotOwnerOnly => "owner-only permissions are required for `"@ + path + "`"@,
            FileError::TooLong => description + " exceeds the "@ + decimal(max_bytes)
                + "-byte limit"@,
            FileError::Changed => "file changed while its content digest was computed"@,
        }
    }

    /// The wording of the failure.
    pub fn message(self, description: &str, path: &str, max_bytes: u64) -> (m: String)
        ensures
            m@ == self.wording(description@, path@, max_bytes as nat),
    {
        match self {
            FileError::NotRegular => concat(description, " is not a safe regular file"),
            FileError::NotOwnerOnly => {
                let mut m = concat("owner-only permissions are required for `", path);
                append(&mut m, "`");
                m
            },
            FileError::TooLong => {
                let mut m = concat(description, " exceeds the ");
                append(&mut m, &decimal_text(max_bytes));
                append(&mut m, "-byte limit");
                m
            },
            FileError::Changed => "file changed while its content digest was computed".to_owned(),
        }
    }
}

/// Whether only the owner may use a file or directory. Where there are no
/// permissions, there is nothing to ask.
pub open spec fn owner_only(mode: Option<u32>, directory: bool) -> bool {
    match mode {
        None => true,
        Some(bits) => bits % 0o1000 == (if directory {
            0o700u32
        } else {
            0o600u32
        }),
    }
}

/// Whether only the owner may use a file or directory.
pub fn is_owner_only(mode: Option<u32>, directory: bool) -> (b: bool)
    ensures
        b == owner_only(mode, directory),
{
    match mode {
        None => true,
        Some(bits) => {
            let expected: u32 = if directory {
                0o700
            } else {
                0o600
            };
            bits % 0o1000 == expected
        },
    }
}

/// What is wrong with a persisted file.
pub open spec fn file_verdict(
    facts: FileFacts,
    max_bytes: u64,
    require_owner_only: bool,
) -> Option<FileError> {
    if facts.kind != FileKind::Regular {
        Some(FileError::NotRegular)
    } else if require_owner_only && !owner_only(facts.mode, false) {
        Some(FileError::NotOwnerOnly)
    } else if facts.len > max_bytes {
        Some(FileError::TooLong)
    } else {
        None
    }
}

/// Checks a persisted file: a regular one, the owner's alone where that is asked
/// for, and not too long.
pub fn check_persisted_file(facts: &FileFacts, max_bytes: u64, require_owner_only: bool) -> (r:
    Result<(), FileError>)
    ensures
        r == (match file_verdict(*facts, max_bytes, require_owner_only) {
            None => Ok::<(), FileError>(()),
            Some(e) => Err::<(), FileError>(e),
        }),
{
    if facts.kind != FileKind::Regular {
        Err(FileError::NotRegular)
    } else if require_owner_only && !is_owner_only(facts.mode, false) {
        Err(FileError::NotOwnerOnly)
    } else if facts.len > max_bytes {
        Err(FileError::TooLong)
    } else {
        Ok(())
    }
}

/// Checks what was read of a persisted file, which may have grown meanwhile.
pub fn check_read_length(read_bytes: usize, max_bytes: usize) -> (r: Result<(), FileError>)
    ensures
        r == (if read_bytes <= max_bytes {
            Ok::<(), FileError>(())
        } else {
            Err::<(), FileError>(FileError::TooLong)
        }),
{
    if read_bytes <= max_bytes {
        Ok(())
    } else {
        Err(FileError::TooLong)
    }
}

/// Whether a file that was hashed was the same before and after.
pub fn check_unchanged(before: &FileFacts, after: &FileFacts) -> (r: Result<(), FileError>)
    ensures
        r == (if before.kind != FileKind::Regular {
            Err::<(), FileError>(FileError::NotRegular)
        } else if after.kind == FileKind::Regular && before.len == after.len
            && before.modified_nanos == after.modified_nanos {
            Ok::<(), FileError>(())
        } else {
            Err::<(), FileError>(FileError::Changed)
        }),
{
    if before.kind != FileKind::Regular {
        return Err(FileError::NotRegular);
    }
    if after.kind == FileKind::Regular && before.len == after.len && before.modified_nanos
        == after.modified_nanos {
        Ok(())
    } else {
        Err(FileError::Changed)
    }
}

/// What a path is relied on for.
#[derive(Clone, Copy, PartialEq, Eq, Structural, Debug)]
pub enum FileRole {
    /// What a queued transfer sends.
    QueuedSource,
    /// What a transfer found where it writes a file.
    ReceivedFile,
    /// What is set aside because it is damaged.
    Artifact,
    /// What keeps how far a transfer has come.
    ReceiveState,
    /// What holds the files of a transfer that was begun before.
    TransferDestination,
    /// What holds everything that is received.
    DownloadRoot,
    /// What the queue's records are read from.
    Queue,
    /// What a queue record is to be written into.
    NewQueue,
}

impl FileRole {
    /// What has to stand at the path.
    pub open spec fn wanted(self) -> FileKind {
        match self {
            FileRole::QueuedSource | FileRole::ReceivedFile | FileRole::Artifact
            | FileRole::ReceiveState => FileKind::Regular,
            FileRole::TransferDestination | FileRole::DownloadRoot | FileRole::Queue | FileRole::NewQueue => FileKind::Directory,
        }
    }

    /// The wording where something else stands there.
    pub open spec fn wording(self) -> Seq<char> {
        match self {
            FileRole::QueuedSource => "queued source is no longer a regular file"@,
            FileRole::ReceivedFile => "receive destination contains an unsafe file"@,
            FileRole::Artifact => "refusing to quarantine an unsafe receive artifact"@,
            FileRole::ReceiveState => "receive state destination is unsafe"@,
            FileRole::TransferDestination => "existing transfer destination is unsafe"@,
            FileRole::DownloadRoot => "download root is not a safe directory"@,
            FileRole::Queue => "file-transfer queue is not a safe directory"@,
            FileRole::NewQueue => "file-transfer queue path is not a private directory"@,
        }
    }

    /// The wording where something else stands there.
    pub fn message(self) -> (m: &'static str)
        ensures
            m@ == self.wording(),
    {
        match self {
            FileRole::QueuedSource => "queued source is no longer a regular file",
            FileRole::ReceivedFile => "receive destination contains an unsafe file",
            FileRole::Artifact => "refusing to quarantine an unsafe receive artifact",
            FileRole::ReceiveState => "receive state destination is unsafe",
            FileRole::TransferDestination => "existing transfer destination is unsafe",
            FileRole::DownloadRoot => "download root is not a safe directory",
            FileRole::Queue => "file-transfer queue is not a safe directory",
            FileRole::NewQueue => "file-transfer queue path is not a private directory",
        }
    }
}

/// Checks that what stands at a path is what it is relied on for, and no link to
/// it. The refusal names the role.
pub fn check_kind(facts: &FileFacts, role: FileRole) -> (r: Result<(), FileRole>)
    ensures
        r == (if facts.kind == role.wanted() {
            Ok::<(), FileRole>(())
        } else {
            Err::<(), FileRole>(role)
        }),
{
    let wanted: FileKind = match role {
        FileRole::QueuedSource | FileRole::ReceivedFile | FileRole::Artifact
        | FileRole::ReceiveState => FileKind::Regular,
        FileRole::TransferDestination | FileRole::DownloadRoot | FileRole::Queue | FileRole::NewQueue => FileKind::Directory,
    };
    if facts.kind == wanted {
        Ok(())
    } else {
        Err(role)
    }
}

/// Nothing is read, written, set aside or trusted with a transfer through a link.
pub proof fn law_links_serve_no_role(role: FileRole)
    ensures
        role.wanted() != FileKind::Symlink,
        role.wanted() != FileKind::Other,
{
}

/// How many of the remaining bytes make up the next block.
pub open spec fn block_of(remaining: u64) -> u64 {
    if remaining <= HASH_BLOCK_BYTES {
        remaining
    } else {
        HASH_BLOCK_BYTES
    }
}

/// How many bytes to read next of a prefix that is hashed.
pub fn next_block(remaining: u64) -> (wanted: u64)
    ensures
        wanted == block_of(remaining),
{
    if remaining <= HASH_BLOCK_BYTES {
        remaining
    } else {
        HASH_BLOCK_BYTES
    }
}

/// What a file is called in quarantine.
pub fn quarantine_name(name: &str, drawn: u128) -> (r: String)
    ensures
        r@ == name@ + ".corrupt-"@ + hyphenated(drawn),
{
    let mut r = concat(name, ".corrupt-");
    append(&mut r, &uuid_text(drawn));
    r
}

/// What a queue record is called, and what it is called while it is written.
pub fn queue_record_names(transfer_id: &str) -> (names: (String, String))
    ensures
        names.0@ == transfer_id@ + ".toml"@,
        names.1@ == "."@ + transfer_id@ + ".tmp"@,
{
    let mut temporary = concat(".", transfer_id);
    append(&mut temporary, ".tmp");
    (concat(transfer_id, ".toml"), temporary)
}

/// Whether a name has an extension: what stands behind its last dot, unless that
/// is its first character.
pub open spec fn has_extension(name: Seq<char>, extension: Seq<char>) -> bool {
    last_dot(name) > 0 && name.skip(last_dot(name) + 1) == extension
}

/// Whether a name is that of a queue record.
pub fn is_queue_record_name(name: &str) -> (b: bool)
    ensures
        b == has_extension(name@, "toml"@),
{
    let mut v: Vec<char> = to_chars(name);
    let mut n: usize = v.len();
    assert(v@.take(n as int) =~= v@);
    while n > 0 && v[n - 1] != '.'
        invariant
            n <= v@.len(),
            v@ == name@,
            last_dot(name@) == last_dot(name@.take(n as int)),
        decreases n,
    {
        assert(v@.take(n as int).drop_last() =~= v@.take(n - 1));
        n -= 1;
    }
    if n <= 1 {
        return false;
    }
    assert(last_dot(name@) == n - 1);
    let tail: Vec<char> = v.split_off(n);
    assert(tail@ =~= name@.skip(n as int));
    same_text(&from_chars(&tail), "toml")
}

/// The name that a queued transfer is written under is that of a queue record,
/// and the name that it is first written under is not.
pub proof fn law_only_finished_records_are_read(transfer_id: Seq<char>)
    requires
        transfer_id.len() > 0,
    ensures
        has_extension(transfer_id + ".toml"@, "toml"@),
        !has_extension("."@ + transfer_id + ".tmp"@, "toml"@),
{
    reveal_strlit(".toml");
    reveal_strlit("toml");
    reveal_strlit(".tmp");
    reveal_strlit(".");
    reveal_with_fuel(last_dot, 6);
    let record = transfer_id + ".toml"@;
    let k = transfer_id.len() as int;
    assert(record.drop_last().drop_last().drop_last().drop_last() =~= transfer_id.push('.'));
    assert(last_dot(record) == k);
    assert(record.skip(k + 1) =~= "toml"@);
    let temporary = "."@ + transfer_id + ".tmp"@;
    assert(temporary.drop_last().drop_last().drop_last() =~= ("."@ + transfer_id).push('.'));
    assert(last_dot(temporary) == k + 1);
    assert(temporary.skip(k + 2).len() == 3);
}

/// A file is read exactly where it is a regular one, no longer than allowed, and where
/// that is asked readable and writable by its owner and by nobody else.
pub proof fn law_plain_private_files_are_read(
    facts: FileFacts,
    max_bytes: u64,
    require_owner_only: bool,
)
    ensures
        file_verdict(facts, max_bytes, require_owner_only) is None <==> facts.kind
            == FileKind::Regular && facts.len <= max_bytes && (!require_owner_only
            || facts.mode is None || facts.mode->Some_0 as int % 512 == 384),
        file_verdict(facts, max_bytes, require_owner_only) == Some(FileError::NotRegular)
            <==> facts.kind != FileKind::Regular,
        file_verdict(facts, max_bytes, require_owner_only) == Some(FileError::TooLong)
            ==> facts.len > max_bytes,
        file_verdict(facts, max_bytes, require_owner_only) == Some(FileError::NotOwnerOnly)
            ==> require_owner_only && facts.mode is Some && facts.mode->Some_0 as int % 512 != 384,
        file_verdict(facts, max_bytes, require_owner_only) != Some(FileError::Changed),
        owner_only(facts.mode, true) <==> facts.mode is None || facts.mode->Some_0 as int % 512
            == 448,
{
}

/// A content is read in blocks that are as long as possible: whole ones until the rest
/// fits into one.
pub proof fn law_blocks_are_as_long_as_possible(remaining: u64)
    ensures
        block_of(remaining) <= remaining,
        block_of(remaining) <= 65_536,
        block_of(remaining) == remaining || block_of(remaining) == 65_536,
        block_of(remaining) == 0 <==> remaining == 0,
{
}

/// An extension is what follows the last dot of a name, where that dot is not the
/// first character.
pub proof fn law_extensions_follow_the_last_dot(stem: Seq<char>, extension: Seq<char>)
    requires
        !extension.contains('.'),
    ensures
        has_extension(stem + seq!['.'] + extension, extension) <==> stem.len() > 0,
        forall|other: Seq<char>|
            other != extension ==> !(#[trigger] has_extension(stem + seq!['.'] + extension, other)),
        forall|other: Seq<char>| !(#[trigger] has_extension(extension, other)),
{
    let name = stem + seq!['.'] + extension;
    law_the_last_dot_is_found(stem, extension);
    assert(name.skip((stem.len() + 1) as int) =~= extension);
}

} // verus!
