//! Turning local paths into the entries of a transfer.

use vstd::prelude::*;

use crate::content::FileDigest;
use crate::digest::digest_text;
use crate::digest::hex_bytes;
use crate::manifest::entry_limit;
use crate::manifest::max_entries;
use crate::manifest::FileTransferConfig;
use crate::manifest::WireLimits;
use crate::outside::lowercase;
use crate::outside::lowercase_of;
use crate::outside::sha256_of;
use crate::transfer_error::TransferError;

verus! {

/// One selected file or directory, as it is kept in the queue.
#[derive(Clone, Debug)]
pub struct QueuedSource {
    pub absolute_path: String,
    pub relative_path: String,
    pub is_dir: bool,
    pub size_bytes: u64,
    pub sha256: Option<String>,
}

/// What a path turned out to be.
#[derive(Clone, Copy, PartialEq, Eq, Structural, Debug)]
pub enum SourceKind {
    File,
    Directory,
    Symlink,
    Special,
}

/// The bytes of the files among the first `n` sources.
pub open spec fn queued_bytes(sources: Seq<QueuedSource>, n: int) -> nat
    decreases n,
{
    if n <= 0 {
        0
    } else {
        queued_bytes(sources, n - 1) + if sources[n - 1].is_dir {
            0nat
        } else {
            sources[n - 1].size_bytes as nat
        }
    }
}

/// The bytes of the first sources depend on those sources only.
pub proof fn lemma_queued_bytes_prefix(a: Seq<QueuedSource>, b: Seq<QueuedSource>, n: int)
    requires
        0 <= n <= a.len(),
        n <= b.len(),
        forall|i: int| 0 <= i < n ==> a[i] == b[i],
    ensures
        queued_bytes(a, n) == queued_bytes(b, n),
    decreases n,
{
    if n > 0 {
        lemma_queued_bytes_prefix(a, b, n - 1);
    }
}

/// Whether a request to send names anything, and whether the limits allow it.
pub open spec fn request_verdict(
    config: FileTransferConfig,
    wire: WireLimits,
    path_count: int,
) -> Result<(), TransferError> {
    if path_count == 0 {
        Err(TransferError::NoSources)
    } else if config.max_entries == 0 {
        Err(TransferError::NoEntriesAllowed)
    } else if config.max_transfer_bytes > wire.max_total_bytes {
        Err(TransferError::ByteLimitExceedsWire)
    } else if path_count > entry_limit(config, wire) {
        Err(TransferError::TooManyEntries)
    } else {
        Ok(())
    }
}

/// Whether a request to send names anything, and whether the limits allow it.
/// This is settled before any path is looked at.
pub fn check_send_request(config: &FileTransferConfig, wire: WireLimits, path_count: usize) -> (r:
    Result<(), TransferError>)
    ensures
        r == request_verdict(*config, wire, path_count as int),
{
    if path_count == 0 {
        return Err(TransferError::NoSources);
    }
    if config.max_entries == 0 {
        return Err(TransferError::NoEntriesAllowed);
    }
    if config.max_transfer_bytes > wire.max_total_bytes {
        return Err(TransferError::ByteLimitExceedsWire);
    }
    if path_count > max_entries(config, wire) {
        return Err(TransferError::TooManyEntries);
    }
    Ok(())
}

/// Whether sending is enabled at all.
pub fn check_enabled(config: &FileTransferConfig) -> (r: Result<(), TransferError>)
    ensures
        r == (if config.enabled {
            Ok::<(), TransferError>(())
        } else {
            Err::<(), TransferError>(TransferError::Disabled)
        }),
{
    if config.enabled {
        Ok(())
    } else {
        Err(TransferError::Disabled)
    }
}

/// Whether some earlier name agrees with this one up to letter case.
pub open spec fn name_collides(names: Seq<String>, name: Seq<char>) -> bool {
    exists|i: int|
        0 <= i < names.len() && lowercase_of((#[trigger] names[i])@) == lowercase_of(name)
}

/// What is wrong with a selected path, if anything.
pub open spec fn root_verdict(
    names: Seq<String>,
    name: Seq<char>,
    kind: SourceKind,
    portable: bool,
) -> Result<(), TransferError> {
    if kind == SourceKind::Symlink {
        Err(TransferError::SourceSymlink)
    } else if kind == SourceKind::Special {
        Err(TransferError::SourceSpecial)
    } else if !portable {
        Err(TransferError::PathNotPortable)
    } else if name_collides(names, name) {
        Err(TransferError::BasenamesCollide)
    } else {
        Ok(())
    }
}

fn collides(names: &Vec<String>, name: &str) -> (b: bool)
    ensures
        b == name_collides(names@, name@),
{
    let lower = lowercase(name);
    let mut i: usize = 0;
    while i < names.len()
        invariant
            i <= names.len(),
            lower@ == lowercase_of(name@),
            forall|k: int| 0 <= k < i ==> lowercase_of((#[trigger] names@[k])@) != lower@,
        decreases names.len() - i,
    {
        let other = lowercase(&names[i]);
        if other == lower {
            assert(lowercase_of(names@[i as int]@) == lowercase_of(name@));
            return true;
        }
        i += 1;
    }
    false
}

/// Checks one selected path against those before it; `names` holds the
/// basenames that were admitted.
pub fn check_root(names: &Vec<String>, name: &str, kind: SourceKind, portable: bool) -> (r: Result<
    (),
    TransferError,
>)
    ensures
        r == root_verdict(names@, name@, kind, portable),
{
    match kind {
        SourceKind::Symlink => {
            return Err(TransferError::SourceSymlink);
        },
        SourceKind::Special => {
            return Err(TransferError::SourceSpecial);
        },
        _ => {},
    }
    if !portable {
        return Err(TransferError::PathNotPortable);
    }
    if collides(names, name) {
        return Err(TransferError::BasenamesCollide);
    }
    Ok(())
}

/// Items that are collected up to a limit. Whoever pulls the items learns of the
/// first one too many when offering it.
#[derive(Debug)]
pub struct BoundedCollection<T> {
    pub items: Vec<T>,
    pub max_items: usize,
}

impl<T> BoundedCollection<T> {
    /// Whether the limit is kept.
    pub open spec fn within_limit(self) -> bool {
        self.items@.len() <= self.max_items
    }

    /// An empty collection, unless the limit itself is too large.
    pub fn new(max_items: usize, wire: WireLimits) -> (r: Result<Self, TransferError>)
        ensures
            match r {
                Ok(c) => max_items <= wire.max_manifest_entries && c.items@.len() == 0
                    && c.max_items == max_items && c.within_limit(),
                Err(error) => max_items > wire.max_manifest_entries && error
                    == TransferError::CollectionLimitTooLarge,
            },
    {
        if max_items > wire.max_manifest_entries {
            return Err(TransferError::CollectionLimitTooLarge);
        }
        Ok(BoundedCollection { items: Vec::new(), max_items })
    }

    /// Adds the next item, passes its failure on, or reports the overflow.
    pub fn offer(&mut self, item: Result<T, TransferError>, overflow: TransferError) -> (r: Result<
        (),
        TransferError,
    >)
        requires
            old(self).within_limit(),
        ensures
            final(self).within_limit(),
            final(self).max_items == old(self).max_items,
            match item {
                Err(error) => r == Err::<(), TransferError>(error) && final(self).items@ == old(self).items@,
                Ok(value) => if old(self).items@.len() == old(self).max_items {
                    r == Err::<(), TransferError>(overflow) && final(self).items@ == old(self).items@
                } else {
                    r == Ok::<(), TransferError>(()) && final(self).items@ == old(self).items@.push(
                        value,
                    )
                },
            },
    {
        match item {
            Err(error) => Err(error),
            Ok(value) => {
                if self.items.len() == self.max_items {
                    return Err(overflow);
                }
                self.items.push(value);
                Ok(())
            },
        }
    }
}

/// The entries that were found so far below the selected paths.
#[derive(Debug)]
pub struct SourceCollector {
    pub entries: Vec<QueuedSource>,
    pub total_bytes: u64,
    pub max_entries: usize,
    pub max_bytes: u64,
}

/// Whether some entry agrees with this path up to letter case.
pub open spec fn path_collides(entries: Seq<QueuedSource>, path: Seq<char>) -> bool {
    exists|i: int|
        0 <= i < entries.len() && lowercase_of((#[trigger] entries[i]).relative_path@)
            == lowercase_of(path)
}

/// What is wrong with the next path of a source tree, if anything.
pub open spec fn source_verdict(
    collector: SourceCollector,
    relative_path: Seq<char>,
    kind: SourceKind,
    len: u64,
    portable: bool,
) -> Result<(), TransferError> {
    if kind == SourceKind::Symlink {
        Err(TransferError::TreeSymlink)
    } else if kind == SourceKind::Special {
        Err(TransferError::TreeSpecial)
    } else if collector.entries@.len() >= collector.max_entries {
        Err(TransferError::TooManyEntries)
    } else if !portable {
        Err(TransferError::PathNotPortable)
    } else if path_collides(collector.entries@, relative_path) {
        Err(TransferError::SourcePathsCollide)
    } else if kind == SourceKind::File && collector.total_bytes + len > u64::MAX {
        Err(TransferError::SourceByteOverflow)
    } else if kind == SourceKind::File && collector.total_bytes + len > collector.max_bytes {
        Err(TransferError::TooManyBytes)
    } else {
        Ok(())
    }
}

/// A path with a content is a file, and one without is a directory.
pub open spec fn added_kind(digest: Option<FileDigest>) -> SourceKind {
    if digest is Some {
        SourceKind::File
    } else {
        SourceKind::Directory
    }
}

/// Whether an entry tells of a file, with the digest of its content, or of a
/// directory.
pub open spec fn describes(
    entry: QueuedSource,
    absolute_path: Seq<char>,
    relative_path: Seq<char>,
    len: u64,
    digest: Option<FileDigest>,
) -> bool {
    &&& entry.absolute_path@ == absolute_path
    &&& entry.relative_path@ == relative_path
    &&& match digest {
        Some(digest) => !entry.is_dir && entry.size_bytes == len && (entry.sha256 matches Some(text)
            && text@ == hex_bytes(sha256_of(digest@))),
        None => entry.is_dir && entry.size_bytes == 0 && entry.sha256 is None,
    }
}

impl SourceCollector {
    /// The limits are kept, the total is that of the files, no two paths agree
    /// up to letter case, and exactly the files have a digest.
    pub open spec fn valid(self) -> bool {
        &&& self.entries@.len() <= self.max_entries
        &&& self.total_bytes <= self.max_bytes
        &&& self.total_bytes == queued_bytes(self.entries@, self.entries@.len() as int)
        &&& forall|i: int, j: int|
            0 <= i < j < self.entries@.len() ==> lowercase_of(
                (#[trigger] self.entries@[i]).relative_path@,
            ) != lowercase_of((#[trigger] self.entries@[j]).relative_path@)
        &&& forall|i: int|
            0 <= i < self.entries@.len() ==> ((#[trigger] self.entries@[i]).is_dir
                <==> self.entries@[i].sha256 is None)
        &&& forall|i: int|
            0 <= i < self.entries@.len() && (#[trigger] self.entries@[i]).is_dir
                ==> self.entries@[i].size_bytes == 0
    }

    /// Nothing found yet.
    pub fn new(max_entries: usize, max_bytes: u64) -> (c: Self)
        ensures
            c.valid(),
            c.entries@.len() == 0,
            c.total_bytes == 0,
            c.max_entries == max_entries,
            c.max_bytes == max_bytes,
    {
        SourceCollector { entries: Vec::new(), total_bytes: 0, max_entries, max_bytes }
    }

    /// Checks the next path before its content is read.
    pub fn check(&self, relative_path: &str, kind: SourceKind, len: u64, portable: bool) -> (r:
        Result<(), TransferError>)
        ensures
            r == source_verdict(*self, relative_path@, kind, len, portable),
    {
        match kind {
            SourceKind::Symlink => {
                return Err(TransferError::TreeSymlink);
            },
            SourceKind::Special => {
                return Err(TransferError::TreeSpecial);
            },
            _ => {},
        }
        if self.entries.len() >= self.max_entries {
            return Err(TransferError::TooManyEntries);
        }
        if !portable {
            return Err(TransferError::PathNotPortable);
        }
        let lower = lowercase(relative_path);
        let mut i: usize = 0;
        while i < self.entries.len()
            invariant
                i <= self.entries.len(),
                lower@ == lowercase_of(relative_path@),
                source_verdict(*self, relative_path@, kind, len, portable) == (if path_collides(
                    self.entries@,
                    relative_path@,
                ) {
                    Err::<(), TransferError>(TransferError::SourcePathsCollide)
                } else if kind == SourceKind::File && self.total_bytes + len > u64::MAX {
                    Err::<(), TransferError>(TransferError::SourceByteOverflow)
                } else if kind == SourceKind::File && self.total_bytes + len > self.max_bytes {
                    Err::<(), TransferError>(TransferError::TooManyBytes)
                } else {
                    Ok::<(), TransferError>(())
                }),
                forall|k: int|
                    0 <= k < i ==> lowercase_of((#[trigger] self.entries@[k]).relative_path@)
                        != lower@,
            decreases self.entries.len() - i,
        {
            let other = lowercase(&self.entries[i].relative_path);
            if other == lower {
                assert(lowercase_of(self.entries@[i as int].relative_path@) == lowercase_of(
                    relative_path@,
                ));
                return Err(TransferError::SourcePathsCollide);
            }
            i += 1;
        }
        if kind == SourceKind::File {
            match self.total_bytes.checked_add(len) {
                None => {
                    return Err(TransferError::SourceByteOverflow);
                },
                Some(total) => {
                    if total > self.max_bytes {
                        return Err(TransferError::TooManyBytes);
                    }
                },
            }
        }
        Ok(())
    }

    /// Adds the next path: a file with the digest of its content, or a directory.
    pub fn add(
        &mut self,
        absolute_path: String,
        relative_path: String,
        len: u64,
        portable: bool,
        digest: Option<FileDigest>,
    ) -> (r: Result<(), TransferError>)
        requires
            old(self).valid(),
        ensures
            final(self).valid(),
            r == source_verdict(*old(self), relative_path@, added_kind(digest), len, portable),
            r is Err ==> *final(self) == *old(self),
            final(self).max_entries == old(self).max_entries,
            final(self).max_bytes == old(self).max_bytes,
            r is Ok ==> {
                &&& final(self).entries@.len() == old(self).entries@.len() + 1
                &&& final(self).entries@.drop_last() == old(self).entries@
                &&& describes(
                    final(self).entries@.last(),
                    absolute_path@,
                    relative_path@,
                    len,
                    digest,
                )
                &&& final(self).total_bytes == old(self).total_bytes + (if digest is Some {
                    len as int
                } else {
                    0
                })
            },
    {
        let kind: SourceKind = if digest.is_some() {
            SourceKind::File
        } else {
            SourceKind::Directory
        };
        match self.check(&relative_path, kind, len, portable) {
            Err(error) => {
                return Err(error);
            },
            Ok(_) => {},
        }
        let ghost before = self.entries@;
        if let Some(digest) = digest {
            self.total_bytes = self.total_bytes + len;
            self.entries.push(
                QueuedSource {
                    absolute_path,
                    relative_path,
                    is_dir: false,
                    size_bytes: len,
                    sha256: Some(digest_text(&digest.bytes())),
                },
            );
        } else {
            self.entries.push(
                QueuedSource {
                    absolute_path,
                    relative_path,
                    is_dir: true,
                    size_bytes: 0,
                    sha256: None,
                },
            );
        }
        proof {
            lemma_queued_bytes_prefix(before, self.entries@, before.len() as int);
            assert(self.entries@.drop_last() == before);
            assert forall|i: int, j: int| 0 <= i < j < self.entries@.len() implies lowercase_of(
                (#[trigger] self.entries@[i]).relative_path@,
            ) != lowercase_of((#[trigger] self.entries@[j]).relative_path@) by {
                assert(self.entries@[i] == before[i]);
                if j < before.len() {
                    assert(self.entries@[j] == before[j]);
                }
            }
        }
        Ok(())
    }

    /// How many more entries fit.
    pub fn remaining_entries(&self) -> (r: Result<usize, TransferError>)
        ensures
            match r {
                Ok(n) => n == self.max_entries - self.entries@.len(),
                Err(error) => self.entries@.len() > self.max_entries && error
                    == TransferError::EntryCountOverLimit,
            },
    {
        match self.max_entries.checked_sub(self.entries.len()) {
            Some(n) => Ok(n),
            None => Err(TransferError::EntryCountOverLimit),
        }
    }
}

/// The bytes that are counted are those of the files, one by one: a file adds its
/// size, a directory nothing.
pub proof fn law_files_alone_are_counted(sources: Seq<QueuedSource>, source: QueuedSource)
    ensures
        queued_bytes(Seq::empty(), 0) == 0,
        queued_bytes(sources.push(source), sources.len() as int + 1) == queued_bytes(
            sources,
            sources.len() as int,
        ) + (if source.is_dir {
            0
        } else {
            source.size_bytes as int
        }),
{
    lemma_queued_bytes_prefix(sources, sources.push(source), sources.len() as int);
}

/// A request to send passes exactly where it names something, entries are allowed at
/// all, the configured byte limit is one that the wire has, and no more paths are
/// named than entries are allowed.
pub proof fn law_requests_pass_within_the_limits(
    config: FileTransferConfig,
    wire: WireLimits,
    path_count: int,
)
    requires
        path_count >= 0,
    ensures
        request_verdict(config, wire, path_count) is Ok <==> 1 <= path_count <= config.max_entries
            && path_count <= wire.max_manifest_entries && config.max_transfer_bytes
            <= wire.max_total_bytes,
        path_count == 0 ==> request_verdict(config, wire, path_count) == Err::<(), TransferError>(
            TransferError::NoSources,
        ),
        request_verdict(config, wire, path_count) == Err::<(), TransferError>(
            TransferError::NoEntriesAllowed,
        ) ==> config.max_entries == 0,
        request_verdict(config, wire, path_count) == Err::<(), TransferError>(
            TransferError::ByteLimitExceedsWire,
        ) ==> config.max_transfer_bytes > wire.max_total_bytes,
        request_verdict(config, wire, path_count) == Err::<(), TransferError>(
            TransferError::TooManyEntries,
        ) ==> path_count > config.max_entries || path_count > wire.max_manifest_entries,
{
}

/// A selected path passes exactly where it is a file or a directory with a portable
/// name that no path selected before has in lower case.
pub proof fn law_selected_paths_pass_unless_they_collide(
    names: Seq<String>,
    name: Seq<char>,
    kind: SourceKind,
    portable: bool,
)
    ensures
        root_verdict(names, name, kind, portable) is Ok <==> {
            &&& kind == SourceKind::File || kind == SourceKind::Directory
            &&& portable
            &&& forall|i: int|
                0 <= i < names.len() ==> lowercase_of((#[trigger] names[i])@) != lowercase_of(name)
        },
        kind == SourceKind::Symlink ==> root_verdict(names, name, kind, portable) == Err::<
            (),
            TransferError,
        >(TransferError::SourceSymlink),
        kind == SourceKind::Special ==> root_verdict(names, name, kind, portable) == Err::<
            (),
            TransferError,
        >(TransferError::SourceSpecial),
        root_verdict(names, name, kind, portable) == Err::<(), TransferError>(
            TransferError::PathNotPortable,
        ) ==> !portable,
        root_verdict(names, name, kind, portable) == Err::<(), TransferError>(
            TransferError::BasenamesCollide,
        ) ==> portable,
{
}

/// The next path of a tree is taken exactly where it is a file or a directory, an
/// entry is left for it, it is portable, no path taken before is equal in lower case,
/// and, for a file, the bytes with it stay within the limit.
pub proof fn law_found_paths_are_taken(
    collector: SourceCollector,
    relative_path: Seq<char>,
    kind: SourceKind,
    len: u64,
    portable: bool,
)
    requires
        collector.valid(),
    ensures
        source_verdict(collector, relative_path, kind, len, portable) is Ok <==> {
            &&& kind == SourceKind::File || kind == SourceKind::Directory
            &&& collector.entries@.len() < collector.max_entries
            &&& portable
            &&& forall|i: int|
                0 <= i < collector.entries@.len() ==> lowercase_of(
                    (#[trigger] collector.entries@[i]).relative_path@,
                ) != lowercase_of(relative_path)
            &&& kind == SourceKind::File ==> collector.total_bytes + len <= collector.max_bytes
        },
        kind == SourceKind::Symlink ==> source_verdict(
            collector,
            relative_path,
            kind,
            len,
            portable,
        ) == Err::<(), TransferError>(TransferError::TreeSymlink),
        kind == SourceKind::Special ==> source_verdict(
            collector,
            relative_path,
            kind,
            len,
            portable,
        ) == Err::<(), TransferError>(TransferError::TreeSpecial),
        match source_verdict(collector, relative_path, kind, len, portable) {
            Err(TransferError::TooManyEntries) => collector.entries@.len() >= collector.max_entries,
            Err(TransferError::PathNotPortable) => !portable,
            Err(TransferError::SourcePathsCollide) => exists|i: int|
                0 <= i < collector.entries@.len() && lowercase_of(
                    (#[trigger] collector.entries@[i]).relative_path@,
                ) == lowercase_of(relative_path),
            Err(TransferError::SourceByteOverflow) => kind == SourceKind::File
                && collector.total_bytes + len > u64::MAX,
            Err(TransferError::TooManyBytes) => kind == SourceKind::File && collector.total_bytes
                + len > collector.max_bytes,
            _ => true,
        },
{
}

/// An entry that tells of a file has its size and the digest of its content, and one
/// that tells of a directory has neither.
pub proof fn law_entries_describe_what_was_found(
    entry: QueuedSource,
    absolute_path: Seq<char>,
    relative_path: Seq<char>,
    len: u64,
    digest: Option<FileDigest>,
)
    requires
        describes(entry, absolute_path, relative_path, len, digest),
    ensures
        entry.absolute_path@ == absolute_path,
        entry.relative_path@ == relative_path,
        entry.is_dir <==> digest is None,
        digest is None ==> entry.size_bytes == 0 && entry.sha256 is None,
        digest is Some ==> entry.size_bytes == len && entry.sha256 is Some && entry.sha256->Some_0@
            == hex_bytes(sha256_of(digest->Some_0@)),
        added_kind(digest) == (if digest is Some {
            SourceKind::File
        } else {
            SourceKind::Directory
        }),
{
}

} // verus!
