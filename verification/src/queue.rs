//! The durable queue of outgoing transfers.

use vstd::prelude::*;

use crate::checkpoint::bytes_before_entry;
use crate::checkpoint::file_bytes;
use crate::checkpoint::totals_agree;
use crate::digest::digest_spelled_by;
use crate::digest::parse_sha256_hex;
use crate::ids::DeviceId;
use crate::ids::TransferId;
use crate::manifest::byte_limit;
use crate::manifest::entry_limit;
use crate::manifest::max_bytes;
use crate::manifest::max_entries;
use crate::manifest::FileTransferConfig;
use crate::manifest::TransferEntry;
use crate::manifest::TransferManifest;
use crate::manifest::WireLimits;
use crate::outside::parse_uuid;
use crate::outside::uuid_spelled_by;
use crate::sources::queued_bytes;
use crate::sources::QueuedSource;
use crate::sources::SourceCollector;
use crate::text::hyphenated;
use crate::text::law_text_order_is_total;
use crate::text::law_text_order_is_transitive;
use crate::text::precedes;
use crate::text::same_text;
use crate::text::text_precedes;
use crate::text::to_chars;
use crate::transfer_error::TransferError;

verus! {

/// The version of the queue's records.
pub const QUEUE_SCHEMA_VERSION: u16 = 1;

/// One record of the queue.
#[derive(Clone, Debug)]
pub struct QueuedTransfer {
    pub schema_version: u16,
    pub transfer_id: String,
    pub queued_at_unix_nanos: u64,
    pub entries: Vec<QueuedSource>,
    pub total_bytes: u64,
}

/// The identifier that a record's text spells.
pub open spec fn identifier_of(text: Seq<char>) -> Result<TransferId, TransferError> {
    match uuid_spelled_by(text) {
        Some(n) => Ok(TransferId(n)),
        None => Err(TransferError::InvalidIdentifier),
    }
}

impl QueuedTransfer {
    /// The identifier of the transfer. The canonical form of an identifier is
    /// always understood.
    pub fn id(&self) -> (r: Result<TransferId, TransferError>)
        ensures
            r == identifier_of(self.transfer_id@),
            forall|n: u128| #[trigger] hyphenated(n) == self.transfer_id@ ==> r == Ok::<
                TransferId,
                TransferError,
            >(TransferId(n)),
    {
        match parse_uuid(&self.transfer_id) {
            Some(n) => Ok(TransferId(n)),
            None => Err(TransferError::InvalidIdentifier),
        }
    }
}

/// Makes the record of what was collected.
pub fn queue_transfer(
    collected: SourceCollector,
    id: TransferId,
    queued_at_unix_nanos: u64,
) -> (t: QueuedTransfer)
    ensures
        t.schema_version == QUEUE_SCHEMA_VERSION,
        t.transfer_id@ == hyphenated(id.0),
        t.queued_at_unix_nanos == queued_at_unix_nanos,
        t.entries@ == collected.entries@,
        t.total_bytes == collected.total_bytes,
{
    QueuedTransfer {
        schema_version: QUEUE_SCHEMA_VERSION,
        transfer_id: id.text(),
        queued_at_unix_nanos,
        entries: collected.entries,
        total_bytes: collected.total_bytes,
    }
}

/// The entry that a queued source becomes, or why it cannot.
pub open spec fn source_error(source: QueuedSource, portable: bool) -> Option<TransferError> {
    if source.is_dir {
        if portable {
            None
        } else {
            Some(TransferError::PathNotPortable)
        }
    } else {
        match source.sha256 {
            None => Some(TransferError::QueuedFileWithoutDigest),
            Some(text) => match digest_spelled_by(vstd::utf8::encode_utf8(text@)) {
                Err(error) => Some(error),
                Ok(_) => if portable {
                    None
                } else {
                    Some(TransferError::PathNotPortable)
                },
            },
        }
    }
}

/// The first refusal among the sources from `i` on.
pub open spec fn sources_error(
    sources: Seq<QueuedSource>,
    portable: Seq<bool>,
    i: int,
) -> Option<TransferError>
    decreases sources.len() - i,
{
    if i >= sources.len() {
        None
    } else if source_error(sources[i], portable[i]) is Some {
        source_error(sources[i], portable[i])
    } else {
        sources_error(sources, portable, i + 1)
    }
}

/// Why a record cannot be offered, if it cannot.
pub open spec fn offer_error(transfer: QueuedTransfer, portable: Seq<bool>) -> Option<
    TransferError,
> {
    let sources = transfer.entries@;
    if sources_error(sources, portable, 0) is Some {
        sources_error(sources, portable, 0)
    } else if uuid_spelled_by(transfer.transfer_id@) is None {
        Some(TransferError::InvalidIdentifier)
    } else if queued_bytes(sources, sources.len() as int) > u64::MAX {
        Some(TransferError::ManifestByteTotalOverflow)
    } else if queued_bytes(sources, sources.len() as int) != transfer.total_bytes {
        Some(TransferError::QueueTotalMismatch)
    } else {
        None
    }
}

/// Whether an entry offers exactly what was queued.
pub open spec fn offers(entry: TransferEntry, source: QueuedSource) -> bool {
    &&& entry.relative_path@ == source.relative_path@
    &&& entry.is_dir == source.is_dir
    &&& source.is_dir ==> entry.size_bytes == 0 && entry.sha256 is None
    &&& !source.is_dir ==> {
        &&& entry.size_bytes == source.size_bytes
        &&& source.sha256 is Some
        &&& entry.sha256 is Some
        &&& digest_spelled_by(vstd::utf8::encode_utf8(source.sha256->Some_0@)) == Ok::<
            Seq<u8>,
            TransferError,
        >(entry.sha256->Some_0@)
    }
}

proof fn lemma_offered_bytes(entries: Seq<TransferEntry>, sources: Seq<QueuedSource>, n: int)
    requires
        0 <= n <= entries.len(),
        n <= sources.len(),
        forall|i: int| 0 <= i < n ==> offers(#[trigger] entries[i], sources[i]),
    ensures
        file_bytes(entries, n) == queued_bytes(sources, n),
    decreases n,
{
    if n > 0 {
        lemma_offered_bytes(entries, sources, n - 1);
        assert(offers(entries[n - 1], sources[n - 1]));
    }
}

fn offered_entry(source: &QueuedSource, portable: bool) -> (r: Result<TransferEntry, TransferError>)
    ensures
        match r {
            Ok(entry) => source_error(*source, portable) is None && offers(entry, *source),
            Err(error) => source_error(*source, portable) == Some(error),
        },
{
    if source.is_dir {
        if !portable {
            return Err(TransferError::PathNotPortable);
        }
        return Ok(
            TransferEntry {
                relative_path: source.relative_path.clone(),
                is_dir: true,
                size_bytes: 0,
                sha256: None,
            },
        );
    }
    match &source.sha256 {
        None => Err(TransferError::QueuedFileWithoutDigest),
        Some(text) => match parse_sha256_hex(text.as_str()) {
            Err(error) => Err(error),
            Ok(digest) => if !portable {
                Err(TransferError::PathNotPortable)
            } else {
                Ok(
                    TransferEntry {
                        relative_path: source.relative_path.clone(),
                        is_dir: false,
                        size_bytes: source.size_bytes,
                        sha256: Some(digest),
                    },
                )
            },
        },
    }
}

/// The offer of a queued transfer to a peer. `portable` tells of each entry
/// whether its path and size make a portable entry.
pub fn manifest_from_queue(
    transfer: &QueuedTransfer,
    local: DeviceId,
    peer: DeviceId,
    portable: &Vec<bool>,
) -> (r: Result<TransferManifest, TransferError>)
    requires
        portable.len() == transfer.entries.len(),
    ensures
        match r {
            Err(error) => offer_error(*transfer, portable@) == Some(error),
            Ok(manifest) => {
                &&& offer_error(*transfer, portable@) is None
                &&& Ok::<TransferId, TransferError>(manifest.id) == identifier_of(
                    transfer.transfer_id@,
                )
                &&& manifest.from == local
                &&& manifest.to == Some(peer)
                &&& manifest.total_bytes == transfer.total_bytes
                &&& totals_agree(manifest)
                &&& manifest.entries@.len() == transfer.entries@.len()
                &&& forall|i: int|
                    0 <= i < manifest.entries@.len() ==> offers(
                        #[trigger] manifest.entries@[i],
                        transfer.entries@[i],
                    )
            },
        },
{
    let mut entries: Vec<TransferEntry> = Vec::new();
    let mut i: usize = 0;
    while i < transfer.entries.len()
        invariant
            i <= transfer.entries.len(),
            portable.len() == transfer.entries.len(),
            entries.len() == i,
            sources_error(transfer.entries@, portable@, 0) == sources_error(
                transfer.entries@,
                portable@,
                i as int,
            ),
            forall|k: int|
                0 <= k < i ==> offers(#[trigger] entries@[k], transfer.entries@[k]),
        decreases transfer.entries.len() - i,
    {
        match offered_entry(&transfer.entries[i], portable[i]) {
            Ok(entry) => {
                entries.push(entry);
            },
            Err(error) => {
                return Err(error);
            },
        }
        i += 1;
    }
    let id: TransferId = match transfer.id() {
        Ok(id) => id,
        Err(error) => {
            return Err(error);
        },
    };
    let count: usize = entries.len();
    proof {
        lemma_offered_bytes(entries@, transfer.entries@, count as int);
    }
    let manifest = TransferManifest {
        id,
        from: local,
        to: Some(peer),
        entries,
        total_bytes: transfer.total_bytes,
    };
    match bytes_before_entry(&manifest, count) {
        Err(error) => Err(error),
        Ok(total) => if total != transfer.total_bytes {
            Err(TransferError::QueueTotalMismatch)
        } else {
            Ok(manifest)
        },
    }
}

/// Whether two queued sources are the same in every field.
pub open spec fn same_source(a: QueuedSource, b: QueuedSource) -> bool {
    &&& a.absolute_path@ == b.absolute_path@
    &&& a.relative_path@ == b.relative_path@
    &&& a.is_dir == b.is_dir
    &&& a.size_bytes == b.size_bytes
    &&& match (a.sha256, b.sha256) {
        (Some(x), Some(y)) => x@ == y@,
        (None, None) => true,
        _ => false,
    }
}

/// Whether two lists hold the same sources in the same order.
pub open spec fn same_sources(a: Seq<QueuedSource>, b: Seq<QueuedSource>) -> bool {
    a.len() == b.len() && forall|i: int| 0 <= i < a.len() ==> same_source(#[trigger] a[i], b[i])
}

fn is_same_source(a: &QueuedSource, b: &QueuedSource) -> (r: bool)
    ensures
        r == same_source(*a, *b),
{
    let same_digests: bool = match (&a.sha256, &b.sha256) {
        (Some(x), Some(y)) => *x == *y,
        (None, None) => true,
        _ => false,
    };
    a.absolute_path == b.absolute_path && a.relative_path == b.relative_path && a.is_dir == b.is_dir
        && a.size_bytes == b.size_bytes && same_digests
}

fn are_same_sources(a: &Vec<QueuedSource>, b: &Vec<QueuedSource>) -> (r: bool)
    ensures
        r == same_sources(a@, b@),
{
    if a.len() != b.len() {
        return false;
    }
    let mut i: usize = 0;
    while i < a.len()
        invariant
            i <= a.len(),
            a.len() == b.len(),
            forall|k: int| 0 <= k < i ==> same_source(#[trigger] a@[k], b@[k]),
        decreases a.len() - i,
    {
        if !is_same_source(&a[i], &b[i]) {
            assert(!same_source(a@[i as int], b@[i as int]));
            return false;
        }
        i += 1;
    }
    true
}

/// The absolute paths of the sources that were selected themselves: those
/// whose relative path is a single component.
pub open spec fn root_paths(sources: Seq<QueuedSource>) -> Seq<Seq<char>>
    decreases sources.len(),
{
    if sources.len() == 0 {
        Seq::empty()
    } else if sources.last().relative_path@.contains('/') {
        root_paths(sources.drop_last())
    } else {
        root_paths(sources.drop_last()).push(sources.last().absolute_path@)
    }
}

fn is_nested(path: &str) -> (b: bool)
    ensures
        b == path@.contains('/'),
{
    let chars: Vec<char> = to_chars(path);
    let mut i: usize = 0;
    while i < chars.len()
        invariant
            i <= chars.len(),
            chars@ == path@,
            forall|k: int| 0 <= k < i ==> chars@[k] != '/',
        decreases chars.len() - i,
    {
        if chars[i] == '/' {
            assert(path@[i as int] == '/');
            return true;
        }
        i += 1;
    }
    false
}

/// What is wrong with a record before its sources are looked at again;
/// `stem` is the name of the record's file without its extension.
pub open spec fn record_verdict(
    stem: Option<Seq<char>>,
    config: FileTransferConfig,
    wire: WireLimits,
    transfer: QueuedTransfer,
) -> Result<(), TransferError> {
    if transfer.schema_version != QUEUE_SCHEMA_VERSION {
        Err(TransferError::QueueSchema)
    } else if uuid_spelled_by(transfer.transfer_id@) is None {
        Err(TransferError::InvalidIdentifier)
    } else if stem != Some(transfer.transfer_id@) {
        Err(TransferError::QueueFilename)
    } else if transfer.entries@.len() == 0 {
        Err(TransferError::QueueEmpty)
    } else if transfer.entries@.len() > entry_limit(config, wire) {
        Err(TransferError::QueueEntryLimit)
    } else if transfer.total_bytes > byte_limit(config, wire) {
        Err(TransferError::QueueByteLimit)
    } else if hyphenated(uuid_spelled_by(transfer.transfer_id@)->Some_0) != transfer.transfer_id@ {
        Err(TransferError::NonCanonicalIdentifier)
    } else if root_paths(transfer.entries@).len() == 0 {
        Err(TransferError::NoSourceRoots)
    } else {
        Ok(())
    }
}

/// Checks a record, and gives the selected paths that are to be collected anew.
/// A record that keeps to the limits and is filed under the canonical form of
/// its identifier is accepted.
pub fn validate_queue_record(
    stem: Option<&str>,
    config: &FileTransferConfig,
    wire: WireLimits,
    transfer: &QueuedTransfer,
) -> (r: Result<Vec<String>, TransferError>)
    ensures
        match r {
            Ok(paths) => {
                &&& record_verdict(
                    match stem {
                        Some(s) => Some(s@),
                        None => None,
                    },
                    *config,
                    wire,
                    *transfer,
                ) is Ok
                &&& crate::text::texts(paths@) == root_paths(transfer.entries@)
            },
            Err(error) => record_verdict(
                match stem {
                    Some(s) => Some(s@),
                    None => None,
                },
                *config,
                wire,
                *transfer,
            ) == Err::<(), TransferError>(error),
        },
        forall|n: u128|
            #[trigger] hyphenated(n) == transfer.transfer_id@ && transfer.schema_version
                == QUEUE_SCHEMA_VERSION && stem is Some && stem->Some_0@ == transfer.transfer_id@ && 0
                < transfer.entries@.len() <= entry_limit(*config, wire) && transfer.total_bytes
                <= byte_limit(*config, wire) && root_paths(transfer.entries@).len() > 0 ==> r is Ok,
{
    if transfer.schema_version != QUEUE_SCHEMA_VERSION {
        return Err(TransferError::QueueSchema);
    }
    let id: TransferId = match transfer.id() {
        Ok(id) => id,
        Err(error) => {
            return Err(error);
        },
    };
    match stem {
        Some(s) => {
            if !same_text(s, &transfer.transfer_id) {
                return Err(TransferError::QueueFilename);
            }
        },
        None => {
            return Err(TransferError::QueueFilename);
        },
    }
    if transfer.entries.len() == 0 {
        return Err(TransferError::QueueEmpty);
    }
    if transfer.entries.len() > max_entries(config, wire) {
        return Err(TransferError::QueueEntryLimit);
    }
    if transfer.total_bytes > max_bytes(config, wire) {
        return Err(TransferError::QueueByteLimit);
    }
    let canonical = id.text();
    if canonical != transfer.transfer_id {
        return Err(TransferError::NonCanonicalIdentifier);
    }
    let mut paths: Vec<String> = Vec::new();
    let mut i: usize = 0;
    assert(crate::text::texts(paths@) == root_paths(transfer.entries@.take(0)));
    while i < transfer.entries.len()
        invariant
            i <= transfer.entries.len(),
            crate::text::texts(paths@) == root_paths(transfer.entries@.take(i as int)),
        decreases transfer.entries.len() - i,
    {
        let ghost next = transfer.entries@.take(i + 1);
        assert(next.drop_last() == transfer.entries@.take(i as int));
        let ghost before = paths@;
        if !is_nested(&transfer.entries[i].relative_path) {
            paths.push(transfer.entries[i].absolute_path.clone());
            assert(crate::text::texts(paths@) == crate::text::texts(before).push(
                transfer.entries@[i as int].absolute_path@,
            ));
        }
        i += 1;
    }
    assert(transfer.entries@.take(transfer.entries@.len() as int) == transfer.entries@);
    assert(crate::text::texts(paths@).len() == paths@.len());
    if paths.len() == 0 {
        return Err(TransferError::NoSourceRoots);
    }
    Ok(paths)
}

/// Whether the sources are still what they were when they were queued.
pub fn confirm_sources(transfer: &QueuedTransfer, rebuilt: &SourceCollector) -> (r: Result<
    (),
    TransferError,
>)
    ensures
        r == (if same_sources(rebuilt.entries@, transfer.entries@) && rebuilt.total_bytes
            == transfer.total_bytes {
            Ok::<(), TransferError>(())
        } else {
            Err::<(), TransferError>(TransferError::SourcesChanged)
        }),
{
    if are_same_sources(&rebuilt.entries, &transfer.entries) && rebuilt.total_bytes
        == transfer.total_bytes {
        Ok(())
    } else {
        Err(TransferError::SourcesChanged)
    }
}

/// Whether two records are the same in every field.
pub open spec fn same_record(a: QueuedTransfer, b: QueuedTransfer) -> bool {
    &&& a.schema_version == b.schema_version
    &&& a.transfer_id@ == b.transfer_id@
    &&& a.queued_at_unix_nanos == b.queued_at_unix_nanos
    &&& same_sources(a.entries@, b.entries@)
    &&& a.total_bytes == b.total_bytes
}

/// Whether the persisted record is still the one that was acknowledged, so
/// that it may be removed.
pub fn confirm_record(persisted: &QueuedTransfer, acknowledged: &QueuedTransfer) -> (r: Result<
    (),
    TransferError,
>)
    ensures
        r == (if same_record(*persisted, *acknowledged) {
            Ok::<(), TransferError>(())
        } else {
            Err::<(), TransferError>(TransferError::RecordChanged)
        }),
{
    if persisted.schema_version == acknowledged.schema_version && persisted.transfer_id
        == acknowledged.transfer_id && persisted.queued_at_unix_nanos
        == acknowledged.queued_at_unix_nanos && are_same_sources(
        &persisted.entries,
        &acknowledged.entries,
    ) && persisted.total_bytes == acknowledged.total_bytes {
        Ok(())
    } else {
        Err(TransferError::RecordChanged)
    }
}

/// Whether one record was queued before another: by time, then by identifier.
pub open spec fn queued_before(a: QueuedTransfer, b: QueuedTransfer) -> bool {
    a.queued_at_unix_nanos < b.queued_at_unix_nanos || (a.queued_at_unix_nanos
        == b.queued_at_unix_nanos && precedes(a.transfer_id@, b.transfer_id@))
}

/// Whether one record was queued before another.
pub fn is_queued_before(a: &QueuedTransfer, b: &QueuedTransfer) -> (r: bool)
    ensures
        r == queued_before(*a, *b),
{
    a.queued_at_unix_nanos < b.queued_at_unix_nanos || (a.queued_at_unix_nanos
        == b.queued_at_unix_nanos && text_precedes(&a.transfer_id, &b.transfer_id))
}

proof fn lemma_queue_order(a: QueuedTransfer, b: QueuedTransfer, c: QueuedTransfer)
    requires
        queued_before(a, b),
        !queued_before(c, b),
    ensures
        queued_before(a, c),
        !queued_before(c, a),
{
    law_text_order_is_total(c.transfer_id@, b.transfer_id@);
    law_text_order_is_total(a.transfer_id@, c.transfer_id@);
    if a.queued_at_unix_nanos == b.queued_at_unix_nanos && b.queued_at_unix_nanos
        == c.queued_at_unix_nanos {
        if c.transfer_id@ != b.transfer_id@ {
            law_text_order_is_transitive(a.transfer_id@, b.transfer_id@, c.transfer_id@);
        }
        if a.transfer_id@ == c.transfer_id@ {
            law_text_order_is_total(a.transfer_id@, b.transfer_id@);
        }
    }
}

/// The record that is sent first: none was queued before it, and every record
/// listed earlier was queued after it.
pub fn oldest_record(records: &Vec<QueuedTransfer>) -> (r: Option<usize>)
    ensures
        match r {
            None => records@.len() == 0,
            Some(i) => {
                &&& i < records@.len()
                &&& forall|j: int|
                    0 <= j < records@.len() ==> !queued_before(
                        #[trigger] records@[j],
                        records@[i as int],
                    )
                &&& forall|j: int|
                    0 <= j < i ==> queued_before(records@[i as int], #[trigger] records@[j])
            },
        },
{
    if records.len() == 0 {
        return None;
    }
    let mut best: usize = 0;
    let mut k: usize = 1;
    proof {
        law_text_order_is_total(records@[0].transfer_id@, records@[0].transfer_id@);
    }
    while k < records.len()
        invariant
            best < k <= records.len(),
            forall|j: int|
                0 <= j < k ==> !queued_before(#[trigger] records@[j], records@[best as int]),
            forall|j: int|
                0 <= j < best ==> queued_before(records@[best as int], #[trigger] records@[j]),
        decreases records.len() - k,
    {
        if is_queued_before(&records[k], &records[best]) {
            proof {
                law_text_order_is_total(
                    records@[k as int].transfer_id@,
                    records@[k as int].transfer_id@,
                );
                assert forall|j: int| 0 <= j < k implies queued_before(
                    records@[k as int],
                    #[trigger] records@[j],
                ) && !queued_before(records@[j], records@[k as int]) by {
                    lemma_queue_order(records@[k as int], records@[best as int], records@[j]);
                }
            }
            best = k;
        }
        k += 1;
    }
    Some(best)
}

/// The paths that are collected anew are those of the sources that were selected
/// themselves, all of them, in their order: the ones without a slash in their
/// relative path.
pub proof fn law_selected_sources_are_collected_anew(sources: Seq<QueuedSource>)
    ensures
        root_paths(sources) == sources.filter(
            |s: QueuedSource| !s.relative_path@.contains('/'),
        ).map_values(|s: QueuedSource| s.absolute_path@),
        forall|i: int|
            0 <= i < sources.len() && !(#[trigger] sources[i]).relative_path@.contains('/')
                ==> root_paths(sources).contains(sources[i].absolute_path@),
    decreases sources.len(),
{
    let selected = |s: QueuedSource| !s.relative_path@.contains('/');
    let place = |s: QueuedSource| s.absolute_path@;
    reveal(Seq::filter);
    if sources.len() > 0 {
        let front = sources.drop_last();
        law_selected_sources_are_collected_anew(front);
        assert(sources.filter(selected).map_values(place) =~= if selected(sources.last()) {
            front.filter(selected).map_values(place).push(sources.last().absolute_path@)
        } else {
            front.filter(selected).map_values(place)
        });
        assert forall|i: int| 0 <= i < sources.len() && !(#[trigger] sources[i]).relative_path@.contains(
            '/',
        ) implies root_paths(sources).contains(sources[i].absolute_path@) by {
            if i < front.len() {
                assert(front[i] == sources[i]);
                let k = choose|k: int|
                    0 <= k < root_paths(front).len() && root_paths(front)[k]
                        == sources[i].absolute_path@;
                assert(root_paths(sources)[k] == sources[i].absolute_path@);
            } else {
                assert(root_paths(sources).last() == sources[i].absolute_path@);
            }
        }
    } else {
        assert(sources.filter(selected).map_values(place) =~= Seq::<Seq<char>>::empty());
    }
}

/// A record is accepted exactly where its version is the known one, it is filed under
/// its identifier in canonical form, it has at least one entry and a selected one, and
/// keeps to both limits of entries and of bytes.
pub proof fn law_tidy_records_are_accepted(
    stem: Option<Seq<char>>,
    config: FileTransferConfig,
    wire: WireLimits,
    transfer: QueuedTransfer,
)
    ensures
        record_verdict(stem, config, wire, transfer) is Ok <==> {
            &&& transfer.schema_version == 1
            &&& uuid_spelled_by(transfer.transfer_id@) is Some
            &&& hyphenated(uuid_spelled_by(transfer.transfer_id@)->Some_0) == transfer.transfer_id@
            &&& stem == Some(transfer.transfer_id@)
            &&& 1 <= transfer.entries@.len() <= config.max_entries
            &&& transfer.entries@.len() <= wire.max_manifest_entries
            &&& transfer.total_bytes <= config.max_transfer_bytes
            &&& transfer.total_bytes <= wire.max_total_bytes
            &&& exists|i: int|
                0 <= i < transfer.entries@.len()
                    && !(#[trigger] transfer.entries@[i]).relative_path@.contains('/')
        },
{
    let sources = transfer.entries@;
    law_selected_sources_are_collected_anew(sources);
    lemma_some_root(sources);
    if exists|i: int| 0 <= i < sources.len() && !(#[trigger] sources[i]).relative_path@.contains('/') {
        let i = choose|i: int|
            0 <= i < sources.len() && !(#[trigger] sources[i]).relative_path@.contains('/');
        assert(root_paths(sources).contains(sources[i].absolute_path@));
    }
}

proof fn lemma_some_root(sources: Seq<QueuedSource>)
    ensures
        root_paths(sources).len() > 0 ==> exists|i: int|
            0 <= i < sources.len() && !(#[trigger] sources[i]).relative_path@.contains('/'),
    decreases sources.len(),
{
    if sources.len() > 0 && root_paths(sources).len() > 0 {
        if sources.last().relative_path@.contains('/') {
            lemma_some_root(sources.drop_last());
            let i = choose|i: int|
                0 <= i < sources.drop_last().len()
                    && !(#[trigger] sources.drop_last()[i]).relative_path@.contains('/');
            assert(sources[i] == sources.drop_last()[i]);
        } else {
            assert(sources[sources.len() - 1] == sources.last());
        }
    }
}

/// Each refusal of a record says what is wrong with it, and whatever is asked before
/// it is in order.
pub proof fn law_refused_records_name_their_fault(
    stem: Option<Seq<char>>,
    config: FileTransferConfig,
    wire: WireLimits,
    transfer: QueuedTransfer,
)
    requires
        record_verdict(stem, config, wire, transfer) is Err,
    ensures
        ({
            let n = transfer.entries@.len();
            let spelled = uuid_spelled_by(transfer.transfer_id@);
            let filed = transfer.schema_version == 1 && spelled is Some && stem == Some(
                transfer.transfer_id@,
            );
            let counted = 1 <= n <= config.max_entries && n <= wire.max_manifest_entries;
            let bounded = transfer.total_bytes <= config.max_transfer_bytes && transfer.total_bytes
                <= wire.max_total_bytes;
            match record_verdict(stem, config, wire, transfer)->Err_0 {
                TransferError::QueueSchema => transfer.schema_version != 1,
                TransferError::InvalidIdentifier => transfer.schema_version == 1 && spelled is None,
                TransferError::QueueFilename => transfer.schema_version == 1 && spelled is Some
                    && stem != Some(transfer.transfer_id@),
                TransferError::QueueEmpty => filed && n == 0,
                TransferError::QueueEntryLimit => filed && n > 0 && !counted,
                TransferError::QueueByteLimit => filed && counted && !bounded,
                TransferError::NonCanonicalIdentifier => filed && counted && bounded && hyphenated(
                    spelled->Some_0,
                ) != transfer.transfer_id@,
                TransferError::NoSourceRoots => filed && counted && bounded && forall|i: int|
                    0 <= i < n ==> (#[trigger] transfer.entries@[i]).relative_path@.contains('/'),
                _ => false,
            }
        }),
{
    law_tidy_records_are_accepted(stem, config, wire, transfer);
}

/// The size of all files among some sources.
pub open spec fn bytes_of_files(sources: Seq<QueuedSource>) -> int {
    sources.fold_left(
        0int,
        |sum: int, s: QueuedSource|
            if s.is_dir {
                sum
            } else {
                sum + s.size_bytes
            },
    )
}

proof fn lemma_bytes_of_files(sources: Seq<QueuedSource>, n: int)
    requires
        0 <= n <= sources.len(),
    ensures
        queued_bytes(sources, n) == bytes_of_files(sources.take(n)),
    decreases n,
{
    if n > 0 {
        lemma_bytes_of_files(sources, n - 1);
        assert(sources.take(n).drop_last() =~= sources.take(n - 1));
        assert(sources.take(n).last() == sources[n - 1]);
    }
}

proof fn lemma_no_source_error(sources: Seq<QueuedSource>, portable: Seq<bool>, from: int)
    requires
        0 <= from <= sources.len(),
    ensures
        sources_error(sources, portable, from) is None <==> forall|i: int|
            from <= i < sources.len() ==> source_error(#[trigger] sources[i], portable[i]) is None,
    decreases sources.len() - from,
{
    if from < sources.len() {
        lemma_no_source_error(sources, portable, from + 1);
    }
}

/// A record is offered exactly where every source is portable and every file among
/// them has a digest that can be read, where its identifier can be read, and where its
/// total is that of its files.
pub proof fn law_queued_transfers_are_offered(transfer: QueuedTransfer, portable: Seq<bool>)
    requires
        portable.len() == transfer.entries@.len(),
    ensures
        offer_error(transfer, portable) is None <==> {
            let sources = transfer.entries@;
            &&& forall|i: int| 0 <= i < sources.len() ==> #[trigger] portable[i]
            &&& forall|i: int|
                0 <= i < sources.len() && !(#[trigger] sources[i]).is_dir ==> (
                sources[i].sha256 matches Some(text) && digest_spelled_by(
                    vstd::utf8::encode_utf8(text@),
                ) is Ok)
            &&& uuid_spelled_by(transfer.transfer_id@) is Some
            &&& bytes_of_files(sources) == transfer.total_bytes
        },
{
    let sources = transfer.entries@;
    lemma_no_source_error(sources, portable, 0);
    lemma_bytes_of_files(sources, sources.len() as int);
    assert(sources.take(sources.len() as int) =~= sources);
    if sources_error(sources, portable, 0) is None {
        assert forall|i: int| 0 <= i < sources.len() implies #[trigger] portable[i] by {
            assert(source_error(sources[i], portable[i]) is None);
        }
    }
    if forall|i: int| 0 <= i < sources.len() ==> #[trigger] portable[i] {
        assert forall|i: int| 0 <= i < sources.len() && (sources[i].is_dir || (
        sources[i].sha256 matches Some(text) && digest_spelled_by(
            vstd::utf8::encode_utf8(text@),
        ) is Ok)) implies source_error(#[trigger] sources[i], portable[i]) is None by {
            assert(portable[i]);
        }
    }
}

/// An offered entry has the path and the kind of its source, and a file's size and
/// digest with it.
pub proof fn law_offered_entries_tell_of_their_source(entry: TransferEntry, source: QueuedSource)
    requires
        offers(entry, source),
    ensures
        entry.relative_path@ == source.relative_path@,
        entry.is_dir == source.is_dir,
        entry.size_bytes == (if source.is_dir {
            0
        } else {
            source.size_bytes
        }),
        source.is_dir <==> entry.sha256 is None,
        !source.is_dir ==> digest_spelled_by(
            vstd::utf8::encode_utf8(source.sha256->Some_0@),
        ) == Ok::<Seq<u8>, TransferError>(entry.sha256->Some_0@),
{
}

/// Sources count as unchanged exactly where there are as many of them and each has
/// the same paths, kind, size and digest as before.
pub proof fn law_changed_sources_are_noticed(a: Seq<QueuedSource>, b: Seq<QueuedSource>)
    ensures
        same_sources(a, b) <==> a.len() == b.len() && forall|i: int|
            0 <= i < a.len() ==> (#[trigger] a[i]).absolute_path@ == b[i].absolute_path@
                && a[i].relative_path@ == b[i].relative_path@ && a[i].is_dir == b[i].is_dir
                && a[i].size_bytes == b[i].size_bytes && (a[i].sha256 is None <==> b[i].sha256 is None)
                && (a[i].sha256 is Some && b[i].sha256 is Some ==> a[i].sha256->Some_0@
                == b[i].sha256->Some_0@),
        same_sources(a, a),
        same_sources(a, b) == same_sources(b, a),
{
    if same_sources(a, b) {
        assert forall|i: int| 0 <= i < b.len() implies same_source(#[trigger] b[i], a[i]) by {
            assert(same_source(a[i], b[i]));
        }
    }
    if same_sources(b, a) {
        assert forall|i: int| 0 <= i < a.len() implies same_source(#[trigger] a[i], b[i]) by {
            assert(same_source(b[i], a[i]));
        }
    }
    if a.len() == b.len() && forall|i: int|
        0 <= i < a.len() ==> (#[trigger] a[i]).absolute_path@ == b[i].absolute_path@
            && a[i].relative_path@ == b[i].relative_path@ && a[i].is_dir == b[i].is_dir
            && a[i].size_bytes == b[i].size_bytes && (a[i].sha256 is None <==> b[i].sha256 is None)
            && (a[i].sha256 is Some && b[i].sha256 is Some ==> a[i].sha256->Some_0@
            == b[i].sha256->Some_0@) {
        assert forall|i: int| 0 <= i < a.len() implies same_source(#[trigger] a[i], b[i]) by {}
    }
}

/// A record is removed only where version, identifier, time, total and sources are
/// all what they were.
pub proof fn law_changed_records_are_noticed(a: QueuedTransfer, b: QueuedTransfer)
    ensures
        same_record(a, b) <==> {
            &&& a.schema_version == b.schema_version
            &&& a.transfer_id@ == b.transfer_id@
            &&& a.queued_at_unix_nanos == b.queued_at_unix_nanos
            &&& a.total_bytes == b.total_bytes
            &&& same_sources(a.entries@, b.entries@)
        },
        same_record(a, a),
{
    law_changed_sources_are_noticed(a.entries@, a.entries@);
}

/// The earlier record is the one with the earlier time, and of two with one time the
/// one whose identifier precedes; two records are ordered unless both are equal.
pub proof fn law_records_are_ordered_by_time(a: QueuedTransfer, b: QueuedTransfer)
    ensures
        a.queued_at_unix_nanos < b.queued_at_unix_nanos ==> queued_before(a, b) && !queued_before(
            b,
            a,
        ),
        a.queued_at_unix_nanos == b.queued_at_unix_nanos ==> queued_before(a, b) == precedes(
            a.transfer_id@,
            b.transfer_id@,
        ),
        !queued_before(a, b) && !queued_before(b, a) ==> a.queued_at_unix_nanos
            == b.queued_at_unix_nanos && a.transfer_id@ == b.transfer_id@,
{
    law_text_order_is_total(a.transfer_id@, b.transfer_id@);
}

} // verus!
