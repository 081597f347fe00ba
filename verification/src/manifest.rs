//! What a transfer offer lists, and whether local policy admits it.

use vstd::prelude::*;

use crate::ids::DeviceId;
use crate::ids::TransferId;
use crate::outside::lowercase;
use crate::outside::lowercase_of;
use crate::text::contains_text;
use crate::text::to_chars;
use crate::transfer_error::TransferError;

verus! {

/// One file or directory of an offer.
#[derive(Clone, Debug)]
pub struct TransferEntry {
    pub relative_path: String,
    pub is_dir: bool,
    pub size_bytes: u64,
    pub sha256: Option<[u8; 32]>,
}

/// An offer: the entries that one device wants to send to another.
#[derive(Clone, Debug)]
pub struct TransferManifest {
    pub id: TransferId,
    pub from: DeviceId,
    pub to: Option<DeviceId>,
    pub entries: Vec<TransferEntry>,
    pub total_bytes: u64,
}

/// The configured part of the transfer policy.
#[derive(Clone, Debug)]
pub struct FileTransferConfig {
    pub enabled: bool,
    pub download_dir: Option<String>,
    pub max_transfer_bytes: u64,
    pub max_entries: usize,
}

/// The limits that the wire format sets.
#[derive(Clone, Copy, PartialEq, Eq, Structural, Debug)]
pub struct WireLimits {
    pub max_manifest_entries: usize,
    pub max_total_bytes: u64,
    pub max_chunk_size: usize,
}

/// The smaller of two numbers.
pub open spec fn least(a: int, b: int) -> int {
    if a <= b {
        a
    } else {
        b
    }
}

/// How many entries a transfer may have.
pub open spec fn entry_limit(config: FileTransferConfig, wire: WireLimits) -> int {
    least(config.max_entries as int, wire.max_manifest_entries as int)
}

/// How many entries a transfer may have.
pub fn max_entries(config: &FileTransferConfig, wire: WireLimits) -> (n: usize)
    ensures
        n == entry_limit(*config, wire),
{
    if config.max_entries <= wire.max_manifest_entries {
        config.max_entries
    } else {
        wire.max_manifest_entries
    }
}

/// How many bytes a transfer may have.
pub open spec fn byte_limit(config: FileTransferConfig, wire: WireLimits) -> int {
    least(config.max_transfer_bytes as int, wire.max_total_bytes as int)
}

/// How many bytes a transfer may have.
pub fn max_bytes(config: &FileTransferConfig, wire: WireLimits) -> (n: u64)
    ensures
        n == byte_limit(*config, wire),
{
    if config.max_transfer_bytes <= wire.max_total_bytes {
        config.max_transfer_bytes
    } else {
        wire.max_total_bytes
    }
}

/// A path without the slashes that it starts with.
pub open spec fn without_leading_slashes(path: Seq<char>) -> Seq<char>
    decreases path.len(),
{
    if path.len() > 0 && path[0] == '/' {
        without_leading_slashes(path.drop_first())
    } else {
        path
    }
}

/// Whether one of the first `n` entries is the directory of that path.
pub open spec fn declares(entries: Seq<TransferEntry>, n: int, path: Seq<char>) -> bool {
    exists|j: int| 0 <= j < n && (#[trigger] entries[j]).is_dir && entries[j].relative_path@ == path
}

/// Whether every directory above entry `i` is an earlier entry.
pub open spec fn parents_declared(entries: Seq<TransferEntry>, i: int) -> bool {
    let path = entries[i].relative_path@;
    forall|k: int|
        0 <= k < path.len() && #[trigger] path[k] == '/' ==> declares(
            entries,
            i,
            without_leading_slashes(path.take(k)),
        )
}

/// Whether an earlier entry has the same path up to letter case.
pub open spec fn case_collides(entries: Seq<TransferEntry>, i: int) -> bool {
    exists|j: int|
        0 <= j < i && lowercase_of((#[trigger] entries[j]).relative_path@) == lowercase_of(
            entries[i].relative_path@,
        )
}

/// What the tree rules say of entry `i`; `portable` tells of each entry whether
/// its path and size make a portable entry.
pub open spec fn entry_verdict(
    entries: Seq<TransferEntry>,
    portable: Seq<bool>,
    i: int,
) -> Result<(), TransferError> {
    if !portable[i] {
        Err(TransferError::PathNotPortable)
    } else if case_collides(entries, i) {
        Err(TransferError::CaseCollidingPaths)
    } else if !parents_declared(entries, i) {
        Err(TransferError::ChildBeforeParent)
    } else {
        Ok(())
    }
}

/// What the tree rules say of the entries from `i` on: the first refusal.
pub open spec fn tree_verdict(
    entries: Seq<TransferEntry>,
    portable: Seq<bool>,
    i: int,
) -> Result<(), TransferError>
    decreases entries.len() - i,
{
    if i >= entries.len() {
        Ok(())
    } else if entry_verdict(entries, portable, i) is Err {
        entry_verdict(entries, portable, i)
    } else {
        tree_verdict(entries, portable, i + 1)
    }
}

/// What local policy says of an offer.
pub open spec fn policy_verdict(
    manifest: TransferManifest,
    config: FileTransferConfig,
    wire: WireLimits,
    expected_sender: DeviceId,
    local: DeviceId,
    portable: Seq<bool>,
) -> Result<(), TransferError> {
    if manifest.from != expected_sender {
        Err(TransferError::SenderMismatch)
    } else if manifest.to != Some(local) {
        Err(TransferError::TargetMismatch)
    } else if manifest.entries@.len() == 0 || manifest.entries@.len() > entry_limit(config, wire) {
        Err(TransferError::EntryCountExceedsPolicy)
    } else if manifest.total_bytes > byte_limit(config, wire) {
        Err(TransferError::ByteCountExceedsPolicy)
    } else {
        tree_verdict(manifest.entries@, portable, 0)
    }
}

fn declares_directory(entries: &Vec<TransferEntry>, n: usize, path: &String) -> (found: bool)
    requires
        n <= entries.len(),
    ensures
        found == declares(entries@, n as int, path@),
{
    let mut j: usize = 0;
    while j < n
        invariant
            j <= n <= entries.len(),
            forall|k: int|
                0 <= k < j ==> !((#[trigger] entries@[k]).is_dir && entries@[k].relative_path@
                    == path@),
        decreases n - j,
    {
        if entries[j].is_dir && entries[j].relative_path == *path {
            assert(entries@[j as int].is_dir && entries@[j as int].relative_path@ == path@);
            return true;
        }
        j += 1;
    }
    false
}

proof fn lemma_strip_push(path: Seq<char>, c: char)
    ensures
        without_leading_slashes(path.push(c)) == if without_leading_slashes(path).len() == 0 && c
            == '/' {
            Seq::<char>::empty()
        } else {
            without_leading_slashes(path).push(c)
        },
    decreases path.len(),
{
    reveal_with_fuel(without_leading_slashes, 2);
    if path.len() > 0 {
        assert(path.push(c).drop_first() == path.drop_first().push(c));
        if path[0] == '/' {
            lemma_strip_push(path.drop_first(), c);
        }
    } else {
        assert(path.push(c).drop_first() == Seq::<char>::empty());
        assert(path.push(c) == Seq::<char>::empty().push(c));
    }
}

fn has_declared_parents(entries: &Vec<TransferEntry>, i: usize) -> (ok: bool)
    requires
        i < entries.len(),
    ensures
        ok == parents_declared(entries@, i as int),
{
    let path: Vec<char> = to_chars(&entries[i].relative_path);
    let mut prefix = String::new();
    let mut k: usize = 0;
    assert(path@.take(0) == Seq::<char>::empty());
    while k < path.len()
        invariant
            i < entries.len(),
            k <= path.len(),
            path@ == entries@[i as int].relative_path@,
            prefix@ == without_leading_slashes(path@.take(k as int)),
            forall|m: int|
                0 <= m < k && #[trigger] path@[m] == '/' ==> declares(
                    entries@,
                    i as int,
                    without_leading_slashes(path@.take(m)),
                ),
        decreases path.len() - k,
    {
        proof {
            assert(path@.take(k + 1) == path@.take(k as int).push(path@[k as int]));
            lemma_strip_push(path@.take(k as int), path@[k as int]);
        }
        let c = path[k];
        if c == '/' {
            if !declares_directory(entries, i, &prefix) {
                assert(path@[k as int] == '/');
                return false;
            }
            if !prefix.as_str().is_empty() {
                prefix.push(c);
            }
        } else {
            prefix.push(c);
        }
        k += 1;
    }
    true
}

/// Whether an authenticated peer's offer may be received: it comes from that
/// peer, is meant for this device, keeps to the limits, and lists a portable
/// tree in which directories precede what they hold.
pub fn validate_manifest_policy(
    manifest: &TransferManifest,
    config: &FileTransferConfig,
    wire: WireLimits,
    expected_sender: DeviceId,
    local: DeviceId,
    portable: &Vec<bool>,
) -> (r: Result<(), TransferError>)
    requires
        portable.len() == manifest.entries.len(),
    ensures
        r == policy_verdict(*manifest, *config, wire, expected_sender, local, portable@),
{
    if manifest.from != expected_sender {
        return Err(TransferError::SenderMismatch);
    }
    match manifest.to {
        Some(to) => {
            if to != local {
                return Err(TransferError::TargetMismatch);
            }
        },
        None => {
            return Err(TransferError::TargetMismatch);
        },
    }
    if manifest.entries.len() == 0 || manifest.entries.len() > max_entries(config, wire) {
        return Err(TransferError::EntryCountExceedsPolicy);
    }
    if manifest.total_bytes > max_bytes(config, wire) {
        return Err(TransferError::ByteCountExceedsPolicy);
    }
    let mut seen: Vec<String> = Vec::new();
    let mut i: usize = 0;
    while i < manifest.entries.len()
        invariant
            i <= manifest.entries.len(),
            portable.len() == manifest.entries.len(),
            seen.len() == i,
            forall|j: int|
                0 <= j < i ==> #[trigger] seen@[j]@ == lowercase_of(
                    manifest.entries@[j].relative_path@,
                ),
            policy_verdict(*manifest, *config, wire, expected_sender, local, portable@)
                == tree_verdict(manifest.entries@, portable@, i as int),
        decreases manifest.entries.len() - i,
    {
        if !portable[i] {
            return Err(TransferError::PathNotPortable);
        }
        let lower = lowercase(&manifest.entries[i].relative_path);
        let collides = contains_text(&seen, &lower);
        assert(collides == case_collides(manifest.entries@, i as int)) by {
            if collides {
                let j = choose|j: int| 0 <= j < seen@.len() && #[trigger] seen@[j]@ == lower@;
                assert(lowercase_of(manifest.entries@[j].relative_path@) == lower@);
            }
            if case_collides(manifest.entries@, i as int) {
                let j = choose|j: int|
                    0 <= j < i && lowercase_of((#[trigger] manifest.entries@[j]).relative_path@)
                        == lower@;
                assert(seen@[j]@ == lower@);
            }
        }
        if collides {
            return Err(TransferError::CaseCollidingPaths);
        }
        seen.push(lower);
        if !has_declared_parents(&manifest.entries, i) {
            return Err(TransferError::ChildBeforeParent);
        }
        i += 1;
    }
    Ok(())
}

/// An admitted offer comes from the authenticated peer, is meant for this
/// device, and keeps to the configured and the wire limits.
pub proof fn law_admitted_offers_are_addressed_and_bounded(
    manifest: TransferManifest,
    config: FileTransferConfig,
    wire: WireLimits,
    expected_sender: DeviceId,
    local: DeviceId,
    portable: Seq<bool>,
)
    requires
        policy_verdict(manifest, config, wire, expected_sender, local, portable) is Ok,
    ensures
        manifest.from == expected_sender,
        manifest.to == Some(local),
        0 < manifest.entries@.len() <= config.max_entries,
        manifest.entries@.len() <= wire.max_manifest_entries,
        manifest.total_bytes <= config.max_transfer_bytes,
        manifest.total_bytes <= wire.max_total_bytes,
{
}

proof fn lemma_tree_ok(entries: Seq<TransferEntry>, portable: Seq<bool>, from: int, i: int)
    requires
        0 <= from <= i < entries.len(),
        tree_verdict(entries, portable, from) is Ok,
    ensures
        entry_verdict(entries, portable, i) is Ok,
    decreases i - from,
{
    if from < i {
        lemma_tree_ok(entries, portable, from + 1, i);
    }
}

/// In an admitted offer no two paths are equal up to letter case, and each
/// entry is portable and preceded by the directories above it.
pub proof fn law_admitted_trees_are_portable(
    manifest: TransferManifest,
    config: FileTransferConfig,
    wire: WireLimits,
    expected_sender: DeviceId,
    local: DeviceId,
    portable: Seq<bool>,
    i: int,
    j: int,
)
    requires
        policy_verdict(manifest, config, wire, expected_sender, local, portable) is Ok,
        0 <= i < j < manifest.entries@.len(),
    ensures
        portable[i] && portable[j],
        lowercase_of(manifest.entries@[i].relative_path@) != lowercase_of(
            manifest.entries@[j].relative_path@,
        ),
        parents_declared(manifest.entries@, i),
        parents_declared(manifest.entries@, j),
{
    lemma_tree_ok(manifest.entries@, portable, 0, i);
    lemma_tree_ok(manifest.entries@, portable, 0, j);
    assert(!case_collides(manifest.entries@, j));
}

proof fn lemma_strip_at(path: Seq<char>, m: int)
    requires
        0 <= m <= path.len(),
        forall|q: int| 0 <= q < m ==> path[q] == '/',
        m < path.len() ==> path[m] != '/',
    ensures
        without_leading_slashes(path) == path.skip(m),
    decreases m,
{
    if m > 0 {
        lemma_strip_at(path.drop_first(), m - 1);
        assert(path.drop_first().skip(m - 1) =~= path.skip(m));
    } else {
        assert(path.skip(0) =~= path);
    }
}

proof fn lemma_strip_point(path: Seq<char>) -> (m: int)
    ensures
        0 <= m <= path.len(),
        forall|q: int| 0 <= q < m ==> path[q] == '/',
        m < path.len() ==> path[m] != '/',
        without_leading_slashes(path) == path.skip(m),
    decreases path.len(),
{
    if path.len() > 0 && path[0] == '/' {
        let k = lemma_strip_point(path.drop_first());
        assert(path.drop_first().skip(k) =~= path.skip(k + 1));
        assert forall|q: int| 0 <= q < k + 1 implies path[q] == '/' by {
            if q > 0 {
                assert(path.drop_first()[q - 1] == path[q]);
            }
        }
        if k + 1 < path.len() {
            assert(path.drop_first()[k] == path[k + 1]);
        }
        k + 1
    } else {
        assert(path.skip(0) =~= path);
        0
    }
}

/// Whether some entry before entry `i` is a directory whose path is what entry `i`
/// has before position `k`, where slashes at the very front do not count.
pub open spec fn directory_before(entries: Seq<TransferEntry>, i: int, k: int) -> bool {
    let path = entries[i].relative_path@;
    exists|j: int, m: int|
        #![trigger entries[j], path.subrange(m, k)]
        0 <= j < i && entries[j].is_dir && 0 <= m <= k && entries[j].relative_path@
            == path.subrange(m, k) && (forall|q: int| 0 <= q < m ==> path[q] == '/') && (m < k
            ==> path[m] != '/')
}

proof fn lemma_directory_before(entries: Seq<TransferEntry>, i: int, k: int)
    requires
        0 <= i < entries.len(),
        0 <= k < entries[i].relative_path@.len(),
    ensures
        directory_before(entries, i, k) <==> declares(
            entries,
            i,
            without_leading_slashes(entries[i].relative_path@.take(k)),
        ),
{
    let path = entries[i].relative_path@;
    let front = path.take(k);
    if directory_before(entries, i, k) {
        let (j, m) = choose|j: int, m: int|
            #![trigger entries[j], path.subrange(m, k)]
            0 <= j < i && entries[j].is_dir && 0 <= m <= k && entries[j].relative_path@
                == path.subrange(m, k) && (forall|q: int| 0 <= q < m ==> path[q] == '/') && (m < k
                ==> path[m] != '/');
        lemma_strip_at(front, m);
        assert(front.skip(m) =~= path.subrange(m, k));
        assert(entries[j].is_dir && entries[j].relative_path@ == without_leading_slashes(front));
    }
    if declares(entries, i, without_leading_slashes(front)) {
        let m = lemma_strip_point(front);
        assert(front.skip(m) =~= path.subrange(m, k));
        let j = choose|j: int|
            0 <= j < i && (#[trigger] entries[j]).is_dir && entries[j].relative_path@
                == without_leading_slashes(front);
        assert(entries[j].relative_path@ == path.subrange(m, k));
        assert forall|q: int| 0 <= q < m implies path[q] == '/' by {
            assert(front[q] == path[q]);
        }
    }
}

proof fn lemma_tree_all(entries: Seq<TransferEntry>, portable: Seq<bool>, from: int)
    requires
        0 <= from <= entries.len(),
        forall|i: int| from <= i < entries.len() ==> #[trigger] entry_verdict(entries, portable, i) is Ok,
    ensures
        tree_verdict(entries, portable, from) is Ok,
    decreases entries.len() - from,
{
    if from < entries.len() {
        assert(entry_verdict(entries, portable, from) is Ok);
        lemma_tree_all(entries, portable, from + 1);
    }
}

/// An offer is admitted exactly where it comes from the expected sender, is meant for
/// this device, has at least one entry and no more entries and bytes than both limits
/// allow, and where every entry is portable, no two paths are equal in lower case, and
/// before every slash of a path stands a directory that is listed before.
pub proof fn law_tidy_offers_are_admitted(
    manifest: TransferManifest,
    config: FileTransferConfig,
    wire: WireLimits,
    expected_sender: DeviceId,
    local: DeviceId,
    portable: Seq<bool>,
)
    requires
        portable.len() == manifest.entries@.len(),
    ensures
        policy_verdict(manifest, config, wire, expected_sender, local, portable) is Ok <==> {
            let entries = manifest.entries@;
            &&& manifest.from == expected_sender
            &&& manifest.to == Some(local)
            &&& 1 <= entries.len() <= config.max_entries
            &&& entries.len() <= wire.max_manifest_entries
            &&& manifest.total_bytes <= config.max_transfer_bytes
            &&& manifest.total_bytes <= wire.max_total_bytes
            &&& forall|i: int| 0 <= i < entries.len() ==> #[trigger] portable[i]
            &&& forall|i: int, j: int|
                0 <= i < j < entries.len() ==> lowercase_of((#[trigger] entries[i]).relative_path@)
                    != lowercase_of((#[trigger] entries[j]).relative_path@)
            &&& forall|i: int, k: int|
                0 <= i < entries.len() && 0 <= k < entries[i].relative_path@.len()
                    && #[trigger] entries[i].relative_path@[k] == '/' ==> directory_before(
                    entries,
                    i,
                    k,
                )
        },
{
    let entries = manifest.entries@;
    if policy_verdict(manifest, config, wire, expected_sender, local, portable) is Ok {
        assert forall|i: int| 0 <= i < entries.len() implies #[trigger] portable[i] by {
            lemma_tree_ok(entries, portable, 0, i);
        }
        assert forall|i: int, j: int| 0 <= i < j < entries.len() implies lowercase_of(
            (#[trigger] entries[i]).relative_path@,
        ) != lowercase_of((#[trigger] entries[j]).relative_path@) by {
            lemma_tree_ok(entries, portable, 0, j);
            assert(!case_collides(entries, j));
        }
        assert forall|i: int, k: int|
            0 <= i < entries.len() && 0 <= k < entries[i].relative_path@.len()
                && #[trigger] entries[i].relative_path@[k] == '/' implies directory_before(
            entries,
            i,
            k,
        ) by {
            lemma_tree_ok(entries, portable, 0, i);
            assert(parents_declared(entries, i));
            lemma_directory_before(entries, i, k);
        }
    }
    if {
        &&& forall|i: int| 0 <= i < entries.len() ==> #[trigger] portable[i]
        &&& forall|i: int, j: int|
            0 <= i < j < entries.len() ==> lowercase_of((#[trigger] entries[i]).relative_path@)
                != lowercase_of((#[trigger] entries[j]).relative_path@)
        &&& forall|i: int, k: int|
            0 <= i < entries.len() && 0 <= k < entries[i].relative_path@.len()
                && #[trigger] entries[i].relative_path@[k] == '/' ==> directory_before(entries, i, k)
    } {
        assert forall|i: int| 0 <= i < entries.len() implies #[trigger] entry_verdict(
            entries,
            portable,
            i,
        ) is Ok by {
            assert(portable[i]);
            assert(!case_collides(entries, i));
            assert(parents_declared(entries, i)) by {
                let path = entries[i].relative_path@;
                assert forall|k: int| 0 <= k < path.len() && #[trigger] path[k] == '/' implies declares(
                    entries,
                    i,
                    without_leading_slashes(path.take(k)),
                ) by {
                    assert(entries[i].relative_path@[k] == '/');
                    lemma_directory_before(entries, i, k);
                }
            }
        }
        lemma_tree_all(entries, portable, 0);
    }
}

proof fn lemma_first_fault(entries: Seq<TransferEntry>, portable: Seq<bool>, from: int) -> (at: int)
    requires
        0 <= from <= entries.len(),
        tree_verdict(entries, portable, from) is Err,
    ensures
        from <= at < entries.len(),
        tree_verdict(entries, portable, from) == entry_verdict(entries, portable, at),
        forall|i: int| from <= i < at ==> #[trigger] entry_verdict(entries, portable, i) is Ok,
    decreases entries.len() - from,
{
    if entry_verdict(entries, portable, from) is Err {
        from
    } else {
        lemma_first_fault(entries, portable, from + 1)
    }
}

/// Each refusal says what is wrong, and whatever is asked before it is in order.
pub proof fn law_refused_offers_name_their_fault(
    manifest: TransferManifest,
    config: FileTransferConfig,
    wire: WireLimits,
    expected_sender: DeviceId,
    local: DeviceId,
    portable: Seq<bool>,
)
    requires
        portable.len() == manifest.entries@.len(),
        policy_verdict(manifest, config, wire, expected_sender, local, portable) is Err,
    ensures
        ({
            let entries = manifest.entries@;
            let addressed = manifest.from == expected_sender && manifest.to == Some(local);
            let counted = 1 <= entries.len() <= config.max_entries && entries.len()
                <= wire.max_manifest_entries;
            let bounded = manifest.total_bytes <= config.max_transfer_bytes && manifest.total_bytes
                <= wire.max_total_bytes;
            match policy_verdict(manifest, config, wire, expected_sender, local, portable)->Err_0 {
                TransferError::SenderMismatch => manifest.from != expected_sender,
                TransferError::TargetMismatch => manifest.from == expected_sender && manifest.to
                    != Some(local),
                TransferError::EntryCountExceedsPolicy => addressed && !counted,
                TransferError::ByteCountExceedsPolicy => addressed && counted && !bounded,
                TransferError::PathNotPortable => addressed && counted && bounded && exists|i: int|
                    0 <= i < entries.len() && !#[trigger] portable[i],
                TransferError::CaseCollidingPaths => addressed && counted && bounded && exists|
                    i: int,
                    j: int,
                |
                    0 <= i < j < entries.len() && lowercase_of(
                        (#[trigger] entries[i]).relative_path@,
                    ) == lowercase_of((#[trigger] entries[j]).relative_path@),
                TransferError::ChildBeforeParent => addressed && counted && bounded && exists|
                    i: int,
                    k: int,
                |
                    0 <= i < entries.len() && 0 <= k < entries[i].relative_path@.len()
                        && #[trigger] entries[i].relative_path@[k] == '/' && !directory_before(
                        entries,
                        i,
                        k,
                    ),
                _ => false,
            }
        }),
{
    let entries = manifest.entries@;
    if tree_verdict(entries, portable, 0) is Err {
        let at = lemma_first_fault(entries, portable, 0);
        if portable[at] && case_collides(entries, at) {
            let j = choose|j: int|
                0 <= j < at && lowercase_of((#[trigger] entries[j]).relative_path@) == lowercase_of(
                    entries[at].relative_path@,
                );
            assert(lowercase_of(entries[j].relative_path@) == lowercase_of(
                entries[at].relative_path@,
            ));
        }
        if portable[at] && !case_collides(entries, at) {
            let path = entries[at].relative_path@;
            let k = choose|k: int|
                0 <= k < path.len() && #[trigger] path[k] == '/' && !declares(
                    entries,
                    at,
                    without_leading_slashes(path.take(k)),
                );
            lemma_directory_before(entries, at, k);
            assert(entries[at].relative_path@[k] == '/');
        }
    }
}

/// A transfer may have as many entries and bytes as the smaller of the two limits
/// says.
pub proof fn law_the_smaller_limit_counts(config: FileTransferConfig, wire: WireLimits, n: int)
    ensures
        n <= entry_limit(config, wire) <==> n <= config.max_entries && n <= wire.max_manifest_entries,
        n <= byte_limit(config, wire) <==> n <= config.max_transfer_bytes && n
            <= wire.max_total_bytes,
{
}

} // verus!
