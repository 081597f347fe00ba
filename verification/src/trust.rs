//! The trusted devices, and which of them may use the lanes.

use vstd::prelude::*;

use crate::leases::same_bytes;
use crate::text::ascii_lowered;
use crate::text::equal_up_to_ascii_case;
use crate::text::law_lowered_texts_agree_up_to_case;
use crate::text::same_ignoring_ascii_case;
use crate::text::trim;
use crate::text::trimmed;

verus! {

/// A paired device. `fingerprint` is the printable digest of its key.
#[derive(Debug)]
pub struct TrustEntry {
    pub display_name: String,
    pub public_key: Vec<u8>,
    pub fingerprint: String,
    pub paired_at: u64,
}

/// What an entry says of its device.
#[verifier::ext_equal]
pub ghost struct TrustFacts {
    pub display_name: Seq<char>,
    pub fingerprint: Seq<char>,
    pub paired_at: u64,
}

impl TrustEntry {
    /// What the entry says of its device.
    pub open spec fn facts(self) -> TrustFacts {
        TrustFacts {
            display_name: self.display_name@,
            fingerprint: self.fingerprint@,
            paired_at: self.paired_at,
        }
    }

    /// A copy of the entry.
    pub fn copy(&self) -> (entry: TrustEntry)
        ensures
            entry.public_key@ == self.public_key@,
            entry.facts() == self.facts(),
    {
        let mut key: Vec<u8> = Vec::new();
        crate::ids::append_bytes(&mut key, self.public_key.as_slice());
        assert(key@ =~= self.public_key@);
        TrustEntry {
            display_name: self.display_name.clone(),
            public_key: key,
            fingerprint: self.fingerprint.clone(),
            paired_at: self.paired_at,
        }
    }
}

/// The trusted devices by key.
#[derive(Debug)]
pub struct TrustBook {
    entries: Vec<TrustEntry>,
}

/// Where a key stands in a list of entries.
spec fn index_of_key(entries: Seq<TrustEntry>, key: Seq<u8>) -> int {
    choose|i: int| 0 <= i < entries.len() && #[trigger] entries[i].public_key@ == key
}

impl View for TrustBook {
    type V = Map<Seq<u8>, TrustFacts>;

    closed spec fn view(&self) -> Map<Seq<u8>, TrustFacts> {
        Map::new(
            |key: Seq<u8>|
                exists|i: int| 0 <= i < self.entries@.len() && #[trigger] self.entries@[i].public_key@ == key,
            |key: Seq<u8>| self.entries@[index_of_key(self.entries@, key)].facts(),
        )
    }
}

impl TrustBook {
    /// No key has two entries.
    pub closed spec fn valid(self) -> bool {
        forall|i: int, j: int|
            0 <= i < j < self.entries@.len() ==> #[trigger] self.entries@[i].public_key@
                != #[trigger] self.entries@[j].public_key@
    }

    proof fn lemma_entry(self, i: int)
        requires
            self.valid(),
            0 <= i < self.entries@.len(),
        ensures
            self@.contains_key(self.entries@[i].public_key@),
            self@[self.entries@[i].public_key@] == self.entries@[i].facts(),
    {
        let key = self.entries@[i].public_key@;
        let k = index_of_key(self.entries@, key);
        assert(0 <= k < self.entries@.len() && self.entries@[k].public_key@ == key);
        if k < i {
            assert(self.entries@[k].public_key@ != self.entries@[i].public_key@);
        } else if i < k {
            assert(self.entries@[i].public_key@ != self.entries@[k].public_key@);
        }
    }

    /// Nobody is trusted.
    pub fn new() -> (book: Self)
        ensures
            book.valid(),
            book@ == Map::<Seq<u8>, TrustFacts>::empty(),
    {
        let book = TrustBook { entries: Vec::new() };
        assert(book@ =~= Map::<Seq<u8>, TrustFacts>::empty());
        book
    }

    fn position(&self, key: &Vec<u8>) -> (r: Option<usize>)
        requires
            self.valid(),
        ensures
            match r {
                Some(i) => i < self.entries@.len() && self.entries@[i as int].public_key@ == key@
                    && self@.contains_key(key@) && self@[key@] == self.entries@[i as int].facts(),
                None => !self@.contains_key(key@),
            },
    {
        let mut i: usize = 0;
        while i < self.entries.len()
            invariant
                i <= self.entries.len(),
                self.valid(),
                forall|k: int| 0 <= k < i ==> #[trigger] self.entries@[k].public_key@ != key@,
            decreases self.entries.len() - i,
        {
            if same_bytes(&self.entries[i].public_key, key) {
                proof {
                    self.lemma_entry(i as int);
                }
                return Some(i);
            }
            i += 1;
        }
        None
    }

    /// The entry of a key, as a copy.
    pub fn get(&self, key: &Vec<u8>) -> (r: Option<TrustEntry>)
        requires
            self.valid(),
        ensures
            match r {
                Some(entry) => entry.public_key@ == key@ && self@.contains_key(key@) && self@[key@]
                    == entry.facts(),
                None => !self@.contains_key(key@),
            },
    {
        match self.position(key) {
            Some(i) => Some(self.entries[i].copy()),
            None => None,
        }
    }

    /// Forgets a key.
    pub fn remove(&mut self, key: &Vec<u8>)
        requires
            old(self).valid(),
        ensures
            final(self).valid(),
            final(self)@ == old(self)@.remove(key@),
    {
        match self.position(key) {
            None => {
                assert(self@ =~= old(self)@.remove(key@));
            },
            Some(at) => {
                let ghost before = self.entries@;
                let _ = self.entries.remove(at);
                proof {
                    let after = self.entries@;
                    assert(after == before.remove(at as int));
                    assert forall|i: int, j: int| 0 <= i < j < after.len() implies #[trigger] after[i].public_key@
                        != #[trigger] after[j].public_key@ by {
                        let p = if i < at { i } else { i + 1 };
                        let q = if j < at { j } else { j + 1 };
                        assert(after[i] == before[p] && after[j] == before[q]);
                    }
                    assert(self.valid());
                    assert forall|k: Seq<u8>|
                        self@.contains_key(k) <==> old(self)@.remove(key@).contains_key(k) by {
                        if self@.contains_key(k) {
                            let i = choose|i: int|
                                0 <= i < after.len() && #[trigger] after[i].public_key@ == k;
                            let p = if i < at { i } else { i + 1 };
                            assert(before[p].public_key@ == k);
                            if p < at {
                                assert(before[p].public_key@ != before[at as int].public_key@);
                            } else {
                                assert(before[at as int].public_key@ != before[p].public_key@);
                            }
                        }
                        if old(self)@.contains_key(k) && k != key@ {
                            let i = choose|i: int|
                                0 <= i < before.len() && #[trigger] before[i].public_key@ == k;
                            let p = if i < at { i } else { i - 1 };
                            assert(after[p].public_key@ == k);
                        }
                    }
                    assert forall|k: Seq<u8>| #[trigger] self@.contains_key(k) implies self@[k]
                        == old(self)@.remove(key@)[k] by {
                        let i = choose|i: int|
                            0 <= i < after.len() && #[trigger] after[i].public_key@ == k;
                        let p = if i < at { i } else { i + 1 };
                        assert(after[i] == before[p]);
                        self.lemma_entry(i);
                        old(self).lemma_entry(p);
                        assert(old(self)@.remove(key@).contains_key(k));
                    }
                    assert(self@ =~= old(self)@.remove(key@));
                }
            },
        }
    }

    /// Trusts a device, in place of what was known of its key.
    pub fn insert(&mut self, entry: TrustEntry)
        requires
            old(self).valid(),
        ensures
            final(self).valid(),
            final(self)@ == old(self)@.insert(entry.public_key@, entry.facts()),
    {
        self.remove(&entry.public_key);
        let ghost key = entry.public_key@;
        let ghost facts = entry.facts();
        let ghost middle = *self;
        self.entries.push(entry);
        proof {
            let before = middle.entries@;
            let after = self.entries@;
            assert(!middle@.contains_key(key));
            assert forall|i: int| 0 <= i < before.len() implies #[trigger] before[i].public_key@ != key by {
                if before[i].public_key@ == key {
                    assert(middle@.contains_key(key));
                }
            }
            assert forall|i: int, j: int| 0 <= i < j < after.len() implies #[trigger] after[i].public_key@
                != #[trigger] after[j].public_key@ by {
                assert(after[i] == before[i]);
                if j < before.len() {
                    assert(after[j] == before[j]);
                }
            }
            assert(self.valid());
            self.lemma_entry(before.len() as int);
            assert forall|k: Seq<u8>|
                self@.contains_key(k) <==> middle@.insert(key, facts).contains_key(k) by {
                if middle@.contains_key(k) {
                    let i = choose|i: int|
                        0 <= i < before.len() && #[trigger] before[i].public_key@ == k;
                    assert(after[i].public_key@ == k);
                }
                if self@.contains_key(k) {
                    let i = choose|i: int|
                        0 <= i < after.len() && #[trigger] after[i].public_key@ == k;
                    if i < before.len() {
                        assert(before[i].public_key@ == k);
                    }
                }
            }
            assert forall|k: Seq<u8>| #[trigger] self@.contains_key(k) implies self@[k]
                == middle@.insert(key, facts)[k] by {
                let i = choose|i: int| 0 <= i < after.len() && #[trigger] after[i].public_key@ == k;
                self.lemma_entry(i);
                if i < before.len() {
                    assert(after[i] == before[i]);
                    middle.lemma_entry(i);
                }
            }
            assert(self@ =~= middle@.insert(key, facts));
            assert(self@ =~= old(self)@.insert(key, facts));
        }
    }

    /// The book that a list of entries makes, the later of two entries for one key.
    pub fn from_entries(entries: &Vec<TrustEntry>) -> (book: Self)
        ensures
            book.valid(),
            book@ == known_from(entries@),
    {
        let mut book = TrustBook::new();
        let mut i: usize = 0;
        assert(entries@.take(0) =~= Seq::empty());
        while i < entries.len()
            invariant
                i <= entries.len(),
                book.valid(),
                book@ == known_from(entries@.take(i as int)),
            decreases entries.len() - i,
        {
            book.insert(entries[i].copy());
            assert(entries@.take(i + 1).drop_last() =~= entries@.take(i as int));
            i += 1;
        }
        assert(entries@.take(i as int) =~= entries@);
        book
    }

    /// The entries of the book as a list, one for each key.
    pub fn to_entries(&self) -> (entries: Vec<TrustEntry>)
        requires
            self.valid(),
        ensures
            one_per_key(entries@),
            known_from(entries@) == self@,
    {
        let mut entries: Vec<TrustEntry> = Vec::new();
        let mut i: usize = 0;
        while i < self.entries.len()
            invariant
                i <= self.entries.len(),
                entries@.len() == i,
                forall|k: int|
                    0 <= k < i ==> (#[trigger] entries@[k]).public_key@ == self.entries@[k].public_key@
                        && entries@[k].facts() == self.entries@[k].facts(),
            decreases self.entries.len() - i,
        {
            entries.push(self.entries[i].copy());
            i += 1;
        }
        proof {
            let list = entries@;
            assert forall|i: int, j: int| 0 <= i < j < list.len() implies #[trigger] list[i].public_key@
                != #[trigger] list[j].public_key@ by {
                assert(self.entries@[i].public_key@ != self.entries@[j].public_key@);
            }
            assert forall|key: Seq<u8>|
                known_from(list).contains_key(key) <==> self@.contains_key(key) by {
                lemma_known_from(list, key);
                if self@.contains_key(key) {
                    let i = choose|i: int|
                        0 <= i < self.entries@.len() && #[trigger] self.entries@[i].public_key@ == key;
                    assert(list[i].public_key@ == key);
                }
                if known_from(list).contains_key(key) {
                    let i = choose|i: int| 0 <= i < list.len() && #[trigger] list[i].public_key@ == key;
                    assert(self.entries@[i].public_key@ == key);
                }
            }
            assert forall|key: Seq<u8>| #[trigger] self@.contains_key(key) implies known_from(list)[key]
                == self@[key] by {
                lemma_known_from(list, key);
                let i = choose|i: int|
                    0 <= i < self.entries@.len() && #[trigger] self.entries@[i].public_key@ == key;
                assert(list[i].public_key@ == key);
                self.lemma_entry(i);
            }
            assert(known_from(list) =~= self@);
        }
        entries
    }

    /// Puts back what was known of a key: an entry, or that there was none.
    pub fn restore(&mut self, key: &Vec<u8>, previous: Option<TrustEntry>)
        requires
            old(self).valid(),
            previous matches Some(entry) ==> entry.public_key@ == key@,
        ensures
            final(self).valid(),
            final(self)@ == (match previous {
                Some(entry) => old(self)@.insert(key@, entry.facts()),
                None => old(self)@.remove(key@),
            }),
    {
        match previous {
            Some(entry) => self.insert(entry),
            None => self.remove(key),
        }
    }
}

/// What a list of entries says of each key: of two entries for one key the later
/// one counts.
pub open spec fn known_from(entries: Seq<TrustEntry>) -> Map<Seq<u8>, TrustFacts>
    decreases entries.len(),
{
    if entries.len() == 0 {
        Map::empty()
    } else {
        known_from(entries.drop_last()).insert(entries.last().public_key@, entries.last().facts())
    }
}

/// No key has two entries in the list.
pub open spec fn one_per_key(entries: Seq<TrustEntry>) -> bool {
    forall|i: int, j: int|
        0 <= i < j < entries.len() ==> #[trigger] entries[i].public_key@
            != #[trigger] entries[j].public_key@
}

proof fn lemma_known_from(entries: Seq<TrustEntry>, key: Seq<u8>)
    requires
        one_per_key(entries),
    ensures
        known_from(entries).contains_key(key) <==> exists|i: int|
            0 <= i < entries.len() && #[trigger] entries[i].public_key@ == key,
        forall|i: int|
            0 <= i < entries.len() && #[trigger] entries[i].public_key@ == key ==> known_from(
                entries,
            )[key] == entries[i].facts(),
    decreases entries.len(),
{
    if entries.len() > 0 {
        let front = entries.drop_last();
        assert forall|i: int, j: int| 0 <= i < j < front.len() implies #[trigger] front[i].public_key@
            != #[trigger] front[j].public_key@ by {
            assert(front[i] == entries[i] && front[j] == entries[j]);
        }
        lemma_known_from(front, key);
        let last = entries.len() - 1;
        if known_from(front).contains_key(key) {
            let i = choose|i: int| 0 <= i < front.len() && #[trigger] front[i].public_key@ == key;
            assert(entries[i].public_key@ == key);
        }
        if entries[last].public_key@ == key {
            assert(known_from(entries).contains_key(key));
        }
        assert forall|i: int| 0 <= i < entries.len() && #[trigger] entries[i].public_key@
            == key implies known_from(entries).contains_key(key) && known_from(entries)[key]
            == entries[i].facts() by {
            if i < last {
                assert(front[i] == entries[i]);
                assert(entries[i].public_key@ != entries[last].public_key@);
            }
        }
    }
}

/// Pairing again with a device replaces what was known of it and leaves every other
/// device as it was, through what is read and written.
pub proof fn law_pairing_again_replaces_one_entry(
    entries: Seq<TrustEntry>,
    entry: TrustEntry,
    other: Seq<u8>,
)
    requires
        other != entry.public_key@,
    ensures
        known_from(entries.push(entry))[entry.public_key@] == entry.facts(),
        known_from(entries.push(entry)).contains_key(entry.public_key@),
        known_from(entries.push(entry)).contains_key(other) == known_from(entries).contains_key(other),
        known_from(entries.push(entry))[other] == known_from(entries)[other],
{
    assert(entries.push(entry).drop_last() =~= entries);
}

/// Which peers may use the lanes: any trusted one, a selected one, or none
/// because the selection names nobody.
#[derive(Debug)]
pub enum ActivePeerSelection {
    AnyTrusted,
    Only(Vec<u8>),
    Unresolved(String),
}

impl ActivePeerSelection {
    /// Whether an authenticated peer may use the lanes.
    pub open spec fn admits(self, peer: Option<Seq<u8>>) -> bool {
        match (self, peer) {
            (ActivePeerSelection::AnyTrusted, Some(_)) => true,
            (ActivePeerSelection::Only(expected), Some(actual)) => expected@ == actual,
            _ => false,
        }
    }

    /// Whether a peer may use the lanes. One without an identity never may.
    pub fn allows(&self, peer: Option<&Vec<u8>>) -> (b: bool)
        ensures
            b == self.admits(
                match peer {
                    Some(key) => Some(key@),
                    None => None,
                },
            ),
    {
        match (self, peer) {
            (ActivePeerSelection::AnyTrusted, Some(_)) => true,
            (ActivePeerSelection::Only(expected), Some(actual)) => same_bytes(expected, actual),
            _ => false,
        }
    }

    /// How the selection is named in diagnostics.
    pub fn label(&self) -> (text: String)
        ensures
            text@ == (match *self {
                ActivePeerSelection::AnyTrusted => "auto"@,
                ActivePeerSelection::Only(_) => "selected trusted peer"@,
                ActivePeerSelection::Unresolved(label) => label@,
            }),
    {
        match self {
            ActivePeerSelection::AnyTrusted => "auto".to_owned(),
            ActivePeerSelection::Only(_) => "selected trusted peer".to_owned(),
            ActivePeerSelection::Unresolved(label) => label.clone(),
        }
    }
}

/// Whether a label names an entry: by its name or its fingerprint, up to the
/// case of ASCII letters.
pub open spec fn names_entry(entry: TrustEntry, label: Seq<char>) -> bool {
    ascii_lowered(entry.display_name@) == ascii_lowered(label) || ascii_lowered(entry.fingerprint@)
        == ascii_lowered(label)
}

/// The first entry that a label names.
pub open spec fn first_named(entries: Seq<TrustEntry>, label: Seq<char>, i: int) -> Option<int>
    decreases entries.len() - i,
{
    if i >= entries.len() {
        None
    } else if names_entry(entries[i], label) {
        Some(i)
    } else {
        first_named(entries, label, i + 1)
    }
}

/// What a label selects: the first entry that it names, else nobody.
pub open spec fn selects(
    selection: ActivePeerSelection,
    entries: Seq<TrustEntry>,
    label: Seq<char>,
) -> bool {
    match first_named(entries, label, 0) {
        Some(i) => selection matches ActivePeerSelection::Only(key) && key@
            == entries[i].public_key@,
        None => selection matches ActivePeerSelection::Unresolved(text) && text@ == label,
    }
}

/// Resolves a label against the trusted devices. A label that names nobody
/// never falls back to another device.
pub fn resolve_active_peer_from_entries(label: &str, entries: &Vec<TrustEntry>) -> (selection:
    ActivePeerSelection)
    ensures
        selects(selection, entries@, label@),
{
    let mut i: usize = 0;
    while i < entries.len()
        invariant
            i <= entries.len(),
            first_named(entries@, label@, 0) == first_named(entries@, label@, i as int),
        decreases entries.len() - i,
    {
        if same_ignoring_ascii_case(&entries[i].display_name, label) || same_ignoring_ascii_case(
            &entries[i].fingerprint,
            label,
        ) {
            let mut key: Vec<u8> = Vec::new();
            crate::ids::append_bytes(&mut key, entries[i].public_key.as_slice());
            assert(key@ =~= entries@[i as int].public_key@);
            return ActivePeerSelection::Only(key);
        }
        i += 1;
    }
    ActivePeerSelection::Unresolved(label.to_owned())
}

/// Resolves the configured selection: none means any trusted peer, and where the
/// trusted devices cannot be read a label selects nobody.
pub fn resolve_active_peer_selection(
    active_peer: Option<&str>,
    entries: Option<&Vec<TrustEntry>>,
) -> (selection: ActivePeerSelection)
    ensures
        active_peer is None || trimmed(active_peer->Some_0@).len() == 0 ==> selection is AnyTrusted,
        active_peer is Some && trimmed(active_peer->Some_0@).len() > 0 ==> match entries {
            None => selection matches ActivePeerSelection::Unresolved(text) && text@ == trimmed(
                active_peer->Some_0@,
            ),
            Some(known) => selects(selection, known@, trimmed(active_peer->Some_0@)),
        },
{
    match active_peer {
        None => ActivePeerSelection::AnyTrusted,
        Some(text) => {
            let label = trim(text);
            if label.as_str().is_empty() {
                return ActivePeerSelection::AnyTrusted;
            }
            match entries {
                None => ActivePeerSelection::Unresolved(label),
                Some(known) => resolve_active_peer_from_entries(&label, known),
            }
        },
    }
}

/// A selection that names one device admits that device and no other, and one
/// that names nobody admits nobody.
pub proof fn law_selection_is_strict(
    selection: ActivePeerSelection,
    entries: Seq<TrustEntry>,
    label: Seq<char>,
    peer: Seq<u8>,
)
    requires
        selects(selection, entries, label),
    ensures
        !selection.admits(None),
        selection.admits(Some(peer)) == match first_named(entries, label, 0) {
            Some(i) => peer == entries[i].public_key@,
            None => false,
        },
{
}

proof fn lemma_first_named(entries: Seq<TrustEntry>, label: Seq<char>, from: int)
    requires
        0 <= from <= entries.len(),
    ensures
        match first_named(entries, label, from) {
            Some(k) => {
                &&& from <= k < entries.len()
                &&& names_entry(entries[k], label)
                &&& forall|i: int| from <= i < k ==> !names_entry(#[trigger] entries[i], label)
            },
            None => forall|i: int|
                from <= i < entries.len() ==> !names_entry(#[trigger] entries[i], label),
        },
    decreases entries.len() - from,
{
    if from < entries.len() && !names_entry(entries[from], label) {
        lemma_first_named(entries, label, from + 1);
    }
}

/// Where a trusted device has the label as its name or its fingerprint, up to the case
/// of ASCII letters, and no device listed before it has, the selection is that
/// device's key, wherever in the list it stands.
pub proof fn law_the_named_device_is_selected(
    selection: ActivePeerSelection,
    entries: Seq<TrustEntry>,
    label: Seq<char>,
    k: int,
)
    requires
        selects(selection, entries, label),
        0 <= k < entries.len(),
        equal_up_to_ascii_case(entries[k].display_name@, label) || equal_up_to_ascii_case(
            entries[k].fingerprint@,
            label,
        ),
        forall|i: int|
            0 <= i < k ==> !equal_up_to_ascii_case((#[trigger] entries[i]).display_name@, label)
                && !equal_up_to_ascii_case(entries[i].fingerprint@, label),
    ensures
        selection matches ActivePeerSelection::Only(key) && key@ == entries[k].public_key@,
        selection.admits(Some(entries[k].public_key@)),
{
    lemma_first_named(entries, label, 0);
    law_lowered_texts_agree_up_to_case(entries[k].display_name@, label);
    law_lowered_texts_agree_up_to_case(entries[k].fingerprint@, label);
    assert(names_entry(entries[k], label));
    assert forall|i: int| 0 <= i < k implies !names_entry(#[trigger] entries[i], label) by {
        law_lowered_texts_agree_up_to_case(entries[i].display_name@, label);
        law_lowered_texts_agree_up_to_case(entries[i].fingerprint@, label);
    }
}

/// A selection stays unresolved exactly where no trusted device has the label as its
/// name or its fingerprint, and then it keeps the label.
pub proof fn law_only_unknown_labels_stay_unresolved(
    selection: ActivePeerSelection,
    entries: Seq<TrustEntry>,
    label: Seq<char>,
)
    requires
        selects(selection, entries, label),
    ensures
        selection is Unresolved <==> forall|k: int|
            0 <= k < entries.len() ==> !equal_up_to_ascii_case(
                (#[trigger] entries[k]).display_name@,
                label,
            ) && !equal_up_to_ascii_case(entries[k].fingerprint@, label),
        !(selection is AnyTrusted),
        selection matches ActivePeerSelection::Unresolved(text) ==> text@ == label,
{
    lemma_first_named(entries, label, 0);
    assert forall|k: int| 0 <= k < entries.len() implies (names_entry(#[trigger] entries[k], label) <==> {
        ||| equal_up_to_ascii_case(entries[k].display_name@, label)
        ||| equal_up_to_ascii_case(entries[k].fingerprint@, label)
    }) by {
        law_lowered_texts_agree_up_to_case(entries[k].display_name@, label);
        law_lowered_texts_agree_up_to_case(entries[k].fingerprint@, label);
    }
}

/// Whoever is selected: a peer without a key never uses the lanes, any key does where
/// every trusted device may, one key does where it is the selected one, and none does
/// where the selection names nobody.
pub proof fn law_selections_admit_keys(selection: ActivePeerSelection, peer: Seq<u8>)
    ensures
        !selection.admits(None),
        selection is AnyTrusted ==> selection.admits(Some(peer)),
        selection is Unresolved ==> !selection.admits(Some(peer)),
        selection matches ActivePeerSelection::Only(key) ==> selection.admits(Some(peer)) == (key@
            == peer),
{
}

/// A list of entries tells of exactly the keys that it holds, and of each what its
/// last entry says.
pub proof fn law_the_last_entry_of_a_key_counts(entries: Seq<TrustEntry>, key: Seq<u8>)
    ensures
        known_from(entries).contains_key(key) <==> exists|i: int|
            0 <= i < entries.len() && #[trigger] entries[i].public_key@ == key,
        forall|i: int|
            0 <= i < entries.len() && #[trigger] entries[i].public_key@ == key && (forall|j: int|
                i < j < entries.len() ==> #[trigger] entries[j].public_key@ != key) ==> known_from(
                entries,
            )[key] == (TrustFacts {
                display_name: entries[i].display_name@,
                fingerprint: entries[i].fingerprint@,
                paired_at: entries[i].paired_at,
            }),
    decreases entries.len(),
{
    if entries.len() > 0 {
        let front = entries.drop_last();
        let last = entries.len() - 1;
        law_the_last_entry_of_a_key_counts(front, key);
        if known_from(front).contains_key(key) {
            let i = choose|i: int| 0 <= i < front.len() && #[trigger] front[i].public_key@ == key;
            assert(entries[i].public_key@ == key);
        }
        if entries[last].public_key@ == key {
            assert(known_from(entries).contains_key(key));
        }
        assert forall|i: int| 0 <= i < entries.len() && #[trigger] entries[i].public_key@ == key && (
        forall|j: int| i < j < entries.len() ==> #[trigger] entries[j].public_key@ != key) implies known_from(
            entries,
        )[key] == (TrustFacts {
            display_name: entries[i].display_name@,
            fingerprint: entries[i].fingerprint@,
            paired_at: entries[i].paired_at,
        }) by {
            if i < last {
                assert(entries[last].public_key@ != key);
                assert(front[i].public_key@ == key);
                assert forall|j: int| i < j < front.len() implies #[trigger] front[j].public_key@ != key by {
                    assert(entries[j].public_key@ != key);
                }
            }
        }
        assert forall|i: int| 0 <= i < entries.len() && #[trigger] entries[i].public_key@ == key implies known_from(
            entries,
        ).contains_key(key) by {
            if i < last {
                assert(front[i].public_key@ == key);
            }
        }
    }
}

} // verus!
