//! Pairing with a peer: the confirmation, what is persisted, and how it is
//! undone.

use vstd::prelude::*;

use crate::outside::fill_random;
use crate::text::ascii_lowercase;
use crate::text::ascii_lowered;
use crate::text::equal_up_to_ascii_case;
use crate::text::law_lowered_texts_agree_up_to_case;
use crate::text::join;
use crate::text::joined;
use crate::text::same_text;
use crate::text::texts;
use crate::text::trim;
use crate::text::trimmed;
use crate::trust::TrustBook;
use crate::trust::TrustEntry;
use crate::trust::TrustFacts;

verus! {

/// Whether an answer is an explicit yes.
pub open spec fn affirms(answer: Seq<char>) -> bool {
    ascii_lowered(trimmed(answer)) == "y"@ || ascii_lowered(trimmed(answer)) == "yes"@
}

/// Whether an answer is an explicit yes.
pub fn answer_is_yes(answer: &str) -> (b: bool)
    ensures
        b == affirms(answer@),
{
    let word = ascii_lowercase(&trim(answer));
    same_text(&word, "y") || same_text(&word, "yes")
}

/// What the two sides' answers lead to.
#[derive(Clone, Copy, PartialEq, Eq, Structural, Debug)]
pub enum Approval {
    Proceed,
    CancelledLocally,
    RejectedByPeer,
}

/// Pairing goes on only if both sides accepted.
pub fn approval(locally_accepted: bool, peer_accepted: bool) -> (a: Approval)
    ensures
        a == (if !locally_accepted {
            Approval::CancelledLocally
        } else if !peer_accepted {
            Approval::RejectedByPeer
        } else {
            Approval::Proceed
        }),
{
    if !locally_accepted {
        Approval::CancelledLocally
    } else if !peer_accepted {
        Approval::RejectedByPeer
    } else {
        Approval::Proceed
    }
}

/// What the peer told about its own persistence.
#[derive(Clone, Copy, PartialEq, Eq, Structural, Debug)]
pub enum PeerPersistence {
    Persisted,
    NotPersisted,
    Unconfirmed,
}

/// How a pairing ends.
#[derive(Clone, Copy, PartialEq, Eq, Structural, Debug)]
pub enum PairingEnd {
    /// Both sides persisted it.
    Complete,
    /// Nothing was persisted here.
    Failed,
    /// What was persisted here is undone, because the peer could not persist it.
    UndoPeerFailed,
    /// What was persisted here is undone, because the peer did not confirm.
    UndoUnconfirmed,
}

/// A pairing stands only where both sides persisted it; otherwise nothing is
/// kept here.
pub fn pairing_end(local_persisted: bool, peer: PeerPersistence) -> (end: PairingEnd)
    ensures
        end == (if !local_persisted {
            PairingEnd::Failed
        } else {
            match peer {
                PeerPersistence::Persisted => PairingEnd::Complete,
                PeerPersistence::NotPersisted => PairingEnd::UndoPeerFailed,
                PeerPersistence::Unconfirmed => PairingEnd::UndoUnconfirmed,
            }
        }),
{
    if !local_persisted {
        return PairingEnd::Failed;
    }
    match peer {
        PeerPersistence::Persisted => PairingEnd::Complete,
        PeerPersistence::NotPersisted => PairingEnd::UndoPeerFailed,
        PeerPersistence::Unconfirmed => PairingEnd::UndoUnconfirmed,
    }
}

/// The settings that pairing changes.
#[derive(Debug)]
pub struct PairingSettings {
    pub connect_addr: Option<String>,
    pub active_peer: Option<String>,
}

/// The characters of an optional setting.
pub open spec fn setting(value: Option<String>) -> Option<Seq<char>> {
    match value {
        Some(s) => Some(s@),
        None => None,
    }
}

fn copy_setting(value: &Option<String>) -> (copy: Option<String>)
    ensures
        setting(copy) == setting(*value),
{
    match value {
        Some(s) => Some(s.clone()),
        None => None,
    }
}

/// What was in place before a pairing was applied.
#[derive(Debug)]
pub struct AppliedPairingSettings {
    pub key: Vec<u8>,
    pub previous_trust: Option<TrustEntry>,
    pub previous_connect_addr: Option<String>,
    pub previous_active_peer: Option<String>,
}

impl AppliedPairingSettings {
    /// Whether this is what was in place.
    pub open spec fn remembers(
        self,
        book: Map<Seq<u8>, TrustFacts>,
        connect_addr: Option<Seq<char>>,
        active_peer: Option<Seq<char>>,
    ) -> bool {
        &&& setting(self.previous_connect_addr) == connect_addr
        &&& setting(self.previous_active_peer) == active_peer
        &&& match self.previous_trust {
            Some(entry) => entry.public_key@ == self.key@ && book.contains_key(self.key@)
                && book[self.key@] == entry.facts(),
            None => !book.contains_key(self.key@),
        }
    }

    /// Undoes the pairing: the peer is trusted as before, and the settings are
    /// what they were.
    pub fn rollback(self, book: &mut TrustBook, settings: &mut PairingSettings)
        requires
            old(book).valid(),
            self.previous_trust matches Some(entry) ==> entry.public_key@ == self.key@,
        ensures
            final(book).valid(),
            final(book)@ == (match self.previous_trust {
                Some(entry) => old(book)@.insert(self.key@, entry.facts()),
                None => old(book)@.remove(self.key@),
            }),
            setting(final(settings).connect_addr) == setting(self.previous_connect_addr),
            setting(final(settings).active_peer) == setting(self.previous_active_peer),
    {
        book.restore(&self.key, self.previous_trust);
        settings.connect_addr = self.previous_connect_addr;
        settings.active_peer = self.previous_active_peer;
    }
}

/// Applies a confirmed pairing: the peer is trusted, dialled at its endpoint and
/// selected. Gives what is needed to undo it.
pub fn apply_pairing_settings(
    book: &mut TrustBook,
    settings: &mut PairingSettings,
    entry: TrustEntry,
    peer_endpoint: &str,
) -> (applied: AppliedPairingSettings)
    requires
        old(book).valid(),
    ensures
        final(book).valid(),
        final(book)@ == old(book)@.insert(entry.public_key@, entry.facts()),
        setting(final(settings).connect_addr) == Some(peer_endpoint@),
        setting(final(settings).active_peer) == Some(entry.fingerprint@),
        applied.key@ == entry.public_key@,
        applied.remembers(
            old(book)@,
            setting(old(settings).connect_addr),
            setting(old(settings).active_peer),
        ),
{
    let mut key: Vec<u8> = Vec::new();
    crate::ids::append_bytes(&mut key, entry.public_key.as_slice());
    assert(key@ =~= entry.public_key@);
    let applied = AppliedPairingSettings {
        previous_trust: book.get(&key),
        key,
        previous_connect_addr: copy_setting(&settings.connect_addr),
        previous_active_peer: copy_setting(&settings.active_peer),
    };
    settings.connect_addr = Some(peer_endpoint.to_owned());
    settings.active_peer = Some(entry.fingerprint.clone());
    book.insert(entry);
    applied
}

/// Undoing an applied pairing restores the trusted devices exactly.
pub proof fn law_rollback_undoes_a_pairing(
    before: Map<Seq<u8>, TrustFacts>,
    key: Seq<u8>,
    facts: TrustFacts,
    connect_addr: Option<Seq<char>>,
    active_peer: Option<Seq<char>>,
    applied: AppliedPairingSettings,
)
    requires
        applied.key@ == key,
        applied.remembers(before, connect_addr, active_peer),
    ensures
        (match applied.previous_trust {
            Some(entry) => before.insert(key, facts).insert(key, entry.facts()),
            None => before.insert(key, facts).remove(key),
        }) == before,
        setting(applied.previous_connect_addr) == connect_addr,
        setting(applied.previous_active_peer) == active_peer,
{
    match applied.previous_trust {
        Some(entry) => {
            assert(before.insert(key, facts).insert(key, entry.facts()) =~= before);
        },
        None => {
            assert(before.insert(key, facts).remove(key) =~= before);
        },
    }
}

/// The failures of undoing a pairing, told together.
pub fn rollback_result(failures: &Vec<String>) -> (r: Result<(), String>)
    ensures
        match r {
            Ok(_) => failures@.len() == 0,
            Err(text) => failures@.len() > 0 && text@ == joined(texts(failures@), "; "@),
        },
{
    if failures.len() == 0 {
        Ok(())
    } else {
        Err(join(failures, "; "))
    }
}

/// A request to pair while the responder can hold one: it is queued, another is
/// active, or the responder has stopped.
#[derive(Clone, Copy, PartialEq, Eq, Structural, Debug)]
pub enum PairingRequest {
    Queued,
    AnotherActive,
    ResponderStopped,
}

/// Takes a request to pair.
pub fn queue_pairing_request(responder_running: bool, pending: usize) -> (r: PairingRequest)
    ensures
        r == (if !responder_running {
            PairingRequest::ResponderStopped
        } else if pending >= 1 {
            PairingRequest::AnotherActive
        } else {
            PairingRequest::Queued
        }),
{
    if !responder_running {
        PairingRequest::ResponderStopped
    } else if pending >= 1 {
        PairingRequest::AnotherActive
    } else {
        PairingRequest::Queued
    }
}

/// The nonce that a draw gives: what was drawn, whole, where the system filled
/// the buffer, and none where it did not.
pub fn drawn_nonce(filled: bool, drawn: Vec<u8>) -> (nonce: Result<Vec<u8>, ()>)
    ensures
        match nonce {
            Ok(bytes) => filled && bytes@ == drawn@,
            Err(_) => !filled,
        },
{
    if filled {
        Ok(drawn)
    } else {
        Err(())
    }
}

/// A fresh pairing nonce of the given length. Which one it is is chance; there is
/// none where the system has no randomness to give, which an empty nonce does not
/// ask of it.
pub fn fresh_pairing_nonce(len: usize) -> (nonce: Result<Vec<u8>, ()>)
    ensures
        nonce matches Ok(bytes) ==> bytes@.len() == len,
        len == 0 ==> nonce is Ok,
{
    let mut nonce: Vec<u8> = vec![0u8; len];
    let filled: bool = fill_random(&mut nonce);
    drawn_nonce(filled, nonce)
}

/// An answer is a yes exactly where it is `y` or `yes`, in either case and with any
/// white space around it.
pub proof fn law_only_yes_is_a_yes(answer: Seq<char>)
    ensures
        affirms(answer) <==> equal_up_to_ascii_case(trimmed(answer), "y"@)
            || equal_up_to_ascii_case(trimmed(answer), "yes"@),
{
    reveal_strlit("y");
    reveal_strlit("yes");
    law_lowered_texts_agree_up_to_case(trimmed(answer), "y"@);
    law_lowered_texts_agree_up_to_case(trimmed(answer), "yes"@);
    assert(ascii_lowered("y"@) =~= "y"@);
    assert(ascii_lowered("yes"@) =~= "yes"@);
}

/// What is remembered of a key is everything that was known of it, or that nothing
/// was, and the two settings as they were.
pub proof fn law_what_was_in_place_is_remembered(
    applied: AppliedPairingSettings,
    book: Map<Seq<u8>, TrustFacts>,
    connect_addr: Option<Seq<char>>,
    active_peer: Option<Seq<char>>,
)
    requires
        applied.remembers(book, connect_addr, active_peer),
    ensures
        applied.previous_trust is Some <==> book.contains_key(applied.key@),
        applied.previous_trust matches Some(entry) ==> entry.public_key@ == applied.key@
            && book[applied.key@] == (TrustFacts {
            display_name: entry.display_name@,
            fingerprint: entry.fingerprint@,
            paired_at: entry.paired_at,
        }),
        applied.previous_connect_addr is Some <==> connect_addr is Some,
        applied.previous_connect_addr matches Some(text) ==> connect_addr == Some(text@),
        applied.previous_active_peer is Some <==> active_peer is Some,
        applied.previous_active_peer matches Some(text) ==> active_peer == Some(text@),
{
}

} // verus!
