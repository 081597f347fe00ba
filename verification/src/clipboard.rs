//! The clipboard: its history, and what peers may put into it.

use vstd::prelude::*;

use crate::ids::DeviceId;
use crate::lanes::MessageKind;
use crate::outside::json_string;
use crate::outside::json_string_of;
use crate::outside::uuid_text;
use crate::text::append;
use crate::text::bool_text;
use crate::text::bool_wording;
use crate::text::decimal;
use crate::text::decimal_text;
use crate::text::hex_padded;
use crate::text::hex_text;
use crate::text::hyphenated;
use crate::text::join;
use crate::text::joined;
use crate::text::plain_excerpt;
use crate::text::plain_excerpt_text;
use crate::text::texts;

verus! {

/// The most bytes that an archive may have.
pub const MAX_ARCHIVE_BYTES: usize = 134_217_728;

/// The clipboard settings that matter to the history.
#[derive(Clone, Copy, PartialEq, Eq, Structural, Debug)]
pub struct ClipboardConfig {
    pub sync_enabled: bool,
    pub history_enabled: bool,
    pub history_capacity: usize,
    pub history_max_entry_bytes: usize,
}

/// The limits of an archive.
#[derive(Clone, Copy, PartialEq, Eq, Structural, Debug)]
pub struct ClipboardHistoryArchiveConfig {
    pub capacity: usize,
    pub max_entry_bytes: usize,
    pub max_archive_bytes: usize,
}

/// What the entries and the archive's own bytes may come to.
pub open spec fn wanted_bytes(config: ClipboardConfig) -> int {
    config.history_capacity * (config.history_max_entry_bytes + 64) + 4
}

/// The limits that the settings give: room for every entry, up to a hard cap.
pub fn archive_config(config: &ClipboardConfig) -> (limits: ClipboardHistoryArchiveConfig)
    ensures
        limits.capacity == config.history_capacity,
        limits.max_entry_bytes == config.history_max_entry_bytes,
        limits.max_archive_bytes == (if wanted_bytes(*config) <= MAX_ARCHIVE_BYTES {
            wanted_bytes(*config)
        } else {
            MAX_ARCHIVE_BYTES as int
        }),
{
    let capacity: usize = config.history_capacity;
    let entry: usize = config.history_max_entry_bytes;
    let max_archive_bytes: usize = if capacity == 0 {
        4
    } else if capacity > MAX_ARCHIVE_BYTES || entry > MAX_ARCHIVE_BYTES {
        assert(capacity * (entry + 64) >= capacity && capacity * (entry + 64) >= entry)
            by (nonlinear_arith)
            requires
                capacity >= 1,
        ;
        MAX_ARCHIVE_BYTES
    } else {
        assert(capacity * (entry + 64) <= 134_217_728 * 134_217_792) by (nonlinear_arith)
            requires
                capacity <= 134_217_728,
                entry <= 134_217_728,
        ;
        let all: u64 = capacity as u64 * (entry as u64 + 64) + 4;
        if all <= MAX_ARCHIVE_BYTES as u64 {
            all as usize
        } else {
            MAX_ARCHIVE_BYTES
        }
    };
    ClipboardHistoryArchiveConfig {
        capacity: config.history_capacity,
        max_entry_bytes: config.history_max_entry_bytes,
        max_archive_bytes,
    }
}

/// Whether the clipboard is shared.
pub fn clipboard_runtime_enabled(sync_enabled: bool, can_access_clipboard: bool) -> (b: bool)
    ensures
        b == (sync_enabled && can_access_clipboard),
{
    sync_enabled && can_access_clipboard
}

/// An item of the history. `text` is its best text, if it has one.
#[derive(Debug)]
pub struct HistoryItem {
    pub fingerprint: u64,
    pub text: Option<String>,
    pub origin: DeviceId,
    pub at_millis: u64,
    pub pinned: bool,
    pub bytes: u64,
    pub formats: u64,
}

/// The first item with a fingerprint.
pub open spec fn first_item(items: Seq<HistoryItem>, fingerprint: u64, i: int) -> Option<int>
    decreases items.len() - i,
{
    if i >= items.len() {
        None
    } else if items[i].fingerprint == fingerprint {
        Some(i)
    } else {
        first_item(items, fingerprint, i + 1)
    }
}

fn find_item(items: &Vec<HistoryItem>, fingerprint: u64) -> (r: Option<usize>)
    ensures
        match r {
            Some(k) => first_item(items@, fingerprint, 0) == Some(k as int) && k < items@.len(),
            None => first_item(items@, fingerprint, 0) is None,
        },
{
    proof {
        law_the_first_item_of_a_fingerprint_is_found(items@, fingerprint);
    }
    let mut i: usize = 0;
    while i < items.len()
        invariant
            i <= items.len(),
            first_item(items@, fingerprint, 0) == first_item(items@, fingerprint, i as int),
        decreases items.len() - i,
    {
        if items[i].fingerprint == fingerprint {
            return Some(i);
        }
        i += 1;
    }
    None
}

/// Where an observed selection is recorded to come from. Seeing locally what a
/// peer has put there leaves it the peer's.
pub fn recorded_origin(
    items: &Vec<HistoryItem>,
    fingerprint: u64,
    observer: DeviceId,
    preserve_existing_origin: bool,
) -> (origin: DeviceId)
    ensures
        origin == (if preserve_existing_origin && first_item(items@, fingerprint, 0) is Some {
            items@[first_item(items@, fingerprint, 0)->Some_0].origin
        } else {
            observer
        }),
        preserve_existing_origin ==> forall|k: int|
            0 <= k < items@.len() && (#[trigger] items@[k]).fingerprint == fingerprint && (forall|
                i: int,
            |
                0 <= i < k ==> (#[trigger] items@[i]).fingerprint != fingerprint) ==> origin
                == items@[k].origin,
{
    proof {
        law_the_first_item_of_a_fingerprint_is_found(items@, fingerprint);
    }
    if preserve_existing_origin {
        match find_item(items, fingerprint) {
            Some(k) => items[k].origin,
            None => observer,
        }
    } else {
        observer
    }
}

/// What reading the clipboard brought.
#[derive(Clone, Copy, PartialEq, Eq, Structural, Debug)]
pub enum ClipboardRead {
    Content(u64),
    Empty,
    Failed,
}

/// What to do about it.
#[derive(Clone, Copy, PartialEq, Eq, Structural, Debug)]
pub enum HistoryPollStep {
    Nothing,
    /// Record the selection as one of this device.
    Record,
    /// Say that the clipboard cannot be read.
    Warn,
}

/// The last selection seen, and whether a failure was told.
#[derive(Clone, Copy, PartialEq, Eq, Structural, Debug)]
pub struct HistoryPoll {
    pub last_fingerprint: Option<u64>,
    pub error_reported: bool,
}

/// What a read does to the poll, and what there is to do about it.
pub open spec fn polled(poll: HistoryPoll, read: ClipboardRead) -> (HistoryPoll, HistoryPollStep) {
    match read {
        ClipboardRead::Content(fingerprint) => (
            HistoryPoll { last_fingerprint: Some(fingerprint), error_reported: false },
            if poll.last_fingerprint == Some(fingerprint) {
                HistoryPollStep::Nothing
            } else {
                HistoryPollStep::Record
            },
        ),
        ClipboardRead::Empty => (
            HistoryPoll { last_fingerprint: None, error_reported: false },
            HistoryPollStep::Nothing,
        ),
        ClipboardRead::Failed => (
            HistoryPoll { last_fingerprint: poll.last_fingerprint, error_reported: true },
            if poll.error_reported {
                HistoryPollStep::Nothing
            } else {
                HistoryPollStep::Warn
            },
        ),
    }
}

/// Reading the same thing again has no further effect.
pub proof fn law_a_repeated_read_does_nothing(poll: HistoryPoll, read: ClipboardRead)
    ensures
        polled(polled(poll, read).0, read) == (polled(poll, read).0, HistoryPollStep::Nothing),
{
}

/// A failed read does not make an unchanged selection look new.
pub proof fn law_failures_do_not_repeat_a_selection(poll: HistoryPoll, fingerprint: u64)
    requires
        poll.last_fingerprint == Some(fingerprint),
    ensures
        polled(
            polled(poll, ClipboardRead::Failed).0,
            ClipboardRead::Content(fingerprint),
        ).1 == HistoryPollStep::Nothing,
{
}

impl HistoryPoll {
    /// Nothing has been seen.
    pub fn new() -> (poll: Self)
        ensures
            poll.last_fingerprint is None,
            !poll.error_reported,
    {
        HistoryPoll { last_fingerprint: None, error_reported: false }
    }

    /// Takes a read's outcome: each change is recorded once, and of a row of
    /// failures the first is told.
    pub fn on_read(&mut self, read: ClipboardRead) -> (step: HistoryPollStep)
        ensures
            (*final(self), step) == polled(*old(self), read),
    {
        match read {
            ClipboardRead::Content(fingerprint) => {
                self.error_reported = false;
                let changed: bool = match self.last_fingerprint {
                    Some(last) => last != fingerprint,
                    None => true,
                };
                self.last_fingerprint = Some(fingerprint);
                if changed {
                    HistoryPollStep::Record
                } else {
                    HistoryPollStep::Nothing
                }
            },
            ClipboardRead::Empty => {
                self.error_reported = false;
                self.last_fingerprint = None;
                HistoryPollStep::Nothing
            },
            ClipboardRead::Failed => {
                if self.error_reported {
                    HistoryPollStep::Nothing
                } else {
                    self.error_reported = true;
                    HistoryPollStep::Warn
                }
            },
        }
    }
}

/// Why a clipboard session ends.
#[derive(Clone, Copy, PartialEq, Eq, Structural, Debug)]
pub enum ClipboardSessionError {
    UnexpectedKind(MessageKind),
    OriginMismatch { expected: DeviceId, actual: DeviceId },
    InvalidUpdate,
    Network,
}

/// What comes after the local clipboard was read for a peer.
#[derive(Clone, Copy, PartialEq, Eq, Structural, Debug)]
pub enum AfterPoll {
    /// Nothing: the clipboard is empty.
    Nothing,
    /// Say that the clipboard could not be read, and go on with the session.
    Warn,
    /// Ask the resolver whether the content is news for the peer.
    Prepare,
}

/// What comes after the local clipboard was read for a peer. A clipboard that
/// cannot be read does not end the session.
pub fn after_poll(read: ClipboardRead) -> (step: AfterPoll)
    ensures
        step == (match read {
            ClipboardRead::Content(_) => AfterPoll::Prepare,
            ClipboardRead::Empty => AfterPoll::Nothing,
            ClipboardRead::Failed => AfterPoll::Warn,
        }),
{
    match read {
        ClipboardRead::Content(_) => AfterPoll::Prepare,
        ClipboardRead::Empty => AfterPoll::Nothing,
        ClipboardRead::Failed => AfterPoll::Warn,
    }
}

/// How a poll ends: `prepared` is whether the resolver made an update of the
/// content, and `sent` whether the update reached the connection. An update that
/// could not be made or sent ends the session; one that is not due is not sent.
pub fn poll_end(prepared: Result<bool, ()>, sent: bool) -> (r: Result<bool, ClipboardSessionError>)
    ensures
        r == (match prepared {
            Err(_) => Err::<bool, ClipboardSessionError>(ClipboardSessionError::InvalidUpdate),
            Ok(false) => Ok::<bool, ClipboardSessionError>(false),
            Ok(true) => if sent {
                Ok::<bool, ClipboardSessionError>(true)
            } else {
                Err::<bool, ClipboardSessionError>(ClipboardSessionError::Network)
            },
        }),
{
    match prepared {
        Err(_) => Err(ClipboardSessionError::InvalidUpdate),
        Ok(due) => if !due {
            Ok(false)
        } else if sent {
            Ok(true)
        } else {
            Err(ClipboardSessionError::Network)
        },
    }
}

/// Checks a received envelope. `origin` is what its body names as the origin, if
/// it decodes. Only an update that names the authenticated peer passes.
pub fn check_update(
    kind: MessageKind,
    origin: Option<DeviceId>,
    authenticated_peer: DeviceId,
) -> (r: Result<(), ClipboardSessionError>)
    ensures
        r == (if kind != MessageKind::Clipboard {
            Err::<(), ClipboardSessionError>(ClipboardSessionError::UnexpectedKind(kind))
        } else {
            match origin {
                None => Err::<(), ClipboardSessionError>(ClipboardSessionError::InvalidUpdate),
                Some(actual) => if actual == authenticated_peer {
                    Ok::<(), ClipboardSessionError>(())
                } else {
                    Err::<(), ClipboardSessionError>(
                        ClipboardSessionError::OriginMismatch {
                            expected: authenticated_peer,
                            actual,
                        },
                    )
                },
            }
        }),
{
    if kind != MessageKind::Clipboard {
        return Err(ClipboardSessionError::UnexpectedKind(kind));
    }
    match origin {
        None => Err(ClipboardSessionError::InvalidUpdate),
        Some(actual) => if actual == authenticated_peer {
            Ok(())
        } else {
            Err(ClipboardSessionError::OriginMismatch { expected: authenticated_peer, actual })
        },
    }
}

/// What comes after the resolver and the clipboard were asked: `accepted` is
/// whether the resolver took the update, `written` whether the clipboard did.
#[derive(Clone, Copy, PartialEq, Eq, Structural, Debug)]
pub enum AfterUpdate {
    /// Nothing: the update was not news.
    Ignore,
    /// Write it to the clipboard.
    Write,
    /// Say that the clipboard could not be written, and record nothing.
    Warn,
    /// Record it in the history.
    Record,
    /// Done: there is no history.
    Done,
}

/// What comes after the resolver was asked.
pub fn after_resolver(accepted: Result<bool, ()>) -> (r: Result<AfterUpdate, ClipboardSessionError>)
    ensures
        r == (match accepted {
            Ok(true) => Ok::<AfterUpdate, ClipboardSessionError>(AfterUpdate::Write),
            Ok(false) => Ok::<AfterUpdate, ClipboardSessionError>(AfterUpdate::Ignore),
            Err(_) => Err::<AfterUpdate, ClipboardSessionError>(
                ClipboardSessionError::InvalidUpdate,
            ),
        }),
{
    match accepted {
        Ok(news) => Ok(
            if news {
                AfterUpdate::Write
            } else {
                AfterUpdate::Ignore
            },
        ),
        Err(_) => Err(ClipboardSessionError::InvalidUpdate),
    }
}

/// What comes after the clipboard was written.
pub fn after_write(written: bool, history: bool) -> (step: AfterUpdate)
    ensures
        step == (if !written {
            AfterUpdate::Warn
        } else if history {
            AfterUpdate::Record
        } else {
            AfterUpdate::Done
        }),
{
    if !written {
        AfterUpdate::Warn
    } else if history {
        AfterUpdate::Record
    } else {
        AfterUpdate::Done
    }
}

/// How a session ends when receiving fails: a closed connection is no failure.
pub fn receive_failed(closed: bool) -> (r: Result<(), ClipboardSessionError>)
    ensures
        r == (if closed {
            Ok::<(), ClipboardSessionError>(())
        } else {
            Err::<(), ClipboardSessionError>(ClipboardSessionError::Network)
        }),
{
    if closed {
        Ok(())
    } else {
        Err(ClipboardSessionError::Network)
    }
}

/// The text that a preview is made of.
pub open spec fn previewed(text: Option<String>) -> Seq<char> {
    match text {
        Some(t) => t@,
        None => "[non-text clipboard item]"@,
    }
}

/// A preview: an excerpt without control characters.
pub fn clipboard_preview(text: &Option<String>, max_chars: usize) -> (preview: String)
    ensures
        preview@ == plain_excerpt(previewed(*text), max_chars as int),
{
    match text {
        Some(t) => plain_excerpt_text(t, max_chars),
        None => plain_excerpt_text("[non-text clipboard item]", max_chars),
    }
}

/// An item in JSON, its members in the order of their names.
pub open spec fn item_json(item: HistoryItem) -> Seq<char> {
    "{\"at_millis\":"@ + decimal(item.at_millis as nat) + ",\"bytes\":"@ + decimal(item.bytes as nat)
        + ",\"fingerprint\":"@ + json_string_of(hex_padded(item.fingerprint as int, 16))
        + ",\"formats\":"@ + decimal(item.formats as nat) + ",\"origin\":"@ + json_string_of(
        hyphenated(item.origin.0),
    ) + ",\"pinned\":"@ + bool_wording(item.pinned) + ",\"preview\":"@ + json_string_of(
        plain_excerpt(previewed(item.text), 240),
    ) + "}"@
}

fn item_json_text(item: &HistoryItem) -> (j: String)
    ensures
        j@ == item_json(*item),
{
    let mut j = "{\"at_millis\":".to_owned();
    append(&mut j, &decimal_text(item.at_millis));
    append(&mut j, ",\"bytes\":");
    append(&mut j, &decimal_text(item.bytes));
    append(&mut j, ",\"fingerprint\":");
    append(&mut j, &json_string(&hex_text(item.fingerprint, 16)));
    append(&mut j, ",\"formats\":");
    append(&mut j, &decimal_text(item.formats));
    append(&mut j, ",\"origin\":");
    append(&mut j, &json_string(&uuid_text(item.origin.0)));
    append(&mut j, ",\"pinned\":");
    append(&mut j, bool_text(item.pinned));
    append(&mut j, ",\"preview\":");
    append(&mut j, &json_string(&clipboard_preview(&item.text, 240)));
    append(&mut j, "}");
    j
}

/// The items in JSON.
pub open spec fn items_json(items: Seq<HistoryItem>) -> Seq<char> {
    "["@ + joined(items.map_values(|i: HistoryItem| item_json(i)), ","@) + "]"@
}

fn items_json_text(items: &Vec<HistoryItem>) -> (j: String)
    ensures
        j@ == items_json(items@),
{
    let mut parts: Vec<String> = Vec::new();
    let mut i: usize = 0;
    while i < items.len()
        invariant
            i <= items.len(),
            parts.len() == i,
            forall|k: int| 0 <= k < i ==> #[trigger] parts@[k]@ == item_json(items@[k]),
        decreases items.len() - i,
    {
        parts.push(item_json_text(&items[i]));
        i += 1;
    }
    assert(texts(parts@) =~= items@.map_values(|i: HistoryItem| item_json(i)));
    let mut j = "[".to_owned();
    append(&mut j, &join(&parts, ","));
    append(&mut j, "]");
    j
}

/// The line of an item.
pub open spec fn item_line(item: HistoryItem) -> Seq<char> {
    hex_padded(item.fingerprint as int, 16) + "  "@ + plain_excerpt(previewed(item.text), 80)
        + "  "@ + decimal(item.bytes as nat) + " bytes  origin="@ + hyphenated(item.origin.0)
        + "  at="@ + decimal(item.at_millis as nat)
}

fn item_line_text(item: &HistoryItem) -> (t: String)
    ensures
        t@ == item_line(*item),
{
    let mut t = hex_text(item.fingerprint, 16);
    append(&mut t, "  ");
    append(&mut t, &clipboard_preview(&item.text, 80));
    append(&mut t, "  ");
    append(&mut t, &decimal_text(item.bytes));
    append(&mut t, " bytes  origin=");
    append(&mut t, &uuid_text(item.origin.0));
    append(&mut t, "  at=");
    append(&mut t, &decimal_text(item.at_millis));
    t
}

/// The listing of the history, line by line. `items` is absent where there is no
/// archive.
pub open spec fn history_listing(
    json: bool,
    enabled: bool,
    items: Option<Seq<HistoryItem>>,
) -> Seq<Seq<char>> {
    if json {
        if enabled && items is Some {
            seq![items_json(items->Some_0)]
        } else {
            seq!["[]"@]
        }
    } else if !enabled {
        seq!["clipboard history is disabled"@]
    } else if items is None || items->Some_0.len() == 0 {
        seq!["clipboard history is empty"@]
    } else {
        items->Some_0.map_values(|i: HistoryItem| item_line(i))
    }
}

/// Lists the history.
pub fn clipboard_history_list(json: bool, enabled: bool, items: Option<&Vec<HistoryItem>>) -> (lines:
    Vec<String>)
    ensures
        texts(lines@) == history_listing(
            json,
            enabled,
            match items {
                Some(v) => Some(v@),
                None => None,
            },
        ),
{
    let mut lines: Vec<String> = Vec::new();
    match items {
        Some(v) if enabled => {
            if json {
                lines.push(items_json_text(v));
                assert(texts(lines@) =~= seq![items_json(v@)]);
                return lines;
            }
            let mut i: usize = 0;
            while i < v.len()
                invariant
                    i <= v.len(),
                    lines.len() == i,
                    forall|k: int| 0 <= k < i ==> #[trigger] lines@[k]@ == item_line(v@[k]),
                decreases v.len() - i,
            {
                lines.push(item_line_text(&v[i]));
                i += 1;
            }
            if v.len() == 0 {
                lines.push("clipboard history is empty".to_owned());
                assert(texts(lines@) =~= seq!["clipboard history is empty"@]);
            } else {
                assert(texts(lines@) =~= v@.map_values(|i: HistoryItem| item_line(i)));
            }
        },
        _ => {
            if json {
                lines.push("[]".to_owned());
                assert(texts(lines@) =~= seq!["[]"@]);
            } else if !enabled {
                lines.push("clipboard history is disabled".to_owned());
                assert(texts(lines@) =~= seq!["clipboard history is disabled"@]);
            } else {
                lines.push("clipboard history is empty".to_owned());
                assert(texts(lines@) =~= seq!["clipboard history is empty"@]);
            }
        },
    }
    lines
}

/// Why an item cannot be restored, or the history not be cleared.
#[derive(Clone, Copy, PartialEq, Eq, Structural, Debug)]
pub enum HistoryError {
    Disabled,
    Empty,
    NotFound,
}

impl HistoryError {
    /// The wording of the failure.
    pub fn message(self) -> (m: &'static str)
        ensures
            m@ == (match self {
                HistoryError::Disabled => "clipboard history is disabled"@,
                HistoryError::Empty => "clipboard history is empty"@,
                HistoryError::NotFound => "clipboard history entry was not found"@,
            }),
    {
        match self {
            HistoryError::Disabled => "clipboard history is disabled",
            HistoryError::Empty => "clipboard history is empty",
            HistoryError::NotFound => "clipboard history entry was not found",
        }
    }
}

/// Finds the item to restore.
pub fn clipboard_history_restore(
    enabled: bool,
    items: Option<&Vec<HistoryItem>>,
    fingerprint: u64,
) -> (r: Result<usize, HistoryError>)
    ensures
        match r {
            Ok(k) => enabled && items is Some && first_item(items->Some_0@, fingerprint, 0) == Some(
                k as int,
            ),
            Err(HistoryError::Disabled) => !enabled,
            Err(HistoryError::Empty) => enabled && items is None,
            Err(HistoryError::NotFound) => enabled && items is Some && first_item(
                items->Some_0@,
                fingerprint,
                0,
            ) is None,
        },
        match r {
            Ok(k) => {
                &&& k < items->Some_0@.len()
                &&& items->Some_0@[k as int].fingerprint == fingerprint
                &&& forall|i: int|
                    0 <= i < k ==> (#[trigger] items->Some_0@[i]).fingerprint != fingerprint
            },
            Err(HistoryError::NotFound) => forall|i: int|
                0 <= i < items->Some_0@.len() ==> (#[trigger] items->Some_0@[i]).fingerprint
                    != fingerprint,
            _ => true,
        },
{
    proof {
        if items is Some {
            law_the_first_item_of_a_fingerprint_is_found(items->Some_0@, fingerprint);
        }
    }
    if !enabled {
        return Err(HistoryError::Disabled);
    }
    match items {
        None => Err(HistoryError::Empty),
        Some(v) => match find_item(v, fingerprint) {
            Some(k) => Ok(k),
            None => Err(HistoryError::NotFound),
        },
    }
}

/// Whether clearing the history has anything to do.
pub fn clipboard_history_clear(enabled: bool, archive_exists: bool) -> (r: Result<
    bool,
    HistoryError,
>)
    ensures
        r == (if enabled {
            Ok::<bool, HistoryError>(archive_exists)
        } else {
            Err::<bool, HistoryError>(HistoryError::Disabled)
        }),
{
    if enabled {
        Ok(archive_exists)
    } else {
        Err(HistoryError::Disabled)
    }
}

proof fn lemma_first_item(items: Seq<HistoryItem>, fingerprint: u64, from: int)
    requires
        0 <= from <= items.len(),
    ensures
        match first_item(items, fingerprint, from) {
            Some(k) => from <= k < items.len() && items[k].fingerprint == fingerprint && forall|i: int|
                from <= i < k ==> (#[trigger] items[i]).fingerprint != fingerprint,
            None => forall|i: int|
                from <= i < items.len() ==> (#[trigger] items[i]).fingerprint != fingerprint,
        },
    decreases items.len() - from,
{
    if from < items.len() && items[from].fingerprint != fingerprint {
        lemma_first_item(items, fingerprint, from + 1);
    }
}

/// An item is found by its fingerprint alone: whenever some item has it, the first
/// such item is found, and nothing is found only where no item has it.
pub proof fn law_the_first_item_of_a_fingerprint_is_found(items: Seq<HistoryItem>, fingerprint: u64)
    ensures
        match first_item(items, fingerprint, 0) {
            Some(k) => {
                &&& 0 <= k < items.len()
                &&& items[k].fingerprint == fingerprint
                &&& forall|i: int| 0 <= i < k ==> (#[trigger] items[i]).fingerprint != fingerprint
            },
            None => forall|i: int|
                0 <= i < items.len() ==> (#[trigger] items[i]).fingerprint != fingerprint,
        },
        forall|k: int|
            0 <= k < items.len() && (#[trigger] items[k]).fingerprint == fingerprint && (forall|
                i: int,
            |
                0 <= i < k ==> (#[trigger] items[i]).fingerprint != fingerprint) ==> first_item(
                items,
                fingerprint,
                0,
            ) == Some(k),
{
    lemma_first_item(items, fingerprint, 0);
}

/// What is seen is recorded exactly where it is not what was seen last, whatever the
/// failures between, and is then what was seen last.
pub proof fn law_each_change_is_recorded_once(poll: HistoryPoll, read: ClipboardRead)
    ensures
        match read {
            ClipboardRead::Content(fingerprint) => {
                &&& polled(poll, read).1 == HistoryPollStep::Record <==> poll.last_fingerprint
                    != Some(fingerprint)
                &&& polled(poll, read).1 != HistoryPollStep::Warn
                &&& polled(poll, read).0.last_fingerprint == Some(fingerprint)
                &&& !polled(poll, read).0.error_reported
            },
            ClipboardRead::Empty => {
                &&& polled(poll, read).1 == HistoryPollStep::Nothing
                &&& polled(poll, read).0.last_fingerprint is None
                &&& !polled(poll, read).0.error_reported
            },
            ClipboardRead::Failed => {
                &&& polled(poll, read).1 == HistoryPollStep::Warn <==> !poll.error_reported
                &&& polled(poll, read).1 != HistoryPollStep::Record
                &&& polled(poll, read).0.last_fingerprint == poll.last_fingerprint
                &&& polled(poll, read).0.error_reported
            },
        },
{
}

/// An archive has room for each of its entries at its largest with 64 bytes beside
/// it, and for four bytes of its own.
pub proof fn law_archives_have_room_for_every_entry(config: ClipboardConfig, more: ClipboardConfig)
    requires
        more.history_capacity == config.history_capacity + 1,
        more.history_max_entry_bytes == config.history_max_entry_bytes,
    ensures
        wanted_bytes(more) == wanted_bytes(config) + config.history_max_entry_bytes + 64,
        config.history_capacity == 0 ==> wanted_bytes(config) == 4,
{
    assert((config.history_capacity + 1) * (config.history_max_entry_bytes + 64)
        == config.history_capacity * (config.history_max_entry_bytes + 64) + (
    config.history_max_entry_bytes + 64)) by (nonlinear_arith);
}

/// An enabled history that has items is listed line by line, one line for each item in
/// their order, which begins with the item's fingerprint; and in JSON with all items.
pub proof fn law_every_item_is_listed(items: Seq<HistoryItem>, k: int)
    requires
        0 <= k < items.len(),
    ensures
        history_listing(false, true, Some(items)).len() == items.len(),
        history_listing(false, true, Some(items))[k].take(16) == hex_padded(
            items[k].fingerprint as int,
            16,
        ),
        history_listing(false, true, Some(items))[k] == history_listing(
            false,
            true,
            Some(seq![items[k]]),
        )[0],
        history_listing(true, true, Some(items)).len() == 1,
        history_listing(true, false, Some(items)) == history_listing(true, true, None),
{
    lemma_padded_length(items[k].fingerprint as int, 16);
    assert(item_line(items[k]).take(16) =~= hex_padded(items[k].fingerprint as int, 16));
}

proof fn lemma_padded_length(n: int, width: nat)
    ensures
        hex_padded(n, width).len() == width,
    decreases width,
{
    if width > 0 {
        lemma_padded_length(n / 16, (width - 1) as nat);
    }
}

/// The items in JSON follow each other, and what stands for one item depends on that
/// item alone.
pub proof fn law_json_lists_every_item(items: Seq<HistoryItem>, item: HistoryItem)
    ensures
        ({
            let whole = items_json(items.push(item));
            let front = items_json(items);
            let alone = items_json(seq![item]);
            items.len() > 0 ==> whole == front.drop_last() + ","@ + alone.skip(1)
        }),
{
    reveal_strlit("[");
    reveal_strlit("]");
    if items.len() > 0 {
        let each = |i: HistoryItem| item_json(i);
        let parts = items.push(item).map_values(each);
        assert(parts.drop_last() =~= items.map_values(each));
        assert(parts.last() == item_json(item));
        assert(seq![item].map_values(each) =~= seq![item_json(item)]);
        assert(joined(seq![item_json(item)], ","@) == item_json(item));
        let whole = items_json(items.push(item));
        let front = items_json(items);
        let alone = items_json(seq![item]);
        assert(whole =~= front.drop_last() + ","@ + alone.skip(1));
    }
}

/// An item without text is shown as such, and one with text by that text.
pub proof fn law_previews_show_the_text(text: String)
    ensures
        previewed(Some(text)) == text@,
        previewed(None) == "[non-text clipboard item]"@,
{
}

/// A listing says so where the history is off or has nothing; in JSON both are an empty
/// list.
pub proof fn law_empty_histories_are_said_to_be_empty(items: Option<Seq<HistoryItem>>)
    ensures
        history_listing(false, false, items) == seq!["clipboard history is disabled"@],
        history_listing(false, true, None) == seq!["clipboard history is empty"@],
        history_listing(false, true, Some(Seq::empty())) == seq!["clipboard history is empty"@],
        history_listing(true, false, items) == seq!["[]"@],
        history_listing(true, true, None) == seq!["[]"@],
{
}

/// An item is listed with its fingerprint, the beginning of its text, its size, where it
/// came from and when.
pub proof fn law_items_are_listed_with_their_facts(item: HistoryItem)
    ensures
        history_listing(false, true, Some(seq![item])) == seq![
            hex_padded(item.fingerprint as int, 16) + "  "@ + plain_excerpt(
                previewed(item.text),
                80,
            ) + "  "@ + decimal(item.bytes as nat) + " bytes  origin="@ + hyphenated(item.origin.0)
                + "  at="@ + decimal(item.at_millis as nat),
        ],
        items_json(seq![item]) == "["@ + ("{\"at_millis\":"@ + decimal(item.at_millis as nat)
            + ",\"bytes\":"@ + decimal(item.bytes as nat) + ",\"fingerprint\":"@ + json_string_of(
            hex_padded(item.fingerprint as int, 16),
        ) + ",\"formats\":"@ + decimal(item.formats as nat) + ",\"origin\":"@ + json_string_of(
            hyphenated(item.origin.0),
        ) + ",\"pinned\":"@ + bool_wording(item.pinned) + ",\"preview\":"@ + json_string_of(
            plain_excerpt(previewed(item.text), 240),
        ) + "}"@) + "]"@,
{
    let one = seq![item];
    assert(history_listing(false, true, Some(one)) =~= seq![item_line(item)]);
    assert(one.map_values(|i: HistoryItem| item_json(i)) =~= seq![item_json(item)]);
}

} // verus!
