//! The control panel's sharing page: its settings, the clipboard history that it
//! shows, and the files dropped onto it.

use vstd::prelude::*;

use crate::fingerprint::hex_value;
use crate::fingerprint::normalize_fingerprint;
use crate::labels::human;
use crate::labels::human_bytes;
use crate::outside::quoted;
use crate::outside::quoted_of;
use crate::text::append;
use crate::text::bool_text;
use crate::text::bool_wording;
use crate::text::control;
use crate::text::decimal;
use crate::text::decimal_text;
use crate::text::hex_padded;
use crate::text::is_control;
use crate::text::law_trimmed_texts_have_no_outer_white_space;
use crate::text::plain_excerpt;
use crate::text::plain_excerpt_text;
use crate::text::texts;
use crate::text::to_chars;
use crate::text::trim;
use crate::text::trimmed;

verus! {

/// How many entries of the history are shown.
pub const MAX_GUI_HISTORY_ENTRIES: usize = 4_096;

/// How long the history's JSON may be.
pub const MAX_GUI_HISTORY_JSON_BYTES: usize = 4_194_304;

/// How long a preview may be.
pub const MAX_GUI_HISTORY_PREVIEW_CHARS: usize = 240;

/// How many paths one drop may have.
pub const MAX_DROPPED_PATHS: usize = 1_024;

pub const MIN_HISTORY_CAPACITY: usize = 1;

pub const MAX_HISTORY_CAPACITY: usize = 4_096;

pub const MIN_HISTORY_ENTRY_BYTES: usize = 1_024;

pub const MAX_HISTORY_ENTRY_BYTES: usize = 67_108_864;

pub const MIN_TRANSFER_BYTES: u64 = 1_048_576;

pub const MAX_TRANSFER_BYTES: u64 = 1_099_511_627_776;

pub const MAX_DOWNLOAD_DIR_CHARS: usize = 4_096;

/// A text of another program, made fit to be shown.
pub fn sanitize_history_text(text: &str, max_chars: usize) -> (shown: String)
    ensures
        shown@ == plain_excerpt(text@, max_chars as int),
{
    plain_excerpt_text(text, max_chars)
}

/// An entry as the history command writes it.
#[derive(Debug)]
pub struct ClipboardHistoryWireEntry {
    pub fingerprint: String,
    pub preview: String,
    pub origin: String,
    pub at_millis: u64,
    pub pinned: bool,
    pub bytes: u64,
    pub formats: u64,
}

/// An entry as the panel shows it. It has no `Debug`: its preview is private.
#[derive(Clone, PartialEq, Eq)]
pub struct ClipboardHistoryEntry {
    pub fingerprint: String,
    pub preview: String,
    pub origin: String,
    pub at_millis: u64,
    pub pinned: bool,
    pub bytes: u64,
    pub formats: u64,
}

impl ClipboardHistoryEntry {
    /// Whether this is a written entry, made fit to be shown.
    pub open spec fn shows(self, wire: ClipboardHistoryWireEntry) -> bool {
        &&& hex_value(wire.fingerprint@) is Some
        &&& self.fingerprint@ == hex_padded(hex_value(wire.fingerprint@)->Some_0 as int, 16)
        &&& self.preview@ == plain_excerpt(wire.preview@, MAX_GUI_HISTORY_PREVIEW_CHARS as int)
        &&& self.origin@ == plain_excerpt(wire.origin@, 128)
        &&& self.at_millis == wire.at_millis
        &&& self.pinned == wire.pinned
        &&& self.bytes == wire.bytes
        &&& self.formats == wire.formats
    }

    /// What diagnostics may say of the entry: everything but its preview.
    pub fn debug_text(&self) -> (t: String)
        ensures
            t@ == "ClipboardHistoryEntry { fingerprint: "@ + quoted_of(self.fingerprint@)
                + ", preview: \"[redacted]\", origin: "@ + quoted_of(self.origin@)
                + ", at_millis: "@ + decimal(self.at_millis as nat) + ", pinned: "@ + bool_wording(self.pinned) + ", bytes: "@ + decimal(
                self.bytes as nat,
            ) + ", formats: "@ + decimal(self.formats as nat) + " }"@,
    {
        let mut t = "ClipboardHistoryEntry { fingerprint: ".to_owned();
        append(&mut t, &quoted(&self.fingerprint));
        append(&mut t, ", preview: \"[redacted]\", origin: ");
        append(&mut t, &quoted(&self.origin));
        append(&mut t, ", at_millis: ");
        append(&mut t, &decimal_text(self.at_millis));
        append(&mut t, ", pinned: ");
        append(&mut t, bool_text(self.pinned));
        append(&mut t, ", bytes: ");
        append(&mut t, &decimal_text(self.bytes));
        append(&mut t, ", formats: ");
        append(&mut t, &decimal_text(self.formats));
        append(&mut t, " }");
        t
    }

    /// What the panel shows in place of an empty preview.
    pub fn preview_text(&self) -> (t: String)
        ensures
            t@ == (if self.preview@.len() == 0 {
                "[non-text clipboard item]"@
            } else {
                self.preview@
            }),
    {
        if to_chars(&self.preview).len() == 0 {
            "[non-text clipboard item]".to_owned()
        } else {
            self.preview.clone()
        }
    }

    /// The line of details under the preview.
    pub fn detail_text(&self) -> (t: String)
        ensures
            t@ == self.fingerprint@ + " \u{b7} "@ + human(self.bytes) + " \u{b7} "@ + decimal(
                self.formats as nat,
            ) + " format(s) \u{b7} at "@ + decimal(self.at_millis as nat) + (if self.pinned {
                " \u{b7} pinned"@
            } else {
                ""@
            }),
    {
        let mut t = self.fingerprint.clone();
        append(&mut t, " \u{b7} ");
        append(&mut t, &human_bytes(self.bytes));
        append(&mut t, " \u{b7} ");
        append(&mut t, &decimal_text(self.formats));
        append(&mut t, " format(s) \u{b7} at ");
        append(&mut t, &decimal_text(self.at_millis));
        append(
            &mut t,
            if self.pinned {
                " \u{b7} pinned"
            } else {
                ""
            },
        );
        t
    }
}

/// Why a history cannot be shown.
#[derive(Clone, Copy, PartialEq, Eq, Structural, Debug)]
pub enum HistoryViewError {
    TooLong,
    Malformed,
    TooManyEntries,
    BadFingerprint,
}

impl HistoryViewError {
    /// The wording of the failure.
    pub fn message(self) -> (m: &'static str)
        ensures
            m@ == (match self {
                HistoryViewError::TooLong => "clipboard history JSON exceeds 4194304 bytes"@,
                HistoryViewError::Malformed => "invalid clipboard history JSON"@,
                HistoryViewError::TooManyEntries => "clipboard history exceeds 4096 entries"@,
                HistoryViewError::BadFingerprint =>
                    "Clipboard fingerprint must be 1 to 16 hexadecimal digits"@,
            }),
    {
        match self {
            HistoryViewError::TooLong => "clipboard history JSON exceeds 4194304 bytes",
            HistoryViewError::Malformed => "invalid clipboard history JSON",
            HistoryViewError::TooManyEntries => "clipboard history exceeds 4096 entries",
            HistoryViewError::BadFingerprint =>
                "Clipboard fingerprint must be 1 to 16 hexadecimal digits",
        }
    }
}

/// Whether every entry has a fingerprint.
pub open spec fn all_fingerprints(wire: Seq<ClipboardHistoryWireEntry>) -> bool {
    forall|i: int| 0 <= i < wire.len() ==> hex_value((#[trigger] wire[i]).fingerprint@) is Some
}

/// Whether these are written entries, made fit to be shown, in their order.
pub open spec fn shows_all(
    entries: Seq<ClipboardHistoryEntry>,
    wire: Seq<ClipboardHistoryWireEntry>,
) -> bool {
    &&& entries.len() == wire.len()
    &&& forall|i: int| 0 <= i < entries.len() ==> (#[trigger] entries[i]).shows(wire[i])
}

/// Whether the history's text may be parsed at all.
pub fn check_history_length(json_bytes: usize) -> (r: Result<(), HistoryViewError>)
    ensures
        r == (if json_bytes > MAX_GUI_HISTORY_JSON_BYTES {
            Err::<(), HistoryViewError>(HistoryViewError::TooLong)
        } else {
            Ok::<(), HistoryViewError>(())
        }),
{
    if json_bytes > MAX_GUI_HISTORY_JSON_BYTES {
        Err(HistoryViewError::TooLong)
    } else {
        Ok(())
    }
}

/// Makes a history fit to be shown. `parsed` is what its text holds, if it is the
/// JSON of a history. One entry without a fingerprint spoils the whole.
pub fn read_clipboard_history(
    json_bytes: usize,
    parsed: Option<&Vec<ClipboardHistoryWireEntry>>,
) -> (r: Result<Vec<ClipboardHistoryEntry>, HistoryViewError>)
    ensures
        match r {
            Ok(entries) => json_bytes <= MAX_GUI_HISTORY_JSON_BYTES && parsed is Some
                && parsed->Some_0@.len() <= MAX_GUI_HISTORY_ENTRIES && shows_all(
                entries@,
                parsed->Some_0@,
            ),
            Err(HistoryViewError::TooLong) => json_bytes > MAX_GUI_HISTORY_JSON_BYTES,
            Err(HistoryViewError::Malformed) => json_bytes <= MAX_GUI_HISTORY_JSON_BYTES
                && parsed is None,
            Err(HistoryViewError::TooManyEntries) => json_bytes <= MAX_GUI_HISTORY_JSON_BYTES
                && parsed is Some && parsed->Some_0@.len() > MAX_GUI_HISTORY_ENTRIES,
            Err(HistoryViewError::BadFingerprint) => json_bytes <= MAX_GUI_HISTORY_JSON_BYTES
                && parsed is Some && parsed->Some_0@.len() <= MAX_GUI_HISTORY_ENTRIES
                && !all_fingerprints(parsed->Some_0@),
        },
{
    match check_history_length(json_bytes) {
        Ok(_) => {},
        Err(e) => {
            return Err(e);
        },
    }
    let wire: &Vec<ClipboardHistoryWireEntry> = match parsed {
        Some(wire) => wire,
        None => {
            return Err(HistoryViewError::Malformed);
        },
    };
    if wire.len() > MAX_GUI_HISTORY_ENTRIES {
        return Err(HistoryViewError::TooManyEntries);
    }
    let mut entries: Vec<ClipboardHistoryEntry> = Vec::new();
    let mut i: usize = 0;
    while i < wire.len()
        invariant
            i <= wire.len(),
            parsed == Some(wire),
            wire@.len() <= MAX_GUI_HISTORY_ENTRIES,
            json_bytes <= MAX_GUI_HISTORY_JSON_BYTES,
            entries.len() == i,
            forall|k: int| 0 <= k < i ==> (#[trigger] entries@[k]).shows(wire@[k]),
        decreases wire.len() - i,
    {
        let entry = &wire[i];
        match normalize_fingerprint(&entry.fingerprint) {
            Ok(fingerprint) => {
                entries.push(
                    ClipboardHistoryEntry {
                        fingerprint,
                        preview: sanitize_history_text(
                            &entry.preview,
                            MAX_GUI_HISTORY_PREVIEW_CHARS,
                        ),
                        origin: sanitize_history_text(&entry.origin, 128),
                        at_millis: entry.at_millis,
                        pinned: entry.pinned,
                        bytes: entry.bytes,
                        formats: entry.formats,
                    },
                );
            },
            Err(_) => {
                assert(hex_value(wire@[i as int].fingerprint@) is None);
                return Err(HistoryViewError::BadFingerprint);
            },
        }
        i += 1;
    }
    Ok(entries)
}

/// What a shown history tells is bounded and printable, whatever was written.
pub proof fn law_shown_previews_are_bounded_and_printable(
    entry: ClipboardHistoryEntry,
    wire: ClipboardHistoryWireEntry,
    i: int,
)
    requires
        entry.shows(wire),
        0 <= i < entry.preview@.len(),
    ensures
        entry.preview@.len() <= MAX_GUI_HISTORY_PREVIEW_CHARS + 1,
        !control(entry.preview@[i]),
{
    crate::text::law_excerpts_are_bounded_and_printable(
        wire.preview@,
        MAX_GUI_HISTORY_PREVIEW_CHARS as nat,
        i,
    );
}

/// The arguments that restore an entry.
pub fn clipboard_restore_args(fingerprint: &str) -> (r: Result<
    Vec<String>,
    crate::fingerprint::NotAFingerprint,
>)
    ensures
        match r {
            Ok(args) => hex_value(fingerprint@) is Some && texts(args@) == seq![
                "clipboard-restore"@,
                hex_padded(hex_value(fingerprint@)->Some_0 as int, 16),
            ],
            Err(_) => hex_value(fingerprint@) is None,
        },
{
    match normalize_fingerprint(fingerprint) {
        Ok(text) => {
            let mut args: Vec<String> = Vec::new();
            args.push("clipboard-restore".to_owned());
            args.push(text);
            assert(texts(args@) =~= seq![
                "clipboard-restore"@,
                hex_padded(hex_value(fingerprint@)->Some_0 as int, 16),
            ]);
            Ok(args)
        },
        Err(e) => Err(e),
    }
}

/// Something dropped onto the page.
#[derive(Debug)]
pub enum DroppedItem {
    /// It has no local path.
    NoPath,
    /// It has one.
    Path(String),
    /// It has one that is no Unicode text.
    NotUnicode,
}

/// Why a drop is refused.
#[derive(Clone, Copy, PartialEq, Eq, Structural, Debug)]
pub enum DropError {
    NotUnicode,
    TooMany,
    Nothing,
}

impl DropError {
    /// The wording of the refusal.
    pub open spec fn wording(self) -> Seq<char> {
        match self {
            DropError::NotUnicode => "Dropped paths must be valid Unicode for the file-send CLI"@,
            DropError::TooMany => "A single drop may contain at most 1024 local paths"@,
            DropError::Nothing =>
                "Drop at least one local file or folder; URL-only drops are not supported"@,
        }
    }

    /// The wording of the refusal.
    pub fn message(self) -> (m: &'static str)
        ensures
            m@ == self.wording(),
    {
        match self {
            DropError::NotUnicode => "Dropped paths must be valid Unicode for the file-send CLI",
            DropError::TooMany => "A single drop may contain at most 1024 local paths",
            DropError::Nothing =>
                "Drop at least one local file or folder; URL-only drops are not supported",
        }
    }
}

/// The paths of the first items, or why the drop is refused there.
pub open spec fn dropped_paths(items: Seq<DroppedItem>, n: int) -> Result<
    Seq<Seq<char>>,
    DropError,
>
    decreases n,
{
    if n <= 0 {
        Ok(Seq::empty())
    } else {
        match dropped_paths(items, n - 1) {
            Err(e) => Err(e),
            Ok(paths) => match items[n - 1] {
                DroppedItem::NoPath => Ok(paths),
                DroppedItem::NotUnicode => Err(DropError::NotUnicode),
                DroppedItem::Path(path) => if path@.len() == 0 {
                    Ok(paths)
                } else if paths.len() >= MAX_DROPPED_PATHS {
                    Err(DropError::TooMany)
                } else {
                    Ok(paths.push(path@))
                },
            },
        }
    }
}

/// What a drop comes to.
pub open spec fn drop_outcome(items: Seq<DroppedItem>) -> Result<Seq<Seq<char>>, DropError> {
    match dropped_paths(items, items.len() as int) {
        Err(e) => Err(e),
        Ok(paths) => if paths.len() == 0 {
            Err(DropError::Nothing)
        } else {
            Ok(paths)
        },
    }
}

proof fn lemma_refusal_stays(items: Seq<DroppedItem>, i: int, n: int, e: DropError)
    requires
        0 <= i <= n,
        dropped_paths(items, i) == Err::<Seq<Seq<char>>, DropError>(e),
    ensures
        dropped_paths(items, n) == Err::<Seq<Seq<char>>, DropError>(e),
    decreases n - i,
{
    if i < n {
        lemma_refusal_stays(items, i, n - 1, e);
    }
}

/// The arguments that send dropped files: the paths stand behind a marker, so
/// none of them is taken for an option.
pub fn file_send_args(items: &Vec<DroppedItem>) -> (r: Result<Vec<String>, DropError>)
    ensures
        match r {
            Ok(args) => drop_outcome(items@) is Ok && texts(args@) == seq!["file-send"@, "--"@]
                + drop_outcome(items@)->Ok_0,
            Err(e) => drop_outcome(items@) == Err::<Seq<Seq<char>>, DropError>(e),
        },
{
    let mut args: Vec<String> = Vec::new();
    args.push("file-send".to_owned());
    args.push("--".to_owned());
    let ghost head = seq!["file-send"@, "--"@];
    assert(texts(args@) =~= head + dropped_paths(items@, 0)->Ok_0);
    let mut i: usize = 0;
    while i < items.len()
        invariant
            i <= items.len(),
            head == seq!["file-send"@, "--"@],
            dropped_paths(items@, i as int) is Ok,
            texts(args@) == head + dropped_paths(items@, i as int)->Ok_0,
        decreases items.len() - i,
    {
        let ghost paths = dropped_paths(items@, i as int)->Ok_0;
        let ghost before = args@;
        assert(args@.len() == texts(args@).len());
        match &items[i] {
            DroppedItem::NoPath => {},
            DroppedItem::NotUnicode => {
                proof {
                    lemma_refusal_stays(
                        items@,
                        i + 1,
                        items@.len() as int,
                        DropError::NotUnicode,
                    );
                }
                return Err(DropError::NotUnicode);
            },
            DroppedItem::Path(path) => {
                if to_chars(path).len() > 0 {
                    if args.len() - 2 >= MAX_DROPPED_PATHS {
                        proof {
                            lemma_refusal_stays(
                                items@,
                                i + 1,
                                items@.len() as int,
                                DropError::TooMany,
                            );
                        }
                        return Err(DropError::TooMany);
                    }
                    args.push(path.clone());
                    assert(texts(args@) =~= texts(before).push(path@));
                    assert(texts(args@) =~= head + paths.push(path@));
                }
            },
        }
        i += 1;
    }
    assert(args@.len() == texts(args@).len());
    if args.len() == 2 {
        return Err(DropError::Nothing);
    }
    Ok(args)
}

/// The settings of the sharing page.
#[derive(Debug)]
pub struct SharingConfig {
    pub history_capacity: usize,
    pub history_max_entry_bytes: usize,
    pub max_transfer_bytes: u64,
    pub download_dir: Option<String>,
}

/// Why the settings are refused.
#[derive(Clone, Copy, PartialEq, Eq, Structural, Debug)]
pub enum SharingError {
    DirectoryTooLong,
    DirectoryHasControls,
}

impl SharingError {
    /// The wording of the refusal.
    pub fn message(self) -> (m: &'static str)
        ensures
            m@ == (match self {
                SharingError::DirectoryTooLong =>
                    "Download directory must be at most 4096 characters"@,
                SharingError::DirectoryHasControls =>
                    "Download directory cannot contain control characters"@,
            }),
    {
        match self {
            SharingError::DirectoryTooLong => "Download directory must be at most 4096 characters",
            SharingError::DirectoryHasControls =>
                "Download directory cannot contain control characters",
        }
    }
}

/// A number brought into a range.
pub open spec fn clamped(n: int, low: int, high: int) -> int {
    if n < low {
        low
    } else if n > high {
        high
    } else {
        n
    }
}

/// Whether a text has a control character.
pub open spec fn has_controls(s: Seq<char>) -> bool {
    exists|i: int| 0 <= i < s.len() && control(#[trigger] s[i])
}

/// The download directory that a setting comes to: none where it is blank.
pub open spec fn checked_dir(dir: Option<Seq<char>>) -> Result<Option<Seq<char>>, SharingError> {
    match dir {
        None => Ok(None),
        Some(path) => if trimmed(path).len() > MAX_DOWNLOAD_DIR_CHARS {
            Err(SharingError::DirectoryTooLong)
        } else if has_controls(path) {
            Err(SharingError::DirectoryHasControls)
        } else if trimmed(path).len() > 0 {
            Ok(Some(trimmed(path)))
        } else {
            Ok(None)
        },
    }
}

impl SharingConfig {
    /// The characters of the download directory.
    pub open spec fn dir(self) -> Option<Seq<char>> {
        match self.download_dir {
            Some(d) => Some(d@),
            None => None,
        }
    }

    /// Whether the numbers are another setting's, brought into their ranges.
    pub open spec fn bounds(self, before: SharingConfig) -> bool {
        &&& self.history_capacity == clamped(
            before.history_capacity as int,
            MIN_HISTORY_CAPACITY as int,
            MAX_HISTORY_CAPACITY as int,
        )
        &&& self.history_max_entry_bytes == clamped(
            before.history_max_entry_bytes as int,
            MIN_HISTORY_ENTRY_BYTES as int,
            MAX_HISTORY_ENTRY_BYTES as int,
        )
        &&& self.max_transfer_bytes == clamped(
            before.max_transfer_bytes as int,
            MIN_TRANSFER_BYTES as int,
            MAX_TRANSFER_BYTES as int,
        )
    }
}

fn any_control(s: &str) -> (b: bool)
    ensures
        b == has_controls(s@),
{
    let v: Vec<char> = to_chars(s);
    let mut i: usize = 0;
    while i < v.len()
        invariant
            i <= v@.len(),
            v@ == s@,
            forall|k: int| 0 <= k < i ==> !control(#[trigger] s@[k]),
        decreases v.len() - i,
    {
        if is_control(v[i]) {
            assert(control(s@[i as int]));
            return true;
        }
        i += 1;
    }
    false
}

/// Brings the numbers into their ranges, also where the directory is refused; a
/// refused directory stays as it was.
pub fn prepare_sharing_config(config: &mut SharingConfig) -> (r: Result<(), SharingError>)
    ensures
        final(config).bounds(*old(config)),
        match r {
            Ok(_) => checked_dir(old(config).dir()) == Ok::<Option<Seq<char>>, SharingError>(
                final(config).dir(),
            ),
            Err(e) => checked_dir(old(config).dir()) == Err::<Option<Seq<char>>, SharingError>(e)
                && final(config).dir() == old(config).dir(),
        },
{
    if config.history_capacity < MIN_HISTORY_CAPACITY {
        config.history_capacity = MIN_HISTORY_CAPACITY;
    } else if config.history_capacity > MAX_HISTORY_CAPACITY {
        config.history_capacity = MAX_HISTORY_CAPACITY;
    }
    if config.history_max_entry_bytes < MIN_HISTORY_ENTRY_BYTES {
        config.history_max_entry_bytes = MIN_HISTORY_ENTRY_BYTES;
    } else if config.history_max_entry_bytes > MAX_HISTORY_ENTRY_BYTES {
        config.history_max_entry_bytes = MAX_HISTORY_ENTRY_BYTES;
    }
    if config.max_transfer_bytes < MIN_TRANSFER_BYTES {
        config.max_transfer_bytes = MIN_TRANSFER_BYTES;
    } else if config.max_transfer_bytes > MAX_TRANSFER_BYTES {
        config.max_transfer_bytes = MAX_TRANSFER_BYTES;
    }
    let dir: Option<String> = match &config.download_dir {
        None => None,
        Some(path) => {
            let t = trim(path);
            let n: usize = to_chars(&t).len();
            if n > MAX_DOWNLOAD_DIR_CHARS {
                return Err(SharingError::DirectoryTooLong);
            }
            if any_control(path) {
                return Err(SharingError::DirectoryHasControls);
            }
            if n > 0 {
                Some(t)
            } else {
                None
            }
        },
    };
    config.download_dir = dir;
    Ok(())
}

/// Settings that were prepared are in their ranges, and preparing them again
/// changes nothing.
pub proof fn law_prepared_settings_stay(
    before: SharingConfig,
    after: SharingConfig,
    again: SharingConfig,
    dir: Option<Seq<char>>,
)
    requires
        after.bounds(before),
        again.bounds(after),
        checked_dir(before.dir()) == Ok::<Option<Seq<char>>, SharingError>(dir),
    ensures
        MIN_HISTORY_CAPACITY <= after.history_capacity <= MAX_HISTORY_CAPACITY,
        MIN_HISTORY_ENTRY_BYTES <= after.history_max_entry_bytes <= MAX_HISTORY_ENTRY_BYTES,
        MIN_TRANSFER_BYTES <= after.max_transfer_bytes <= MAX_TRANSFER_BYTES,
        again.history_capacity == after.history_capacity,
        again.history_max_entry_bytes == after.history_max_entry_bytes,
        again.max_transfer_bytes == after.max_transfer_bytes,
        checked_dir(dir) == Ok::<Option<Seq<char>>, SharingError>(dir),
{
    if let Some(d) = dir {
        let path = before.dir()->Some_0;
        law_trimmed_texts_have_no_outer_white_space(path);
        assert(d[d.len() - 1] == d.last());
        assert(trimmed(d) == d);
        if has_controls(d) {
            let i = choose|i: int| 0 <= i < d.len() && control(#[trigger] d[i]);
            crate::text::lemma_trimmed_is_part(path);
            let k = choose|k: int|
                #[trigger] crate::text::starts_at(path, d, k);
            assert(path[k + i] == d[i]);
            assert(has_controls(path));
        }
    }
}

/// What a dropped item adds to what is sent: the text of a path that is not empty.
pub open spec fn sent_of(item: DroppedItem) -> Option<Seq<char>> {
    match item {
        DroppedItem::Path(path) => if path@.len() > 0 {
            Some(path@)
        } else {
            None
        },
        _ => None,
    }
}

/// The paths among dropped items, one after the other.
pub open spec fn sent_paths(items: Seq<DroppedItem>) -> Seq<Seq<char>> {
    items.filter(|item: DroppedItem| sent_of(item) is Some).map_values(
        |item: DroppedItem| sent_of(item)->Some_0,
    )
}

proof fn lemma_drops(items: Seq<DroppedItem>, n: int)
    requires
        0 <= n <= items.len(),
    ensures
        match dropped_paths(items, n) {
            Ok(paths) => {
                &&& paths == sent_paths(items.take(n))
                &&& paths.len() <= 1_024
                &&& forall|i: int| 0 <= i < n ==> #[trigger] items[i] != DroppedItem::NotUnicode
            },
            Err(DropError::TooMany) => sent_paths(items.take(n)).len() > 1_024,
            Err(DropError::NotUnicode) => exists|i: int|
                0 <= i < n && #[trigger] items[i] == DroppedItem::NotUnicode,
            Err(DropError::Nothing) => false,
        },
    decreases n,
{
    let keep = |item: DroppedItem| sent_of(item) is Some;
    let text = |item: DroppedItem| sent_of(item)->Some_0;
    reveal(Seq::filter);
    if n > 0 {
        lemma_drops(items, n - 1);
        let before = items.take(n - 1);
        let now = items.take(n);
        assert(now.drop_last() =~= before);
        assert(now.last() == items[n - 1]);
        if keep(items[n - 1]) {
            assert(now.filter(keep) =~= before.filter(keep).push(items[n - 1]));
            assert(sent_paths(now) =~= sent_paths(before).push(text(items[n - 1])));
        } else {
            assert(now.filter(keep) =~= before.filter(keep));
        }
    } else {
        assert(items.take(0).filter(keep).len() == 0);
        assert(sent_paths(items.take(0)) =~= Seq::empty());
    }
}

/// Everything that was dropped and has a path is sent, in the order in which it was
/// dropped, where there is at least one such path and no more than the allowed number.
pub proof fn law_every_dropped_path_is_sent(items: Seq<DroppedItem>)
    requires
        forall|i: int| 0 <= i < items.len() ==> #[trigger] items[i] != DroppedItem::NotUnicode,
        1 <= sent_paths(items).len() <= 1_024,
    ensures
        drop_outcome(items) == Ok::<Seq<Seq<char>>, DropError>(sent_paths(items)),
{
    lemma_drops(items, items.len() as int);
    assert(items.take(items.len() as int) =~= items);
}

/// A drop is refused only for a path that is no Unicode, for too many paths, or for
/// want of any, and an unreadable path alone is reason enough.
pub proof fn law_refused_drops_have_a_reason(items: Seq<DroppedItem>)
    ensures
        match drop_outcome(items) {
            Ok(paths) => {
                &&& forall|i: int|
                    0 <= i < items.len() ==> #[trigger] items[i] != DroppedItem::NotUnicode
                &&& 1 <= sent_paths(items).len() <= 1_024
                &&& paths == sent_paths(items)
            },
            Err(DropError::NotUnicode) => exists|i: int|
                0 <= i < items.len() && #[trigger] items[i] == DroppedItem::NotUnicode,
            Err(DropError::TooMany) => sent_paths(items).len() > 1_024,
            Err(DropError::Nothing) => sent_paths(items).len() == 0 && forall|i: int|
                0 <= i < items.len() ==> #[trigger] items[i] != DroppedItem::NotUnicode,
        },
{
    lemma_drops(items, items.len() as int);
    assert(items.take(items.len() as int) =~= items);
}

/// A download directory is kept without the white space round it; one of white space
/// alone is none. It is refused for its length, or for a control character anywhere in
/// what was typed.
pub proof fn law_download_directories_are_kept_without_white_space(path: Seq<char>)
    ensures
        match checked_dir(Some(path)) {
            Ok(kept) => {
                &&& trimmed(path).len() <= 4_096
                &&& forall|i: int| 0 <= i < path.len() ==> !control(#[trigger] path[i])
                &&& kept == (if trimmed(path).len() == 0 {
                    None
                } else {
                    Some(trimmed(path))
                })
            },
            Err(SharingError::DirectoryTooLong) => trimmed(path).len() > 4_096,
            Err(SharingError::DirectoryHasControls) => trimmed(path).len() <= 4_096 && exists|i: int|
                0 <= i < path.len() && control(#[trigger] path[i]),
        },
        checked_dir(None) == Ok::<Option<Seq<char>>, SharingError>(None),
{
    if forall|i: int| 0 <= i < path.len() ==> !control(#[trigger] path[i]) {
        assert(!has_controls(path));
    }
}

/// A setting within its limits stays as it is, one below them is raised to the lower
/// limit, and one above them is lowered to the upper.
pub proof fn law_settings_move_to_the_nearest_limit(before: SharingConfig, after: SharingConfig)
    requires
        after.bounds(before),
    ensures
        1 <= before.history_capacity <= 4_096 ==> after.history_capacity
            == before.history_capacity,
        before.history_capacity < 1 ==> after.history_capacity == 1,
        before.history_capacity > 4_096 ==> after.history_capacity == 4_096,
        1_024 <= before.history_max_entry_bytes <= 67_108_864 ==> after.history_max_entry_bytes
            == before.history_max_entry_bytes,
        before.history_max_entry_bytes < 1_024 ==> after.history_max_entry_bytes == 1_024,
        before.history_max_entry_bytes > 67_108_864 ==> after.history_max_entry_bytes
            == 67_108_864,
        1_048_576 <= before.max_transfer_bytes <= 1_099_511_627_776 ==> after.max_transfer_bytes
            == before.max_transfer_bytes,
        before.max_transfer_bytes < 1_048_576 ==> after.max_transfer_bytes == 1_048_576,
        before.max_transfer_bytes > 1_099_511_627_776 ==> after.max_transfer_bytes
            == 1_099_511_627_776,
{
}

/// Every entry of a history is shown, in its place and with what was reported of it;
/// a history with one entry that cannot be told by its fingerprint is not shown.
pub proof fn law_every_entry_is_shown(
    entries: Seq<ClipboardHistoryEntry>,
    wire: Seq<ClipboardHistoryWireEntry>,
    i: int,
)
    requires
        0 <= i < wire.len(),
    ensures
        shows_all(entries, wire) ==> {
            &&& entries.len() == wire.len()
            &&& entries[i].at_millis == wire[i].at_millis
            &&& entries[i].pinned == wire[i].pinned
            &&& entries[i].bytes == wire[i].bytes
            &&& entries[i].formats == wire[i].formats
            &&& entries[i].preview@ == plain_excerpt(wire[i].preview@, 240)
            &&& entries[i].origin@ == plain_excerpt(wire[i].origin@, 128)
            &&& hex_value(wire[i].fingerprint@) is Some
            &&& entries[i].fingerprint@ == hex_padded(
                hex_value(wire[i].fingerprint@)->Some_0 as int,
                16,
            )
        },
        hex_value(wire[i].fingerprint@) is None ==> !all_fingerprints(wire),
        (forall|j: int| 0 <= j < wire.len() ==> hex_value((#[trigger] wire[j]).fingerprint@) is Some)
            ==> all_fingerprints(wire),
{
    if shows_all(entries, wire) {
        assert(entries[i].shows(wire[i]));
    }
}

} // verus!
