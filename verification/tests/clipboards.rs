use nexkvm::clipboard::after_poll;
use nexkvm::clipboard::after_resolver;
use nexkvm::clipboard::after_write;
use nexkvm::clipboard::archive_config;
use nexkvm::clipboard::check_update;
use nexkvm::clipboard::clipboard_history_clear;
use nexkvm::clipboard::clipboard_history_list;
use nexkvm::clipboard::clipboard_history_restore;
use nexkvm::clipboard::clipboard_preview;
use nexkvm::clipboard::clipboard_runtime_enabled;
use nexkvm::clipboard::poll_end;
use nexkvm::clipboard::receive_failed;
use nexkvm::clipboard::recorded_origin;
use nexkvm::clipboard::AfterPoll;
use nexkvm::clipboard::AfterUpdate;
use nexkvm::clipboard::ClipboardConfig;
use nexkvm::clipboard::ClipboardRead;
use nexkvm::clipboard::ClipboardSessionError;
use nexkvm::clipboard::HistoryItem;
use nexkvm::clipboard::HistoryPoll;
use nexkvm::clipboard::HistoryPollStep;
use nexkvm::clipboard::MAX_ARCHIVE_BYTES;
use nexkvm::ids::DeviceId;
use nexkvm::lanes::MessageKind;
use nexkvm::leases::PeerLeases;

fn key(byte: u8) -> Vec<u8> {
    vec![byte; 32]
}

fn item(fingerprint: u64, text: Option<&str>, origin: u128) -> HistoryItem {
    HistoryItem {
        fingerprint,
        text: text.map(str::to_owned),
        origin: DeviceId(origin),
        at_millis: 42,
        pinned: false,
        bytes: 22,
        formats: 1,
    }
}

#[test]
fn clipboard_runtime_requires_config_and_platform_access() {
    assert!(!clipboard_runtime_enabled(false, false));
    assert!(!clipboard_runtime_enabled(false, true));
    assert!(!clipboard_runtime_enabled(true, false));
    assert!(clipboard_runtime_enabled(true, true));
}

#[test]
fn peer_leases_allow_distinct_peers_and_reject_duplicate_connections() {
    let mut gate = PeerLeases::new();
    assert!(gate.try_acquire(&key(1)));

    assert!(!gate.try_acquire(&key(1)));
    assert!(gate.try_acquire(&key(2)));

    gate.release(&key(1));
    assert!(gate.try_acquire(&key(1)));
    assert!(!gate.try_acquire(&key(2)));

    gate.release(&key(2));
    assert!(gate.try_acquire(&key(2)));
}

#[test]
fn archives_have_room_for_their_entries_up_to_a_cap() {
    let config = |capacity: usize, entry: usize| ClipboardConfig {
        sync_enabled: true,
        history_enabled: true,
        history_capacity: capacity,
        history_max_entry_bytes: entry,
    };
    assert_eq!(archive_config(&config(2, 100)).max_archive_bytes, 2 * 164 + 4);
    assert_eq!(archive_config(&config(0, usize::MAX)).max_archive_bytes, 4);
    for (capacity, entry) in [(usize::MAX, 0), (1, usize::MAX), (4096, 64 << 20), (usize::MAX, usize::MAX)] {
        let limits = archive_config(&config(capacity, entry));
        assert_eq!(limits.max_archive_bytes, MAX_ARCHIVE_BYTES);
        assert_eq!(limits.capacity, capacity);
        assert_eq!(limits.max_entry_bytes, entry);
    }
}

#[test]
fn a_local_look_leaves_a_received_item_its_origin() {
    let items = vec![item(1, None, 7), item(1, None, 8), item(2, None, 9)];
    let here = DeviceId(3);
    assert_eq!(recorded_origin(&items, 1, here, true), DeviceId(7));
    assert_eq!(recorded_origin(&items, 1, here, false), here);
    assert_eq!(recorded_origin(&items, 5, here, true), here);
}

#[test]
fn polling_records_each_change_once() {
    let mut poll = HistoryPoll::new();
    let steps: Vec<HistoryPollStep> = [
        ClipboardRead::Content(1),
        ClipboardRead::Content(1),
        ClipboardRead::Failed,
        ClipboardRead::Failed,
        ClipboardRead::Content(1),
        ClipboardRead::Content(2),
        ClipboardRead::Empty,
        ClipboardRead::Content(2),
        ClipboardRead::Failed,
    ]
    .into_iter()
    .map(|read| poll.on_read(read))
    .collect();
    assert_eq!(
        steps,
        [
            HistoryPollStep::Record,
            HistoryPollStep::Nothing,
            HistoryPollStep::Warn,
            HistoryPollStep::Nothing,
            HistoryPollStep::Nothing,
            HistoryPollStep::Record,
            HistoryPollStep::Nothing,
            HistoryPollStep::Record,
            HistoryPollStep::Warn,
        ]
    );
}

#[test]
fn updates_must_name_the_authenticated_peer() {
    let peer = DeviceId(1);
    assert_eq!(
        check_update(MessageKind::Input, Some(peer), peer),
        Err(ClipboardSessionError::UnexpectedKind(MessageKind::Input))
    );
    assert_eq!(
        check_update(MessageKind::Clipboard, None, peer),
        Err(ClipboardSessionError::InvalidUpdate)
    );
    assert_eq!(
        check_update(MessageKind::Clipboard, Some(DeviceId(2)), peer),
        Err(ClipboardSessionError::OriginMismatch {
            expected: peer,
            actual: DeviceId(2)
        })
    );
    assert_eq!(check_update(MessageKind::Clipboard, Some(peer), peer), Ok(()));
    assert_eq!(after_resolver(Ok(true)), Ok(AfterUpdate::Write));
    assert_eq!(after_resolver(Ok(false)), Ok(AfterUpdate::Ignore));
    assert_eq!(
        after_resolver(Err(())),
        Err(ClipboardSessionError::InvalidUpdate)
    );
    assert_eq!(after_write(false, true), AfterUpdate::Warn);
    assert_eq!(after_write(true, true), AfterUpdate::Record);
    assert_eq!(after_write(true, false), AfterUpdate::Done);
    assert_eq!(receive_failed(true), Ok(()));
    assert_eq!(receive_failed(false), Err(ClipboardSessionError::Network));
}

#[test]
fn previews_are_short_and_printable() {
    assert_eq!(clipboard_preview(&Some("a\nb".into()), 10), "a b");
    assert_eq!(clipboard_preview(&Some("abcdef".into()), 3), "abc…");
    assert_eq!(clipboard_preview(&None, 80), "[non-text clipboard item]");
}

#[test]
fn the_history_is_listed_for_people_and_programs() {
    let items = vec![item(255, Some("say \"hi\"\n"), 0x1234)];
    assert_eq!(
        clipboard_history_list(false, true, Some(&items)),
        ["00000000000000ff  say \"hi\"   22 bytes  origin=00000000-0000-0000-0000-000000001234  at=42"]
    );
    let json = clipboard_history_list(true, true, Some(&items));
    assert_eq!(json.len(), 1);
    let value: serde_json::Value = serde_json::from_str(&json[0]).unwrap();
    assert_eq!(value.to_string(), json[0]);
    assert_eq!(value[0]["preview"].as_str(), Some("say \"hi\" "));
    assert_eq!(value[0]["fingerprint"].as_str(), Some("00000000000000ff"));
    assert_eq!(
        value[0]["origin"].as_str(),
        Some("00000000-0000-0000-0000-000000001234")
    );
    assert_eq!(value[0]["bytes"].as_u64(), Some(22));
    let empty: Vec<HistoryItem> = Vec::new();
    assert_eq!(clipboard_history_list(true, true, Some(&empty)), ["[]"]);
    assert_eq!(clipboard_history_list(true, false, None), ["[]"]);
    assert_eq!(clipboard_history_list(true, true, None), ["[]"]);
    assert_eq!(
        clipboard_history_list(false, false, Some(&items)),
        ["clipboard history is disabled"]
    );
    assert_eq!(
        clipboard_history_list(false, true, Some(&empty)),
        ["clipboard history is empty"]
    );
    assert_eq!(
        clipboard_history_list(false, true, None),
        ["clipboard history is empty"]
    );
}

#[test]
fn restoring_needs_an_item_and_clearing_an_archive() {
    let items = vec![item(1, None, 1), item(2, None, 1)];
    assert_eq!(clipboard_history_restore(true, Some(&items), 2), Ok(1));
    assert_eq!(
        clipboard_history_restore(false, Some(&items), 2)
            .unwrap_err()
            .message(),
        "clipboard history is disabled"
    );
    assert_eq!(
        clipboard_history_restore(true, None, 2).unwrap_err().message(),
        "clipboard history is empty"
    );
    assert_eq!(
        clipboard_history_restore(true, Some(&items), 3)
            .unwrap_err()
            .message(),
        "clipboard history entry was not found"
    );
    assert_eq!(clipboard_history_clear(true, true), Ok(true));
    assert_eq!(clipboard_history_clear(true, false), Ok(false));
    assert!(clipboard_history_clear(false, true).is_err());
}

#[test]
fn a_poll_that_cannot_send_ends_the_session() {
    assert_eq!(after_poll(ClipboardRead::Content(1)), AfterPoll::Prepare);
    assert_eq!(after_poll(ClipboardRead::Empty), AfterPoll::Nothing);
    assert_eq!(after_poll(ClipboardRead::Failed), AfterPoll::Warn);
    assert_eq!(poll_end(Ok(true), true), Ok(true));
    assert_eq!(poll_end(Ok(false), false), Ok(false));
    assert_eq!(poll_end(Ok(true), false), Err(ClipboardSessionError::Network));
    assert_eq!(poll_end(Err(()), true), Err(ClipboardSessionError::InvalidUpdate));
}
