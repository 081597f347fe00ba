use std::collections::VecDeque;

use nexkvm::daemon_log::choose_binary;
use nexkvm::daemon_log::log_tail_window;
use nexkvm::daemon_log::plan_log_rotation;
use nexkvm::daemon_log::stop_step;
use nexkvm::daemon_log::LogEntry;
use nexkvm::daemon_log::LogError;
use nexkvm::daemon_log::LogPlan;
use nexkvm::daemon_log::StopStep;
use nexkvm::daemon_log::MAX_DAEMON_LOG_BYTES;
use nexkvm::feedback::bounded_command_error;
use nexkvm::feedback::local_pairing_addr;
use nexkvm::feedback::pairing_accept_ready;
use nexkvm::feedback::pairing_feedback;
use nexkvm::feedback::pairing_generation_feedback;
use nexkvm::feedback::show_error;
use nexkvm::feedback::MAX_GUI_COMMAND_ERROR_BYTES;
use nexkvm::feedback::MAX_GUI_COMMAND_ERROR_CHARS;
use nexkvm::input::HandoffEdge;
use nexkvm::input::InputRuntimeRole;
use nexkvm::labels::active_peer_label;
use nexkvm::labels::connect_addr_label;
use nexkvm::labels::edge_label;
use nexkvm::labels::emergency_label;
use nexkvm::labels::human_bytes;
use nexkvm::labels::role_label;
use nexkvm::labels::truncate_chars;
use nexkvm::notifications::initial_notifications;
use nexkvm::notifications::record_notification;
use nexkvm::notifications::unread_count;
use nexkvm::notifications::urgency_label;
use nexkvm::notifications::GuiNotification;
use nexkvm::notifications::NotificationUrgency;
use nexkvm::notifications::MAX_GUI_NOTIFICATIONS;
use nexkvm::panel::load_failure;
use nexkvm::panel::runtime_apply_action;
use nexkvm::panel::section_title;
use nexkvm::panel::CommandEnd;
use nexkvm::panel::ControlPanel;
use nexkvm::panel::RuntimeApplyAction;
use nexkvm::panel::Section;
use nexkvm::sharing::check_history_length;
use nexkvm::sharing::clipboard_restore_args;
use nexkvm::sharing::file_send_args;
use nexkvm::sharing::prepare_sharing_config;
use nexkvm::sharing::read_clipboard_history;
use nexkvm::sharing::sanitize_history_text;
use nexkvm::sharing::ClipboardHistoryEntry;
use nexkvm::sharing::ClipboardHistoryWireEntry;
use nexkvm::sharing::DropError;
use nexkvm::sharing::DroppedItem;
use nexkvm::sharing::HistoryViewError;
use nexkvm::sharing::SharingConfig;
use nexkvm::sharing::MAX_DROPPED_PATHS;
use nexkvm::sharing::MAX_GUI_HISTORY_ENTRIES;
use nexkvm::sharing::MAX_GUI_HISTORY_JSON_BYTES;
use nexkvm::sharing::MAX_HISTORY_ENTRY_BYTES;
use nexkvm::sharing::MAX_TRANSFER_BYTES;
use nexkvm::sharing::MIN_HISTORY_CAPACITY;

/// Reads the JSON of a history, as far as it is one.
fn wire_entries(contents: &[u8]) -> Option<Vec<ClipboardHistoryWireEntry>> {
    let value: serde_json::Value = serde_json::from_slice(contents).ok()?;
    let text = |item: &serde_json::Value, key: &str| -> String {
        item[key].as_str().unwrap_or_default().to_owned()
    };
    value
        .as_array()?
        .iter()
        .map(|item| {
            item["fingerprint"].as_str()?;
            Some(ClipboardHistoryWireEntry {
                fingerprint: text(item, "fingerprint"),
                preview: text(item, "preview"),
                origin: text(item, "origin"),
                at_millis: item["at_millis"].as_u64().unwrap_or_default(),
                pinned: item["pinned"].as_bool().unwrap_or_default(),
                bytes: item["bytes"].as_u64().unwrap_or_default(),
                formats: item["formats"].as_u64().unwrap_or_default(),
            })
        })
        .collect()
}

fn parse_clipboard_history_json(
    contents: &[u8],
) -> Result<Vec<ClipboardHistoryEntry>, HistoryViewError> {
    read_clipboard_history(contents.len(), wire_entries(contents).as_ref())
}

#[test]
fn pairing_form_starts_blank_and_file_drop_copy_includes_folders() {
    assert!(local_pairing_addr().is_empty());
    let error = file_send_args(&Vec::new()).unwrap_err();
    assert!(error.message().contains("file or folder"));
}

#[test]
fn rejected_pairing_generation_shows_a_bounded_sanitized_failure() {
    let stderr = format!(
        "invalid\naddress\0{}",
        "x".repeat(MAX_GUI_COMMAND_ERROR_BYTES * 2)
    );

    let feedback = pairing_generation_feedback(false, b"", stderr.as_bytes());

    assert_eq!(feedback.title, "Pairing URI failed");
    assert_eq!(feedback.urgency, NotificationUrgency::High);
    assert!(feedback.uri.is_none());
    assert!(feedback.detail.starts_with("invalid address "));
    assert!(!feedback.detail.chars().any(char::is_control));
    assert!(feedback.detail.chars().count() <= MAX_GUI_COMMAND_ERROR_CHARS + 1);
    assert!(feedback.detail.ends_with('…'));
}

#[test]
fn gui_notifications_keep_newest_events() {
    let mut notifications = VecDeque::new();
    let mut next_id = 0;

    for index in 0..(MAX_GUI_NOTIFICATIONS + 3) {
        record_notification(
            &mut notifications,
            &mut next_id,
            NotificationUrgency::Normal,
            &format!("event {index}"),
            "body",
        );
    }

    assert_eq!(notifications.len(), MAX_GUI_NOTIFICATIONS);
    assert_eq!(notifications.front().unwrap().title, "event 26");
    assert_eq!(notifications.back().unwrap().title, "event 3");
}

#[test]
fn initial_notification_marks_gui_ready() {
    let notifications = initial_notifications();

    assert_eq!(notifications.len(), 1);
    assert_eq!(notifications.front().unwrap().title, "GUI ready");
    assert_eq!(
        notifications.front().unwrap().urgency,
        NotificationUrgency::Low
    );
}

#[test]
fn pairing_accept_requires_the_exact_inspected_uri() {
    let uri = "nexkvm://pair/v1/0011";

    assert!(!pairing_accept_ready(uri, None));
    assert!(pairing_accept_ready("  nexkvm://pair/v1/0011\n", Some(uri)));
    assert!(!pairing_accept_ready("nexkvm://pair/v1/0022", Some(uri)));
    assert!(!pairing_accept_ready(" ", Some("")));
}

#[test]
fn log_tail_reader_seeks_to_a_bounded_suffix() {
    let log = b"prefix-secret-tail";
    let (start, len) = log_tail_window(log.len() as u64, 4);
    let bytes = &log[start as usize..(start + len) as usize];
    assert_eq!(bytes, b"tail");
    assert_eq!(start + len, 18);
    assert_eq!(log_tail_window(3, 4), (0, 3));
}

#[test]
fn saved_runtime_settings_restart_only_a_gui_owned_daemon() {
    assert_eq!(runtime_apply_action(true), RuntimeApplyAction::RestartOwned);
    assert_eq!(
        runtime_apply_action(false),
        RuntimeApplyAction::RestartRequired
    );
}

#[test]
fn malformed_clipboard_history_json_is_rejected_without_panicking() {
    assert!(parse_clipboard_history_json(br#"[{\"fingerprint\":]"#).is_err());
    assert!(parse_clipboard_history_json(br#"{\"entries\":[]}"#).is_err());
    assert!(parse_clipboard_history_json(&vec![b' '; MAX_GUI_HISTORY_JSON_BYTES + 1]).is_err());
}

#[test]
fn clipboard_history_parser_keeps_metadata_but_redacts_debug_preview() {
    let Ok(entries) = parse_clipboard_history_json(
        br#"[{"fingerprint":"00000000000000ff","preview":"private clipboard text","origin":"peer-1","at_millis":42,"pinned":false,"bytes":22,"formats":1}]"#,
    ) else {
        panic!("the history is well-formed");
    };

    assert_eq!(entries.len(), 1);
    assert_eq!(entries[0].fingerprint, "00000000000000ff");
    assert_eq!(entries[0].preview, "private clipboard text");
    assert_eq!(entries[0].bytes, 22);
    assert!(!entries[0].debug_text().contains("private clipboard text"));
    assert_eq!(
        entries[0].debug_text(),
        "ClipboardHistoryEntry { fingerprint: \"00000000000000ff\", preview: \"[redacted]\", origin: \"peer-1\", at_millis: 42, pinned: false, bytes: 22, formats: 1 }"
    );
}

#[test]
fn clipboard_restore_arguments_require_one_u64_hex_fingerprint() {
    let args = clipboard_restore_args("0x00000000000000ff").unwrap();
    assert_eq!(args, ["clipboard-restore", "00000000000000ff"]);

    assert!(clipboard_restore_args("").is_err());
    assert!(clipboard_restore_args("not-hex").is_err());
    assert!(clipboard_restore_args("10000000000000000").is_err());
}

#[test]
fn dropped_file_arguments_reject_empty_and_url_only_drops() {
    assert!(file_send_args(&Vec::new()).is_err());
    assert!(file_send_args(&vec![DroppedItem::NoPath]).is_err());

    let args = file_send_args(&vec![
        DroppedItem::Path("/tmp/a file.txt".into()),
        DroppedItem::NoPath,
        DroppedItem::Path("-notes.txt".into()),
    ])
    .unwrap();
    assert_eq!(args, ["file-send", "--", "/tmp/a file.txt", "-notes.txt"]);
}

#[test]
fn sharing_config_is_bounded_and_rejects_control_characters_in_paths() {
    let mut config = SharingConfig {
        history_capacity: 0,
        history_max_entry_bytes: usize::MAX,
        max_transfer_bytes: u64::MAX,
        download_dir: Some("unsafe\npath".into()),
    };

    assert!(prepare_sharing_config(&mut config).is_err());

    config.download_dir = Some("  /tmp/NexKVM Downloads  ".into());
    prepare_sharing_config(&mut config).unwrap();
    assert_eq!(config.history_capacity, MIN_HISTORY_CAPACITY);
    assert_eq!(config.history_max_entry_bytes, MAX_HISTORY_ENTRY_BYTES);
    assert_eq!(config.max_transfer_bytes, MAX_TRANSFER_BYTES);
    assert_eq!(
        config.download_dir.as_deref(),
        Some("/tmp/NexKVM Downloads")
    );
}

#[test]
fn refused_sharing_settings_say_why_and_prepared_ones_stay() {
    let mut config = SharingConfig {
        history_capacity: 9_999,
        history_max_entry_bytes: 1,
        max_transfer_bytes: 1,
        download_dir: Some("x".repeat(4_097)),
    };
    assert_eq!(
        prepare_sharing_config(&mut config).unwrap_err().message(),
        "Download directory must be at most 4096 characters"
    );
    assert_eq!(config.history_capacity, 4_096);
    config.download_dir = Some("a\u{7f}".into());
    assert_eq!(
        prepare_sharing_config(&mut config).unwrap_err().message(),
        "Download directory cannot contain control characters"
    );
    config.download_dir = Some("   ".into());
    prepare_sharing_config(&mut config).unwrap();
    assert_eq!(config.download_dir, None);
    config.download_dir = Some(" downloads ".into());
    prepare_sharing_config(&mut config).unwrap();
    prepare_sharing_config(&mut config).unwrap();
    assert_eq!(config.download_dir.as_deref(), Some("downloads"));
    assert_eq!(config.history_max_entry_bytes, 1_024);
    assert_eq!(config.max_transfer_bytes, 1_048_576);
}

#[test]
fn drops_are_bounded_and_must_be_unicode() {
    let many = |n: usize| -> Vec<DroppedItem> {
        (0..n).map(|i| DroppedItem::Path(format!("f{i}"))).collect()
    };
    assert_eq!(
        file_send_args(&many(MAX_DROPPED_PATHS)).unwrap().len(),
        MAX_DROPPED_PATHS + 2
    );
    let too_many = file_send_args(&many(MAX_DROPPED_PATHS + 1)).unwrap_err();
    assert_eq!(too_many, DropError::TooMany);
    assert_eq!(
        too_many.message(),
        "A single drop may contain at most 1024 local paths"
    );
    let odd = file_send_args(&vec![
        DroppedItem::Path("ok".into()),
        DroppedItem::NotUnicode,
    ])
    .unwrap_err();
    assert_eq!(
        odd.message(),
        "Dropped paths must be valid Unicode for the file-send CLI"
    );
    assert_eq!(
        file_send_args(&vec![DroppedItem::Path(String::new())]).unwrap_err(),
        DropError::Nothing
    );
}

#[test]
fn histories_are_bounded_and_made_printable() {
    assert_eq!(
        check_history_length(MAX_GUI_HISTORY_JSON_BYTES + 1)
            .unwrap_err()
            .message(),
        "clipboard history JSON exceeds 4194304 bytes"
    );
    let entry = || ClipboardHistoryWireEntry {
        fingerprint: "1".into(),
        preview: format!("a\tb{}", "x".repeat(300)),
        origin: String::new(),
        at_millis: 7,
        pinned: true,
        bytes: 1280,
        formats: 2,
    };
    let crowd: Vec<ClipboardHistoryWireEntry> =
        (0..MAX_GUI_HISTORY_ENTRIES + 1).map(|_| entry()).collect();
    let Err(error) = read_clipboard_history(10, Some(&crowd)) else {
        panic!("too many entries");
    };
    assert_eq!(error.message(), "clipboard history exceeds 4096 entries");
    let mut bad = entry();
    bad.fingerprint = "xyz".into();
    let Err(error) = read_clipboard_history(10, Some(&vec![entry(), bad])) else {
        panic!("a bad fingerprint");
    };
    assert_eq!(
        error.message(),
        "Clipboard fingerprint must be 1 to 16 hexadecimal digits"
    );
    let Err(error) = read_clipboard_history(10, None) else {
        panic!("no history");
    };
    assert_eq!(error.message(), "invalid clipboard history JSON");
    let Ok(shown) = read_clipboard_history(10, Some(&vec![entry()])) else {
        panic!("a history");
    };
    assert_eq!(shown[0].preview.chars().count(), 241);
    assert!(shown[0].preview.starts_with("a b"));
    assert!(!shown[0].preview.chars().any(char::is_control));
    assert_eq!(
        shown[0].detail_text(),
        "0000000000000001 · 1.2 KiB · 2 format(s) · at 7 · pinned"
    );
    assert_eq!(sanitize_history_text("abc", 3), "abc");
    assert_eq!(sanitize_history_text("abcd", 3), "abc…");
}

#[test]
fn command_errors_are_bounded_and_never_empty() {
    assert_eq!(
        bounded_command_error(b" \n\t "),
        "Pairing URI command failed without an error message"
    );
    assert_eq!(bounded_command_error(b"bad \xff byte"), "bad \u{fffd} byte");
    assert_eq!(show_error("plain", false), "plain");
    assert_eq!(show_error("plain", true), "plain…");
    assert_eq!(show_error(&"y".repeat(513), false).chars().count(), 513);
    let given = pairing_generation_feedback(true, b" nexkvm://pair/v1/00\n", b"");
    assert_eq!(given.uri.as_deref(), Some("nexkvm://pair/v1/00"));
    assert_eq!(given.title, "Pairing URI generated");
    assert_eq!(given.detail, "Pairing URI generated for this Mac");
    let empty = pairing_feedback(true, "  ", "unused".into());
    assert_eq!(empty.uri, None);
    assert_eq!(empty.detail, "Pairing URI command returned no URI");
    assert_eq!(empty.urgency, NotificationUrgency::High);
}

/// How a size is worded by dividing doubles.
fn by_doubles(bytes: u64) -> String {
    let kib = 1024u64;
    let mib = kib * 1024;
    let gib = mib * 1024;
    if bytes >= gib {
        format!("{:.1} GiB", bytes as f64 / gib as f64)
    } else if bytes >= mib {
        format!("{:.1} MiB", bytes as f64 / mib as f64)
    } else if bytes >= kib {
        format!("{:.1} KiB", bytes as f64 / kib as f64)
    } else {
        format!("{bytes} B")
    }
}

#[test]
fn sizes_are_worded_as_doubles_divide() {
    let mut sizes: Vec<u64> = (0..5000).collect();
    for shift in 10..64 {
        let base = 1u64 << shift;
        for delta in [0u64, 1, 2, 3, 51, 511, 512, 513, 1024, 1025] {
            sizes.push(base.saturating_add(delta));
            sizes.push(base - 1 - delta.min(base - 1));
            sizes.push(base.saturating_add(base / 20).saturating_add(delta));
            sizes.push(base.saturating_add(base / 4));
            sizes.push(base.saturating_add(base / 4 * 3));
        }
    }
    sizes.push(u64::MAX);
    let mut state: u64 = 0x9e37_79b9_7f4a_7c15;
    for _ in 0..20_000 {
        state = state.wrapping_mul(6364136223846793005).wrapping_add(1442695040888963407);
        sizes.push(state >> (state % 60));
    }
    for bytes in sizes {
        assert_eq!(human_bytes(bytes), by_doubles(bytes), "{bytes}");
    }
}

#[test]
fn labels_word_the_settings() {
    assert_eq!(emergency_label(41), "Esc");
    assert_eq!(emergency_label(7), "HID 7");
    assert_eq!(active_peer_label(&None), "Auto");
    assert_eq!(active_peer_label(&Some("studio".into())), "studio");
    assert_eq!(connect_addr_label(&None), "Discovery");
    assert_eq!(connect_addr_label(&Some("1.2.3.4:5".into())), "1.2.3.4:5");
    assert_eq!(role_label(InputRuntimeRole::Both), "Source + Target");
    assert_eq!(role_label(InputRuntimeRole::Disabled), "Disabled");
    assert_eq!(edge_label(HandoffEdge::Top), "Top edge");
    assert_eq!(section_title(Section::Pairing), "Pairing & Output");
    assert_eq!(urgency_label(NotificationUrgency::Normal), "Normal");
    assert_eq!(truncate_chars("abcdef", 6), "abcdef");
    assert_eq!(truncate_chars("abcdefg", 6), "abc...");
    assert_eq!(truncate_chars("abcdefg", 2), "...");
}

#[test]
fn full_logs_are_moved_aside() {
    let limit = MAX_DAEMON_LOG_BYTES;
    assert_eq!(
        plan_log_rotation(LogEntry::Missing, LogEntry::Missing, limit),
        Ok(LogPlan::Append)
    );
    assert_eq!(
        plan_log_rotation(LogEntry::Regular(7), LogEntry::Missing, 8),
        Ok(LogPlan::Append)
    );
    assert_eq!(
        plan_log_rotation(LogEntry::Regular(7), LogEntry::Missing, 4),
        Ok(LogPlan::Rotate { remove_previous: false })
    );
    assert_eq!(
        plan_log_rotation(LogEntry::Regular(7), LogEntry::Regular(1), 4),
        Ok(LogPlan::Rotate { remove_previous: true })
    );
    assert_eq!(
        plan_log_rotation(LogEntry::Regular(0), LogEntry::Other, 0),
        Ok(LogPlan::Append)
    );
    assert_eq!(
        plan_log_rotation(LogEntry::Other, LogEntry::Missing, 4),
        Err(LogError::NotRegular)
    );
    assert_eq!(
        plan_log_rotation(LogEntry::Regular(7), LogEntry::Other, 4)
            .unwrap_err()
            .message(),
        "previous daemon log path must be a regular file"
    );
}

#[test]
fn a_daemon_is_killed_only_after_its_time() {
    assert_eq!(stop_step(0, true), StopStep::Done);
    assert_eq!(stop_step(11, false), StopStep::Wait);
    assert_eq!(stop_step(12, false), StopStep::Kill);
}

#[test]
fn the_daemon_is_looked_for_in_order() {
    let some = |text: &str| Some(text.to_owned());
    assert_eq!(choose_binary(some("e"), some("b"), some("l")), "e");
    assert_eq!(choose_binary(None, some("b"), some("l")), "b");
    assert_eq!(choose_binary(None, None, some("l")), "l");
    assert_eq!(choose_binary(None, None, None), "nexkvm");
}

fn newest(panel: &ControlPanel) -> &GuiNotification {
    panel.feed.notifications.front().unwrap()
}

#[test]
fn a_configuration_that_did_not_load_is_never_overwritten() {
    let error = load_failure("/tmp/config.toml", "bad table");
    assert_eq!(
        error,
        "Failed to load /tmp/config.toml: bad table. Saving is disabled until the file is repaired or removed and the GUI is restarted."
    );
    let mut panel = ControlPanel::open(Some(error.clone()));
    assert_eq!(newest(&panel).urgency, NotificationUrgency::High);
    assert_eq!(newest(&panel).title, "Configuration load failed");
    assert_eq!(panel.feed.status, error);
    assert!(!panel.may_save());
    assert_eq!(newest(&panel).title, "Settings save blocked");
    assert_eq!(newest(&panel).id, 2);

    let mut loaded = ControlPanel::open(None);
    assert_eq!(loaded.feed.status, "Ready");
    assert!(loaded.may_save());
    loaded.on_save_failed("disk full");
    assert_eq!(loaded.feed.status, "Save failed: disk full");
}

#[test]
fn only_an_owned_daemon_is_restarted_or_stopped() {
    let mut panel = ControlPanel::open(None);
    assert_eq!(
        panel.apply_runtime_change("Settings were saved"),
        RuntimeApplyAction::RestartRequired
    );
    assert!(panel.runtime_restart_required);
    assert_eq!(
        panel.feed.status,
        "Settings were saved. Start or restart the daemon before relying on the new runtime settings."
    );
    panel.on_stop(None);
    assert_eq!(newest(&panel).title, "Daemon not owned");

    assert!(panel.may_start());
    assert!(!panel.check_port(47654, false));
    assert_eq!(
        panel.feed.status,
        "Port 47654 is already in use; NexKVM will not terminate an unowned process"
    );
    panel.on_log_failed("denied");
    assert_eq!(panel.feed.status, "Failed to open daemon log: denied");
    panel.on_start(Err("missing".into()), "log");
    assert_eq!(panel.feed.status, "Failed to start daemon: missing");
    assert!(!panel.daemon_owned);
    panel.on_start(Ok(()), "daemon.log");
    assert!(panel.daemon_owned);
    assert!(!panel.runtime_restart_required);
    assert_eq!(panel.feed.status, "Daemon started; log daemon.log");
    assert!(!panel.may_start());

    assert_eq!(
        panel.apply_runtime_change("Settings were saved"),
        RuntimeApplyAction::RestartOwned
    );
    panel.on_restart_failed("Settings were saved", "busy");
    assert!(panel.runtime_restart_required);
    assert_eq!(
        panel.feed.status,
        "Settings were saved, but the GUI-owned daemon could not stop: busy"
    );
    panel.on_stopped_for_restart();
    assert!(!panel.daemon_owned);
    assert!(panel.runtime_restart_required);
    panel.on_start(Ok(()), "daemon.log");
    panel.on_restarted("Settings were saved");
    assert!(!panel.runtime_restart_required);
    panel.on_stop(Some(Ok(())));
    assert!(!panel.daemon_owned);
    assert_eq!(panel.feed.status, "Daemon stopped gracefully");
    panel.on_stop(Some(Err("stuck".into())));
    assert_eq!(panel.feed.status, "Could not stop this window's daemon: stuck");

    panel.on_start(Ok(()), "daemon.log");
    panel.on_daemon_exit("exit status: 1", "tail".into());
    assert!(!panel.daemon_owned);
    assert_eq!(panel.section, Section::Pairing);
    assert_eq!(panel.command_output, "tail");
    assert_eq!(panel.feed.status, "Daemon exited: exit status: 1");
}

#[test]
fn commands_show_their_output_and_errors() {
    let mut panel = ControlPanel::open(None);
    panel.on_command_output(true, b"fine", b" \n", "exit status: 0");
    assert_eq!(panel.command_output, "fine");
    assert_eq!(newest(&panel).urgency, NotificationUrgency::Normal);
    panel.on_command_output(false, b"out", b"err", "exit status: 2");
    assert_eq!(panel.command_output, "out\nerr");
    assert_eq!(newest(&panel).urgency, NotificationUrgency::High);
    panel.on_command_failed("not found");
    assert_eq!(panel.feed.status, "Command failed: not found");
}

fn shown(fingerprint: &str, pinned: bool) -> ClipboardHistoryEntry {
    ClipboardHistoryEntry {
        fingerprint: fingerprint.into(),
        preview: String::new(),
        origin: String::new(),
        at_millis: 0,
        pinned,
        bytes: 0,
        formats: 0,
    }
}

#[test]
fn clearing_keeps_what_is_pinned() {
    let mut panel = ControlPanel::open(None);
    panel.on_history(Ok(vec![
        shown("a", true),
        shown("b", false),
        shown("c", true),
    ]));
    assert!(panel.clipboard_history_loaded);
    assert_eq!(panel.feed.status, "Loaded 3 clipboard history entries");
    assert_eq!(panel.clipboard_history[0].preview_text(), "[non-text clipboard item]");
    panel.clipboard_clear_armed = true;
    panel.on_cleared(&CommandEnd::Exited("exit status: 1".into()));
    assert!(!panel.clipboard_clear_armed);
    assert_eq!(panel.clipboard_history.len(), 3);
    assert_eq!(
        panel.feed.status,
        "Clipboard clear command exited: exit status: 1"
    );
    panel.on_cleared(&CommandEnd::Succeeded);
    let left: Vec<&str> = panel
        .clipboard_history
        .iter()
        .map(|entry| entry.fingerprint.as_str())
        .collect();
    assert_eq!(left, ["a", "c"]);
    panel.on_cleared(&CommandEnd::Broken("gone".into()));
    assert_eq!(
        panel.feed.status,
        "Could not start clipboard clear command: gone"
    );
    panel.on_history(Err(HistoryViewError::Malformed));
    assert_eq!(
        panel.feed.status,
        "The clipboard-history command returned malformed JSON"
    );
    panel.on_history_failed(&CommandEnd::Broken("gone".into()));
    assert_eq!(
        panel.feed.status,
        "Could not start clipboard history command: gone"
    );
    panel.on_restore_rejected("no");
    assert_eq!(newest(&panel).title, "Clipboard restore rejected");
    panel.on_restored(&CommandEnd::Succeeded);
    assert_eq!(
        panel.feed.status,
        "The selected clipboard history entry is active"
    );
    panel.on_restored(&CommandEnd::Exited("1".into()));
    assert_eq!(panel.feed.status, "Clipboard restore command exited: 1");
}

#[test]
fn dropped_files_are_sent_from_the_sharing_page_only() {
    let mut panel = ControlPanel::open(None);
    assert!(!panel.may_drop(true));
    assert_eq!(newest(&panel).title, "File drop ignored");
    panel.section = Section::Sharing;
    assert!(!panel.may_drop(false));
    assert_eq!(newest(&panel).title, "File transfer disabled");
    for count in 1..5 {
        assert!(panel.may_drop(true));
        panel.on_send(Ok(()), count);
    }
    assert_eq!(panel.feed.status, "Validating and queueing 4 local path(s)");
    assert!(!panel.may_drop(true));
    assert_eq!(newest(&panel).title, "File transfer busy");
    panel.on_send_finished(1, &CommandEnd::Succeeded);
    assert_eq!(
        panel.feed.status,
        "Queued 2 local path(s) for the selected peer"
    );
    assert_eq!(panel.pending_file_sends, [1, 3, 4]);
    panel.on_send_finished(0, &CommandEnd::Exited("1".into()));
    assert_eq!(panel.feed.status, "File transfer command exited: 1");
    panel.on_send_finished(0, &CommandEnd::Broken("lost".into()));
    assert_eq!(panel.feed.status, "Could not monitor file transfer command: lost");
    panel.on_send(Err("no program".into()), 1);
    assert_eq!(
        panel.feed.status,
        "Could not start file transfer command: no program"
    );
    panel.on_drop_rejected(DropError::Nothing);
    assert_eq!(newest(&panel).title, "File drop rejected");
}

#[test]
fn unread_notifications_are_those_above_low() {
    let mut panel = ControlPanel::open(None);
    assert_eq!(unread_count(&panel.feed.notifications), 0);
    panel.on_command_failed("x");
    assert_eq!(unread_count(&panel.feed.notifications), 1);
    panel.feed.clear();
    assert_eq!(panel.feed.notifications.len(), 1);
    assert_eq!(newest(&panel).title, "Notifications cleared");
    assert_eq!(unread_count(&panel.feed.notifications), 0);
    let mut last = u64::MAX;
    let mut list = VecDeque::new();
    record_notification(&mut list, &mut last, NotificationUrgency::High, "t", "b");
    assert_eq!(last, u64::MAX);
    assert_eq!(list.front().unwrap().id, u64::MAX);
}

#[test]
fn refused_sharing_settings_are_told() {
    let mut panel = ControlPanel::open(None);
    panel.on_sharing_refused("Download directory is too long");
    assert_eq!(panel.feed.status, "Download directory is too long");
    assert_eq!(
        panel.feed.notifications[0].title,
        "Sharing settings invalid"
    );
}

#[test]
fn a_failed_pairing_uri_leaves_none_shown() {
    let mut panel = ControlPanel::open(None);
    let uri = panel.on_pairing_uri(pairing_generation_feedback(true, b"nexkvm://pair/v1/x\n", b""));
    assert_eq!(uri, "nexkvm://pair/v1/x");
    assert_eq!(panel.command_output, "");
    let uri = panel.on_pairing_uri(pairing_generation_feedback(true, b" \n", b""));
    assert_eq!(uri, "");
    assert_eq!(panel.command_output, "Pairing URI command returned no URI");
    assert_eq!(panel.feed.status, "Pairing URI command returned no URI");
    panel.on_pairing_uri_failed("missing");
    assert_eq!(panel.feed.status, "Pairing URI failed: missing");
}

#[test]
fn clearing_takes_two_requests_and_can_be_called_off() {
    let mut panel = ControlPanel::open(None);
    assert!(!panel.on_clear_requested());
    assert!(panel.clipboard_clear_armed);
    panel.on_clear_cancelled();
    assert!(!panel.clipboard_clear_armed);
    assert!(!panel.on_clear_requested());
    assert!(panel.on_clear_requested());
    panel.on_cleared(&CommandEnd::Succeeded);
    assert!(!panel.on_clear_requested());
}
