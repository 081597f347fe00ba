use std::path::Path;

use nexkvm::admission::admit_exclusive_peer;
use nexkvm::admission::admit_input_peer;
use nexkvm::admission::admit_peer;
use nexkvm::admission::input_lane_offered;
use nexkvm::admission::InputAdmission;
use nexkvm::admission::LaneAdmission;
use nexkvm::clock::millis_since_epoch;
use nexkvm::clock::nanos_since_epoch;
use nexkvm::clock::now_millis;
use nexkvm::clock::now_nanos;
use nexkvm::clock::seconds_since_epoch;
use nexkvm::clock::unix_timestamp;
use nexkvm::daemon::configured_shutdown_signals;
use nexkvm::daemon::doctor_lines;
use nexkvm::daemon::ignored_transports;
use nexkvm::daemon::input_edge_label;
use nexkvm::daemon::input_role_label;
use nexkvm::daemon::plan_daemon;
use nexkvm::daemon::unsupported_transport_warning;
use nexkvm::daemon::usable_capability;
use nexkvm::daemon::DaemonSetup;
use nexkvm::daemon::DoctorFacts;
use nexkvm::daemon::ShutdownSignal;
use nexkvm::ids::stable_device_id;
use nexkvm::ids::DeviceId;
use nexkvm::input::HandoffEdge;
use nexkvm::input::InputRuntimePlan;
use nexkvm::input::InputRuntimeRole;
use nexkvm::leases::InputForwarderGate;
use nexkvm::leases::PeerLeases;
use nexkvm::media::audio_device_label;
use nexkvm::media::check_audio_action;
use nexkvm::media::frame_size;
use nexkvm::media::right_edge_barrier;
use nexkvm::media::source_label;
use nexkvm::media::source_resolution;
use nexkvm::media::AudioDevice;
use nexkvm::media::AudioDeviceRole;
use nexkvm::media::AudioSmokeAction;
use nexkvm::media::CaptureSource;
use nexkvm::mobile::planned_targets;
use nexkvm::mobile::OsKind;
use nexkvm::net::peer_listen_endpoint;
use nexkvm::net::validate_pairing_address;
use nexkvm::net::IpAddress;
use nexkvm::net::SocketAddress;
use nexkvm::pairing::answer_is_yes;
use nexkvm::pairing::apply_pairing_settings;
use nexkvm::pairing::approval;
use nexkvm::pairing::drawn_nonce;
use nexkvm::pairing::fresh_pairing_nonce;
use nexkvm::pairing::pairing_end;
use nexkvm::pairing::queue_pairing_request;
use nexkvm::pairing::rollback_result;
use nexkvm::pairing::Approval;
use nexkvm::pairing::PairingEnd;
use nexkvm::pairing::PairingRequest;
use nexkvm::pairing::PairingSettings;
use nexkvm::pairing::PeerPersistence;
use nexkvm::paths::archive_path;
use nexkvm::paths::config_path;
use nexkvm::paths::daemon_log_path;
use nexkvm::paths::executable_name;
use nexkvm::paths::file_name;
use nexkvm::paths::identity_path_for;
use nexkvm::paths::join;
use nexkvm::paths::parent;
use nexkvm::paths::part_path_for;
use nexkvm::paths::previous_daemon_log_path;
use nexkvm::paths::queue_directory;
use nexkvm::paths::receive_base_directory;
use nexkvm::paths::trust_path;
use nexkvm::trust::resolve_active_peer_from_entries;
use nexkvm::trust::resolve_active_peer_selection;
use nexkvm::trust::ActivePeerSelection;
use nexkvm::trust::TrustBook;
use nexkvm::trust::TrustEntry;

fn trusted(name: &str, key: u8, fingerprint: &str) -> TrustEntry {
    TrustEntry {
        display_name: name.into(),
        public_key: vec![key; 32],
        fingerprint: fingerprint.into(),
        paired_at: 1,
    }
}

#[test]
fn confirmation_accepts_only_an_explicit_yes() {
    assert!(answer_is_yes("yes"));
    assert!(answer_is_yes(" Y "));
    assert!(!answer_is_yes(""));
    assert!(!answer_is_yes("no"));
    assert!(!answer_is_yes("sure"));
}

#[test]
fn peer_endpoint_preserves_an_ipv6_scope_id() {
    let observed = SocketAddress {
        ip: IpAddress::V6 {
            address: 0xfe80_0000_0000_0000_0000_0000_0000_0001,
            scope_id: 7,
        },
        port: 55_000,
    };

    let endpoint = peer_listen_endpoint(observed, 47_654);

    assert_eq!(endpoint.port, 47_654);
    let IpAddress::V6 { scope_id, .. } = endpoint.ip else {
        panic!("expected IPv6 endpoint");
    };
    assert_eq!(scope_id, 7);
}

#[test]
fn stable_device_id_is_bound_to_the_persisted_identity_key() {
    let first = [1u8; 32];
    let same = [1u8; 32];
    let other = [2u8; 32];

    assert_eq!(stable_device_id(&first), stable_device_id(&same));
    assert_ne!(stable_device_id(&first), stable_device_id(&other));
    let bytes = stable_device_id(&first).0.to_be_bytes();
    assert_eq!(bytes[6] & 0xf0, 0x80);
    assert_eq!(bytes[8] & 0xc0, 0x80);
}

#[test]
fn configured_active_peer_rejects_other_authenticated_connections() {
    let selected = vec![1u8; 32];
    let other = vec![2u8; 32];
    let policy = ActivePeerSelection::Only(selected.clone());

    assert!(policy.allows(Some(&selected)));
    assert!(!policy.allows(Some(&other)));
    assert!(!policy.allows(None));
    assert!(!ActivePeerSelection::Unresolved("missing".into()).allows(Some(&selected)));
    assert!(ActivePeerSelection::AnyTrusted.allows(Some(&other)));
    assert!(!ActivePeerSelection::AnyTrusted.allows(None));
    assert_eq!(policy.label(), "selected trusted peer");
    assert_eq!(ActivePeerSelection::AnyTrusted.label(), "auto");
}

#[test]
fn unmatched_configured_peer_never_falls_back_to_the_only_trusted_entry() {
    let only = trusted("studio-mac", 7, "0707");
    let selection = resolve_active_peer_from_entries("different-device", &vec![only]);
    assert!(
        matches!(selection, ActivePeerSelection::Unresolved(label) if label == "different-device")
    );
}

#[test]
fn peers_are_selected_by_name_or_fingerprint() {
    let entries = vec![trusted("Studio", 1, "AbCd"), trusted("Desk", 2, "studio")];
    let by_name = resolve_active_peer_selection(Some(" sTUDIO "), Some(&entries));
    assert!(matches!(by_name, ActivePeerSelection::Only(key) if key == vec![1u8; 32]));
    let by_fingerprint = resolve_active_peer_selection(Some("ABCD"), Some(&entries));
    assert!(matches!(by_fingerprint, ActivePeerSelection::Only(key) if key == vec![1u8; 32]));
    assert!(matches!(
        resolve_active_peer_selection(Some("  "), None),
        ActivePeerSelection::AnyTrusted
    ));
    assert!(matches!(
        resolve_active_peer_selection(None, Some(&entries)),
        ActivePeerSelection::AnyTrusted
    ));
    let unread = resolve_active_peer_selection(Some("Studio"), None);
    assert_eq!(unread.label(), "Studio");
    assert!(!unread.allows(Some(&vec![1u8; 32])));
}

#[test]
fn pairing_nonces_are_fresh_csprng_values() {
    let first = fresh_pairing_nonce(16).unwrap();
    let second = fresh_pairing_nonce(16).unwrap();
    assert_ne!(first, second);
    assert!(first.iter().any(|byte| *byte != 0));
    assert_eq!(first.len(), 16);
}

#[test]
fn a_nonce_is_what_was_drawn() {
    assert_eq!(drawn_nonce(true, vec![1, 2, 3]), Ok(vec![1, 2, 3]));
    assert_eq!(drawn_nonce(false, vec![1, 2, 3]), Err(()));
    assert_eq!(fresh_pairing_nonce(0), Ok(vec![]));
    assert_eq!(fresh_pairing_nonce(33).unwrap().len(), 33);
}

#[test]
fn graceful_shutdown_plan_includes_gui_sigterm_on_unix() {
    assert!(configured_shutdown_signals(true).contains(&ShutdownSignal::Interrupt));
    assert!(configured_shutdown_signals(true).contains(&ShutdownSignal::Terminate));
    assert_eq!(configured_shutdown_signals(false), [ShutdownSignal::Interrupt]);
}

#[test]
fn addresses_the_other_device_cannot_dial_are_refused() {
    let v4 = |bytes: [u8; 4], port: u16| {
        Some(SocketAddress {
            ip: IpAddress::V4(u32::from_be_bytes(bytes)),
            port,
        })
    };
    let v6 = |address: u128| {
        Some(SocketAddress {
            ip: IpAddress::V6 { address, scope_id: 0 },
            port: 47654,
        })
    };
    for refused in [
        None,
        v4([127, 0, 0, 1], 47654),
        v4([0, 0, 0, 0], 47654),
        v4([224, 0, 0, 1], 47654),
        v4([239, 255, 255, 255], 47654),
        v4([255, 255, 255, 255], 47654),
        v4([192, 168, 1, 20], 0),
        v6(0),
        v6(1),
        v6(0xff02_0000_0000_0000_0000_0000_0000_0001),
    ] {
        assert_eq!(
            validate_pairing_address(refused).unwrap_err().message(),
            "pairing address must be a reachable non-loopback unicast IP:port for this Mac"
        );
    }
    for accepted in [
        v4([192, 168, 1, 20], 47654),
        v4([126, 0, 0, 1], 1),
        v4([223, 0, 0, 1], 1),
        v6(0xfe80_0000_0000_0000_0000_0000_0000_0001),
    ] {
        assert_eq!(Some(validate_pairing_address(accepted).unwrap()), accepted);
    }
}

#[test]
fn pairing_again_replaces_the_entry_of_the_key() {
    let listed = vec![trusted("a", 1, "f1"), trusted("b", 2, "f2"), trusted("a2", 1, "f1")];
    let mut book = TrustBook::from_entries(&listed);
    assert_eq!(book.get(&vec![1; 32]).unwrap().display_name, "a2");
    book.insert(trusted("b2", 2, "f2"));
    let mut names: Vec<String> =
        book.to_entries().into_iter().map(|entry| entry.display_name).collect();
    names.sort();
    assert_eq!(names, ["a2", "b2"]);
    assert!(TrustBook::new().to_entries().is_empty());
}

#[test]
fn approved_pairing_persists_settings_and_can_roll_back() {
    let mut book = TrustBook::new();
    book.insert(trusted("old", 1, "f1"));
    let mut settings = PairingSettings {
        connect_addr: Some("192.168.1.10:47654".into()),
        active_peer: Some("old-peer".into()),
    };
    let applied = apply_pairing_settings(
        &mut book,
        &mut settings,
        trusted("peer", 2, "f2"),
        "192.168.1.20:47654",
    );
    assert_eq!(settings.connect_addr.as_deref(), Some("192.168.1.20:47654"));
    assert_eq!(settings.active_peer.as_deref(), Some("f2"));
    assert_eq!(book.get(&vec![2; 32]).unwrap().display_name, "peer");
    applied.rollback(&mut book, &mut settings);
    assert!(book.get(&vec![2; 32]).is_none());
    assert_eq!(book.get(&vec![1; 32]).unwrap().display_name, "old");
    assert_eq!(settings.connect_addr.as_deref(), Some("192.168.1.10:47654"));
    assert_eq!(settings.active_peer.as_deref(), Some("old-peer"));

    let replaced =
        apply_pairing_settings(&mut book, &mut settings, trusted("renamed", 1, "f1"), "x");
    assert_eq!(book.get(&vec![1; 32]).unwrap().display_name, "renamed");
    replaced.rollback(&mut book, &mut settings);
    assert_eq!(book.get(&vec![1; 32]).unwrap().display_name, "old");
    book.remove(&vec![1; 32]);
    assert!(book.get(&vec![1; 32]).is_none());
}

#[test]
fn a_pairing_stands_only_if_both_sides_agree_and_persist() {
    assert_eq!(approval(true, true), Approval::Proceed);
    assert_eq!(approval(false, true), Approval::CancelledLocally);
    assert_eq!(approval(true, false), Approval::RejectedByPeer);
    assert_eq!(
        pairing_end(true, PeerPersistence::Persisted),
        PairingEnd::Complete
    );
    assert_eq!(
        pairing_end(true, PeerPersistence::NotPersisted),
        PairingEnd::UndoPeerFailed
    );
    assert_eq!(
        pairing_end(true, PeerPersistence::Unconfirmed),
        PairingEnd::UndoUnconfirmed
    );
    assert_eq!(
        pairing_end(false, PeerPersistence::Persisted),
        PairingEnd::Failed
    );
    assert_eq!(rollback_result(&vec![]), Ok(()));
    assert_eq!(
        rollback_result(&vec!["a".into(), "b".into()]),
        Err("a; b".into())
    );
    assert_eq!(queue_pairing_request(true, 0), PairingRequest::Queued);
    assert_eq!(queue_pairing_request(true, 1), PairingRequest::AnotherActive);
    assert_eq!(
        queue_pairing_request(false, 0),
        PairingRequest::ResponderStopped
    );
}

#[test]
fn unsupported_transports_are_named_once_and_in_order() {
    let names = |list: &[&str]| -> Vec<String> { list.iter().map(|n| n.to_string()).collect() };
    assert_eq!(unsupported_transport_warning(&names(&["tcp", " TCP ", ""])), None);
    assert_eq!(
        unsupported_transport_warning(&names(&["QUIC", "tcp", " ble", "quic", "BLE "])).unwrap(),
        "unsupported configured transports ignored: ble,quic; effective transport: tcp"
    );
    assert_eq!(
        ignored_transports(&names(&["z", "a", "Z"])),
        names(&["a", "z"])
    );
}

fn setup() -> DaemonSetup {
    DaemonSetup {
        role: InputRuntimeRole::Both,
        can_capture_input: true,
        can_inject_input: false,
        input_lane_supported: true,
        can_access_clipboard: true,
        clipboard_lane_supported: true,
        sync_enabled: true,
        history_enabled: true,
        file_transfer_enabled: false,
        transport_bound: true,
        connect_addr: Some(" 192.168.1.27:47654 ".into()),
        enable_discovery: true,
    }
}

#[test]
fn the_daemon_starts_what_is_configured_and_possible() {
    let plan = plan_daemon(&setup());
    assert!(plan.input.start_capture_forwarder && !plan.input.start_inject_receiver);
    assert!(!plan.permissions_ready);
    assert!(plan.input_lane && plan.clipboard_lane && !plan.file_transfer_lane);
    assert!(plan.open_history && plan.poll_history && plan.accept_connections);
    assert_eq!(plan.dial.as_deref(), Some("192.168.1.27:47654"));
    assert!(!plan.dial_impossible && plan.discovery);

    let mut unbound = setup();
    unbound.transport_bound = false;
    let plan = plan_daemon(&unbound);
    assert_eq!(plan.dial, None);
    assert!(plan.dial_impossible && !plan.accept_connections);

    let mut blank = setup();
    blank.connect_addr = Some("  ".into());
    blank.can_access_clipboard = false;
    let plan = plan_daemon(&blank);
    assert_eq!(plan.dial, None);
    assert!(!plan.dial_impossible && !plan.clipboard_lane && !plan.poll_history);
    assert!(usable_capability(true, false) && !usable_capability(true, true));
}

#[test]
fn the_diagnostics_are_printed_in_order() {
    let mut facts = DoctorFacts {
        os: "MacOs".into(),
        config_path: "/c".into(),
        device_name: "mac".into(),
        enable_discovery: true,
        connect_addr: None,
        transports: vec!["quic".into()],
        runtime: vec!["role: source".into()],
        plugins_enabled: false,
        unified_desktop: true,
        shared_cursor: false,
        integrations: None,
    };
    assert_eq!(
        doctor_lines(&facts),
        [
            "nexkvm doctor",
            "  os: MacOs",
            "  config: /c",
            "  device name: mac",
            "  discovery: true",
            "  explicit connect: disabled",
            "  effective transport: tcp",
            "  unsupported configured transports ignored: quic; effective transport: tcp",
            "  pairing policy: required (authenticated trusted peers only)",
            "  role: source",
            "  plugins enabled: false",
            "  workspace unified desktop: true",
            "  collaboration shared cursor: false",
            "  platform capabilities: headless/unsupported OS",
        ]
    );
    facts.transports = vec![" TCP ".into()];
    assert_eq!(doctor_lines(&facts).len(), 13);
    assert_eq!(input_role_label(InputRuntimeRole::Both), "both");
    assert_eq!(input_edge_label(HandoffEdge::Bottom), "bottom");
}

#[test]
fn lanes_admit_selected_authenticated_others() {
    let local = stable_device_id(&[9; 32]);
    let any = ActivePeerSelection::AnyTrusted;
    let peer = vec![1u8; 32];
    assert_eq!(admit_peer(&any, None, local), LaneAdmission::Unauthenticated);
    assert_eq!(
        admit_peer(&any, Some(&vec![9u8; 32]), local),
        LaneAdmission::SelfIdentity
    );
    assert_eq!(
        admit_peer(&ActivePeerSelection::Only(vec![2; 32]), Some(&peer), local),
        LaneAdmission::NotSelected
    );
    assert_eq!(
        admit_peer(&any, Some(&peer), local),
        LaneAdmission::Admitted(stable_device_id(&[1; 32]))
    );
    let mut leases = PeerLeases::new();
    assert!(matches!(
        admit_exclusive_peer(&any, Some(&peer), local, &mut leases),
        LaneAdmission::Admitted(_)
    ));
    assert_eq!(
        admit_exclusive_peer(&any, Some(&peer), local, &mut leases),
        LaneAdmission::AlreadyActive
    );
    assert_eq!(
        admit_exclusive_peer(&any, Some(&vec![9u8; 32]), local, &mut leases),
        LaneAdmission::SelfIdentity
    );
    leases.release(&peer);
    assert!(matches!(
        admit_exclusive_peer(&any, Some(&peer), local, &mut leases),
        LaneAdmission::Admitted(_)
    ));
}

#[test]
fn one_connection_at_a_time_takes_the_input() {
    let plan = InputRuntimePlan {
        start_capture_forwarder: true,
        start_inject_receiver: false,
    };
    let any = ActivePeerSelection::AnyTrusted;
    let peer = vec![1u8; 32];
    let mut gate = InputForwarderGate::new();
    assert!(input_lane_offered(plan));
    assert_eq!(
        admit_input_peer(plan, &any, None, &mut gate),
        InputAdmission::Rejected
    );
    assert_eq!(
        admit_input_peer(plan, &any, Some(&peer), &mut gate),
        InputAdmission::Start {
            inject: false,
            forward: true
        }
    );
    assert_eq!(
        admit_input_peer(plan, &any, Some(&peer), &mut gate),
        InputAdmission::CloseDuplicate
    );
    let receiver = InputRuntimePlan {
        start_capture_forwarder: false,
        start_inject_receiver: true,
    };
    assert_eq!(
        admit_input_peer(receiver, &any, Some(&peer), &mut gate),
        InputAdmission::Start {
            inject: true,
            forward: false
        }
    );
}

#[test]
fn files_lie_beside_the_configuration() {
    let config = "/home/u/.config/nexkvm/config.toml";
    assert_eq!(
        archive_path(config, false),
        "/home/u/.config/nexkvm/clipboard-history.enc"
    );
    assert_eq!(
        queue_directory(config, false),
        "/home/u/.config/nexkvm/file-transfer-queue"
    );
    assert_eq!(
        identity_path_for(config, false),
        "/home/u/.config/nexkvm/identity.json"
    );
    assert_eq!(trust_path(config, false), "/home/u/.config/nexkvm/trust.json");
    assert_eq!(daemon_log_path(config, false), "/home/u/.config/nexkvm/daemon.log");
    assert_eq!(archive_path("config.toml", false), "clipboard-history.enc");
    assert_eq!(archive_path("", false), "clipboard-history.enc");
    assert_eq!(queue_directory("", false), "./file-transfer-queue");
    assert_eq!(daemon_log_path("/", false), "nexkvm-daemon.log");
}

/// Whether the paths of the library agree with those of the standard library.
#[test]
fn paths_agree_with_the_platform() {
    for text in [
        "", "/", "a", "a/b", "/a", "/a/b.log", "a//b", "a/b/", "a/./b", "a/b/.", ".", "..", "a/..",
        "a/.hidden", "./x.y.z", "/a//", "//a", "/.", "a.b", ".profile", "x.", "é/ü.log",
    ] {
        let path = Path::new(text);
        let beside = |name: &str| -> String {
            path.parent()
                .map(|parent| parent.join(name).to_str().unwrap().to_owned())
                .unwrap_or_else(|| name.to_owned())
        };
        assert_eq!(archive_path(text, false), beside("clipboard-history.enc"), "{text:?}");
        let previous = path.with_extension("log.previous");
        assert_eq!(
            Path::new(&previous_daemon_log_path(text, false)),
            previous.as_path(),
            "{text:?}"
        );
        let part = path.file_name().map(|name| {
            let mut part = name.to_os_string();
            part.push(".part");
            path.with_file_name(part)
        });
        match (part_path_for(text, false), part) {
            (Ok(mine), Some(theirs)) => assert_eq!(Path::new(&mine), theirs, "{text:?}"),
            (mine, theirs) => assert_eq!(mine.is_err(), theirs.is_none(), "{text:?}"),
        }
    }
}

#[test]
fn windows_paths_are_split_at_both_separators() {
    for (path, directory, name) in [
        ("C:\\a\\b", Some("C:\\a"), Some("b")),
        ("C:/a\\b", Some("C:/a"), Some("b")),
        ("C:\\a", Some("C:\\"), Some("a")),
        ("C:\\", None, None),
        ("C:a", Some("C:"), Some("a")),
        ("C:", None, None),
        ("a\\b\\", Some("a"), Some("b")),
        ("a", Some(""), Some("a")),
        ("a\\..", Some("a"), None),
        ("\\a", Some("\\"), Some("a")),
        ("\\\\server\\share\\a", Some("\\\\server\\share\\"), Some("a")),
        ("\\\\server\\share\\", None, None),
        ("\\\\?\\C:\\a/b", Some("\\\\?\\C:\\"), Some("a/b")),
        ("\\\\?\\C:\\a\\b", Some("\\\\?\\C:\\a"), Some("b")),
    ] {
        assert_eq!(parent(path, true).as_deref(), directory, "{path:?}");
        assert_eq!(file_name(path, true).as_deref(), name, "{path:?}");
    }
    assert_eq!(parent("C:\\a\\b", false).as_deref(), Some(""));
    assert_eq!(file_name("C:\\a\\b", false).as_deref(), Some("C:\\a\\b"));
}

#[test]
fn windows_paths_are_joined_with_backslashes() {
    for (directory, path, joined) in [
        ("C:\\a", "b", "C:\\a\\b"),
        ("C:\\a\\", "b", "C:\\a\\b"),
        ("C:/a/", "b/c", "C:/a/b/c"),
        ("C:", "b", "C:b"),
        ("C:\\a", "D:\\in", "D:\\in"),
        ("C:\\a", "D:in", "D:in"),
        ("C:\\a", "\\in", "C:\\in"),
        ("", "b", "b"),
        ("\\\\?\\C:\\x", "a/b", "\\\\?\\C:\\x\\a\\b"),
        ("\\\\?\\C:\\x", "..\\b", "\\\\?\\C:\\b"),
    ] {
        assert_eq!(join(directory, path, true), joined, "{directory:?} {path:?}");
    }
    assert_eq!(join("a", "b", false), "a/b");
}

#[test]
fn files_lie_beside_the_configuration_on_windows_too() {
    let config = "C:\\Users\\u\\AppData\\Roaming\\nexkvm\\config.toml";
    assert_eq!(config_path(true, false, Some("C:\\Users\\u\\AppData\\Roaming"), None, None, None), config);
    assert_eq!(
        archive_path(config, true),
        "C:\\Users\\u\\AppData\\Roaming\\nexkvm\\clipboard-history.enc"
    );
    assert_eq!(
        trust_path(config, true),
        "C:\\Users\\u\\AppData\\Roaming\\nexkvm\\trust.json"
    );
    assert_eq!(
        previous_daemon_log_path("C:\\a.b\\daemon.log", true),
        "C:\\a.b\\daemon.log.previous"
    );
    assert_eq!(part_path_for("C:\\in\\f.txt", true).as_deref(), Ok("C:\\in\\f.txt.part"));
    assert!(part_path_for("C:\\", true).is_err());
    assert_eq!(
        receive_base_directory("C:\\c\\config.toml", Some("in"), "C:\\d", true),
        "C:\\c\\in"
    );
    assert_eq!(
        receive_base_directory("C:\\c\\config.toml", Some("D:\\in"), "C:\\d", true),
        "D:\\in"
    );
}

#[test]
fn directories_come_from_the_environment() {
    assert_eq!(
        config_path(false, false, None, None, Some("/x"), Some("/h")),
        "/x/nexkvm/config.toml"
    );
    assert_eq!(
        config_path(false, false, None, None, None, Some("/h")),
        "/h/.config/nexkvm/config.toml"
    );
    assert_eq!(
        config_path(false, true, None, None, None, Some("/h")),
        "/h/Library/Application Support/nexkvm/config.toml"
    );
    assert_eq!(
        config_path(true, false, None, Some("p"), Some("/x"), Some("/h")),
        "p\\AppData\\Roaming\\nexkvm\\config.toml"
    );
    assert_eq!(
        config_path(false, false, None, None, None, None),
        "./nexkvm/config.toml"
    );
    assert_eq!(
        receive_base_directory("/c/config.toml", Some(" in "), "/d", false),
        "/c/in"
    );
    assert_eq!(
        receive_base_directory("/c/config.toml", Some(" /abs "), "/d", false),
        "/abs"
    );
    assert_eq!(receive_base_directory("/c/config.toml", Some(" "), "/d", false), "/d");
    assert_eq!(receive_base_directory("/c/config.toml", None, "/d", false), "/d");
    assert_eq!(
        receive_base_directory("C:/c/config.toml", Some("D:\\in"), "/d", true),
        "D:\\in"
    );
    assert_eq!(executable_name("nexkvm", true), "nexkvm.exe");
    assert_eq!(executable_name("nexkvm", false), "nexkvm");
}

#[test]
fn times_saturate_and_go_forward() {
    assert_eq!(millis_since_epoch(None), 0);
    assert_eq!(millis_since_epoch(Some((2, 3_999_999))), 2_003);
    assert_eq!(millis_since_epoch(Some((u64::MAX, 0))), u64::MAX);
    assert_eq!(nanos_since_epoch(Some((2, 5))), 2_000_000_005);
    assert_eq!(nanos_since_epoch(Some((u64::MAX, 0))), u64::MAX);
    assert_eq!(nanos_since_epoch(None), 0);
    assert_eq!(seconds_since_epoch(Some((7, 1))), Ok(7));
    assert_eq!(seconds_since_epoch(None), Err(()));
    let first = now_millis();
    assert!(first > 1_600_000_000_000);
    assert!(now_nanos() / 1_000_000 >= first);
    assert!(unix_timestamp().unwrap() >= first / 1000);
}

#[test]
fn audio_actions_need_enumerated_devices_of_the_right_role() {
    let device = |id: &str, role: AudioDeviceRole| AudioDevice {
        id: id.into(),
        label: format!("{id} label"),
        role,
        is_default: true,
    };
    let devices = vec![
        device("mic", AudioDeviceRole::Capture),
        device("speaker", AudioDeviceRole::Playback),
        device("headset", AudioDeviceRole::Duplex),
    ];
    assert_eq!(
        audio_device_label(&devices[0]),
        "mic role=capture default=true label=mic label"
    );
    let set = |id: &str| Some(AudioSmokeAction::SetDefault(id.into()));
    let capture = |id: &str| Some(AudioSmokeAction::CaptureFrame(id.into()));
    assert!(check_audio_action(&devices, &None).is_ok());
    assert!(check_audio_action(&devices, &set("speaker")).is_ok());
    assert!(check_audio_action(&devices, &capture("headset")).is_ok());
    assert_eq!(
        check_audio_action(&devices, &set("mic")).unwrap_err().message(),
        "audio device `mic` has role Capture, expected one of [Playback, Duplex]"
    );
    assert_eq!(
        check_audio_action(&devices, &capture("speaker"))
            .unwrap_err()
            .message(),
        "audio device `speaker` has role Playback, expected one of [Capture, Duplex]"
    );
    let loopback = Some(AudioSmokeAction::Loopback {
        source: "nothing".into(),
        sink: "mic".into(),
    });
    assert_eq!(
        check_audio_action(&devices, &loopback).unwrap_err().message(),
        "audio device `nothing` was not enumerated"
    );
    let loopback = Some(AudioSmokeAction::Loopback {
        source: "mic".into(),
        sink: "headset".into(),
    });
    assert!(check_audio_action(&devices, &loopback).is_ok());
}

#[test]
fn capture_sources_tell_their_size() {
    let display = |id: &str| CaptureSource::Display {
        id: id.into(),
        label: "Main".into(),
    };
    assert_eq!(source_label(&display("x")), "Main");
    assert_eq!(
        source_resolution(&display("pipewire:7@1920x1080")),
        Some((1920, 1080))
    );
    assert_eq!(source_resolution(&display("a@1x2@+3x4")), Some((3, 4)));
    for id in ["plain", "a@b", "a@1x", "a@x2", "a@1x2x3", "a@-1x2", "a@4294967296x1", "a@+x1"] {
        assert_eq!(source_resolution(&display(id)), None, "{id}");
    }
    assert_eq!(
        source_resolution(&CaptureSource::Window {
            id: "w@4294967295x0".into(),
            title: "T".into()
        }),
        Some((u32::MAX, 0))
    );
    assert_eq!(DeviceId(1), DeviceId(1));
}

/// Reads an address as the platform does.
fn parse_address(text: &str) -> Option<SocketAddress> {
    let (host, port) = text.rsplit_once(':')?;
    let port: u16 = port.parse().ok()?;
    if let Some(inner) = host.strip_prefix('[').and_then(|h| h.strip_suffix(']')) {
        let address = if inner == "::1" { 1 } else { return None };
        let ip = IpAddress::V6 {
            address,
            scope_id: 0,
        };
        return Some(SocketAddress { ip, port });
    }
    let mut bytes = [0u8; 4];
    let mut parts = host.split('.');
    for byte in &mut bytes {
        *byte = parts.next()?.parse().ok()?;
    }
    parts.next().is_none().then_some(SocketAddress {
        ip: IpAddress::V4(u32::from_be_bytes(bytes)),
        port,
    })
}

#[test]
fn pairing_uri_rejects_addresses_the_other_mac_cannot_dial() {
    for address in [
        "127.0.0.1:47654",
        "[::1]:47654",
        "0.0.0.0:47654",
        "192.168.1.40:0",
        "studio-mac.local:47654",
    ] {
        let refused = validate_pairing_address(parse_address(address)).unwrap_err();
        assert!(
            refused
                .message()
                .contains("reachable non-loopback unicast IP:port"),
            "unexpected error for {address}"
        );
    }
    assert!(validate_pairing_address(parse_address("192.168.1.40:47654")).is_ok());
}

fn doctor_output(transports: &[&str]) -> String {
    let facts = DoctorFacts {
        os: "Linux".into(),
        config_path: "/c".into(),
        device_name: "d".into(),
        enable_discovery: true,
        connect_addr: None,
        transports: transports.iter().map(|name| name.to_string()).collect(),
        runtime: vec![],
        plugins_enabled: false,
        unified_desktop: false,
        shared_cursor: false,
        integrations: Some(vec!["  input: Available".into()]),
    };
    doctor_lines(&facts).join("\n")
}

#[test]
fn doctor_reports_the_effective_required_pairing_policy() {
    let stdout = doctor_output(&["tcp"]);
    assert!(stdout.contains("pairing policy: required"));
    assert!(!stdout.contains("require pairing: false"));
    assert!(!stdout.contains("opened settings"));
}

#[test]
fn doctor_reports_effective_tcp_and_warns_about_unsupported_preferences() {
    let stdout = doctor_output(&["quic", "tcp"]);
    assert!(stdout.contains("effective transport: tcp"));
    assert!(stdout.contains("unsupported configured transports ignored: quic"));
    assert!(!stdout.contains("transports: quic,tcp"));
}

#[test]
fn the_companion_is_planned_for_phones() {
    assert_eq!(planned_targets(), [OsKind::Android, OsKind::Ios]);
}

#[test]
fn frames_and_barriers_follow_the_source() {
    let display = |id: &str| CaptureSource::Display {
        id: id.into(),
        label: "Main".into(),
    };
    assert_eq!(frame_size(&display("a@10x20")), (10, 20));
    assert_eq!(frame_size(&display("a")), (1920, 1080));
    assert_eq!(right_edge_barrier(100, 50, 1920, 1080), (2019, 50, 1129));
    assert_eq!(right_edge_barrier(-5, -6, 0, 0), (-5, -6, -6));
    assert_eq!(
        right_edge_barrier(0, 0, u32::MAX, 1),
        (i32::MAX, 0, 0)
    );
}
