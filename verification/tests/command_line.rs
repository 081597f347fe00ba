use nexkvm::cli::format_device_list;
use nexkvm::cli::format_input_alpha_runtime;
use nexkvm::cli::format_macos_input_report;
use nexkvm::cli::format_native_integrations;
use nexkvm::cli::format_pairing;
use nexkvm::cli::format_pairing_accepted;
use nexkvm::cli::help_text;
use nexkvm::cli::parse;
use nexkvm::cli::BootstrapSummary;
use nexkvm::cli::Command;
use nexkvm::cli::IntegrationAvailability;
use nexkvm::cli::Invocation;
use nexkvm::cli::NativeIntegrationReport;
use nexkvm::fingerprint::normalize_fingerprint;
use nexkvm::fingerprint::parse_fingerprint;
use nexkvm::trust::TrustEntry;

fn run(args: &[&str]) -> Result<Invocation, String> {
    parse(args.iter().map(|arg| arg.to_string()).collect())
}

fn entry(name: &str, key: &[u8], paired_at: u64) -> TrustEntry {
    TrustEntry {
        display_name: name.into(),
        public_key: key.to_vec(),
        fingerprint: key.iter().map(|byte| format!("{byte:02x}")).collect(),
        paired_at,
    }
}

#[test]
fn no_args_runs_the_daemon() {
    let parsed = parse(Vec::<String>::new()).unwrap();
    assert_eq!(parsed.command, Command::Run);
    assert!(!parsed.debug);
}

#[test]
fn debug_flag_is_position_independent() {
    let before = run(&["--debug", "devices"]).unwrap();
    let after = run(&["devices", "--debug"]).unwrap();
    assert_eq!(before.command, Command::Devices);
    assert_eq!(after.command, Command::Devices);
    assert!(before.debug && after.debug);
}

#[test]
fn pair_requires_a_uri() {
    assert!(run(&["pair"]).is_err());
    let parsed = run(&["pair", "nexkvm://pair/v1/00"]).unwrap();
    assert_eq!(
        parsed.command,
        Command::Pair {
            uri: "nexkvm://pair/v1/00".into(),
            accept: false,
        }
    );
}

#[test]
fn pair_accept_flag_is_position_independent() {
    let before = run(&["pair", "--accept", "nexkvm://pair/v1/00"]).unwrap();
    let after = run(&["pair", "nexkvm://pair/v1/00", "--accept"]).unwrap();
    assert_eq!(
        before.command,
        Command::Pair {
            uri: "nexkvm://pair/v1/00".into(),
            accept: true,
        }
    );
    assert_eq!(before, after);
}

#[test]
fn pairing_uri_requires_one_addr() {
    assert!(run(&["pairing-uri"]).is_err());
    assert!(run(&["pairing-uri", "a", "b"]).is_err());
    assert_eq!(
        run(&["pairing-uri", "192.168.1.40:47654"]).unwrap().command,
        Command::PairingUri {
            addr: "192.168.1.40:47654".into()
        }
    );
}

#[test]
fn unknown_command_is_rejected() {
    assert!(run(&["frobnicate"]).is_err());
}

#[test]
fn permissions_command_is_parsed() {
    assert_eq!(run(&["permissions"]).unwrap().command, Command::Permissions);
    assert!(help_text().contains("nexkvm permissions"));
}

#[test]
fn portal_smoke_command_is_parsed() {
    assert_eq!(run(&["portal-smoke"]).unwrap().command, Command::PortalSmoke);
    assert!(help_text().contains("nexkvm portal-smoke"));
}

#[test]
fn simulate_takes_optional_path() {
    assert_eq!(
        run(&["simulate"]).unwrap().command,
        Command::Simulate {
            path: None,
            json_only: false,
        }
    );
    assert_eq!(
        run(&["simulate", "a.toml"]).unwrap().command,
        Command::Simulate {
            path: Some("a.toml".into()),
            json_only: false,
        }
    );
}

#[test]
fn simulate_json_only_flag_is_supported() {
    assert_eq!(
        run(&["simulate", "--simulate-json-only"]).unwrap().command,
        Command::Simulate {
            path: None,
            json_only: true,
        }
    );
    assert_eq!(
        run(&["simulate", "--json-only", "a.toml"]).unwrap().command,
        Command::Simulate {
            path: Some("a.toml".into()),
            json_only: true,
        }
    );
    assert!(run(&["simulate", "a.toml", "b.toml"]).is_err());
}

#[test]
fn empty_device_list_is_reported() {
    assert_eq!(format_device_list(&Vec::new()), "no trusted devices paired");
}

#[test]
fn device_list_includes_fingerprint_and_name() {
    let entries = vec![
        entry("laptop", &[1, 2, 3], 1_700_000_000),
        entry("phone", &[9, 9], 1_700_000_500),
    ];
    let rendered = format_device_list(&entries);
    assert!(rendered.starts_with("2 trusted device(s):"));
    assert!(rendered.contains("laptop"));
    assert!(rendered.contains("phone"));
    assert!(rendered.contains(&entries[0].fingerprint));
    assert!(!rendered.ends_with('\n'));
    assert_eq!(
        rendered,
        "2 trusted device(s):\n  010203  laptop  (paired_at=1700000000)\n  0909  phone  (paired_at=1700000500)"
    );
}

#[test]
fn pairing_summary_shows_fingerprint() {
    let bootstrap = BootstrapSummary {
        display_name: "studio-mac".into(),
        addr: "192.168.1.5:47654".into(),
        fingerprint: "07070707".into(),
    };
    let rendered = format_pairing(&bootstrap);
    assert!(rendered.contains("studio-mac"));
    assert!(rendered.contains("192.168.1.5:47654"));
    assert!(rendered.contains(&bootstrap.fingerprint));
    assert_eq!(
        rendered,
        "pairing bootstrap\n  name: studio-mac\n  addr: 192.168.1.5:47654\n  fingerprint: 07070707\n\nConfirm this fingerprint matches the other device before accepting."
    );
}

#[test]
fn pairing_acceptance_summary_shows_persisted_entry() {
    let entry = entry("studio-mac", &[7, 7, 7, 7], 1_700_000_000);
    let rendered = format_pairing_accepted(&entry);
    assert!(rendered.contains("trusted device accepted"));
    assert!(rendered.contains("studio-mac"));
    assert!(rendered.contains(&entry.fingerprint));
    assert!(
        rendered.contains("paired_at=1700000000") || rendered.contains("paired_at: 1700000000")
    );
}

#[test]
fn native_integration_report_is_formatted_for_doctor() {
    let rendered = format_native_integrations(&NativeIntegrationReport {
        os: "MacOs".into(),
        integrations: vec![
            IntegrationAvailability {
                integration: "input-capture".into(),
                status: "permission-required".into(),
            },
            IntegrationAvailability {
                integration: "clipboard".into(),
                status: "unsupported".into(),
            },
        ],
    });

    assert!(rendered.contains("native integrations: MacOs"));
    assert!(rendered.contains("input-capture: permission-required"));
    assert!(rendered.contains("clipboard: unsupported"));
    assert!(rendered.ends_with("unsupported"));
}

#[test]
fn macos_input_report_includes_next_step_when_permission_missing() {
    let rendered = format_macos_input_report(
        "permission-required",
        false,
        false,
        Some(
            "Grant Accessibility permission in System Settings > Privacy & Security > Accessibility",
        ),
    );

    assert!(rendered.contains("macOS input accessibility: permission-required"));
    assert!(rendered.contains("capture ready: false"));
    assert!(rendered.contains("inject ready: false"));
    assert!(rendered.contains("Grant Accessibility permission"));
    assert!(rendered.contains("System Settings"));
    assert!(rendered.contains("restart nexkvm after granting permission"));
}

#[test]
fn macos_input_report_stops_at_the_settings_when_everything_is_granted() {
    assert_eq!(
        format_macos_input_report("ready", true, true, None),
        "macOS input accessibility: ready\n  capture ready: true\n  inject ready: true\n  settings: System Settings > Privacy & Security > Accessibility"
    );
}

#[test]
fn help_lists_the_subcommands() {
    let help = help_text();
    assert!(help.contains("nexkvm devices"));
    assert!(help.contains("nexkvm pair [--accept] <uri>"));
    assert!(help.contains("nexkvm pair-auto --peer <host:port>"));
    assert!(help.contains("nexkvm permissions"));
    assert!(help.contains("nexkvm pipewire-smoke"));
    assert!(help.contains("--debug"));
    for word in ["help", "--help", "-h"] {
        assert_eq!(run(&[word]).unwrap().command, Command::Help);
    }
}

#[test]
fn the_input_runtime_is_reported_in_lines() {
    let text = format_input_alpha_runtime("source", None, "right", 41, 250, Some("h:1"), true);
    assert_eq!(
        text,
        "input role: source\nactive peer: auto\nhandoff edge: right\nemergency stop key: 41\nremote focus timeout: 250 ms\nconnect address: h:1\nclipboard sync: true"
    );
}

#[test]
fn the_usage_shows_the_words_that_are_known() {
    let text = help_text();
    let shown: Vec<&str> = text
        .lines()
        .filter_map(|line| line.strip_prefix("  nexkvm "))
        .filter_map(|line| line.split_whitespace().next())
        .filter(|word| *word != "[--debug]")
        .collect();
    assert_eq!(shown.len(), 16);
    for word in shown {
        let known = match run(&[word]) {
            Ok(_) => true,
            Err(message) => !message.starts_with("unknown command"),
        };
        assert!(known, "{word}");
    }
    assert!(text.starts_with("nexkvm developer CLI\n\nUSAGE:\n  nexkvm [--debug]            Run"));
    assert!(text.contains("\n  nexkvm devices             List trusted (paired) devices\n"));
    assert!(text.ends_with("\nFLAGS:\n  --debug                   Raise log verbosity to debug\n"));
}

#[test]
fn every_subcommand_is_parsed() {
    let expected = [
        ("doctor", Command::Doctor),
        ("permissions", Command::Permissions),
        ("portal-smoke", Command::PortalSmoke),
        ("pipewire-smoke", Command::PipeWireSmoke),
        ("audio-smoke", Command::AudioSmoke { action: None }),
        ("protocol", Command::Protocol),
        ("config-path", Command::ConfigPath),
        ("devices", Command::Devices),
        ("clipboard-history", Command::ClipboardHistory { json: false }),
        ("clipboard-clear", Command::ClipboardClear),
    ];
    for (word, command) in expected {
        assert_eq!(run(&[word]).unwrap().command, command);
        assert_eq!(run(&[word, "--debug"]).unwrap().command, command);
    }
    assert_eq!(
        run(&["pair-auto", "--peer", "192.168.1.27:47654"])
            .unwrap()
            .command,
        Command::PairAuto {
            peer: "192.168.1.27:47654".into()
        }
    );
    assert_eq!(
        run(&["clipboard-history", "--json"]).unwrap().command,
        Command::ClipboardHistory { json: true }
    );
    assert_eq!(
        run(&["clipboard-restore", "00000000000000ff"])
            .unwrap()
            .command,
        Command::ClipboardRestore { fingerprint: 255 }
    );
    assert_eq!(
        run(&["file-send", "--", "-notes.txt", "a"]).unwrap().command,
        Command::FileSend {
            paths: vec!["-notes.txt".into(), "a".into()]
        }
    );
}

#[test]
fn refusals_say_what_is_wrong() {
    let expected: [(&[&str], &str); 12] = [
        (&["portal-smoke", "x"], "portal-smoke accepts no arguments"),
        (&["pipewire-smoke", "x"], "pipewire-smoke accepts no arguments"),
        (&["audio-smoke", "x"], "audio-smoke accepts no arguments"),
        (&["pair"], "pair requires a nexkvm:// pairing uri"),
        (&["pair", "a", "b"], "pair accepts one nexkvm:// pairing uri"),
        (&["pair-auto", "--peer"], "pair-auto requires --peer <host:port>"),
        (
            &["pairing-uri"],
            "pairing-uri requires an address like 192.168.1.20:47654",
        ),
        (&["pairing-uri", "a", "b"], "pairing-uri accepts one address"),
        (
            &["clipboard-restore", "not-hex"],
            "clipboard-restore requires a hexadecimal fingerprint",
        ),
        (&["file-send", "--"], "file-send requires at least one path"),
        (
            &["simulate", "a", "b"],
            "simulate accepts at most one path plus optional --simulate-json-only",
        ),
        (
            &["frobnicate"],
            "unknown command `frobnicate`; run `nexkvm help`",
        ),
    ];
    for (args, message) in expected {
        assert_eq!(run(args).unwrap_err(), message);
    }
}

#[test]
fn fingerprints_have_one_form() {
    assert_eq!(parse_fingerprint(" 0XfF "), Some(255));
    assert_eq!(parse_fingerprint("ffffffffffffffff"), Some(u64::MAX));
    assert_eq!(parse_fingerprint("0x"), None);
    assert_eq!(parse_fingerprint("10000000000000000"), None);
    assert_eq!(parse_fingerprint("+1"), None);
    for value in [0, 1, 0x1234_5678_9abc_def0, u64::MAX] {
        let text = normalize_fingerprint(&format!("{value:x}")).unwrap();
        assert_eq!(text, format!("{value:016x}"));
        assert_eq!(normalize_fingerprint(&text).unwrap(), text);
    }
    assert_eq!(
        normalize_fingerprint("").unwrap_err().message(),
        "Clipboard fingerprint must be 1 to 16 hexadecimal digits"
    );
}
