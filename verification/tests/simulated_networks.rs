use nexkvm::ids::DeviceId;
use nexkvm::net::IpAddress;
use nexkvm::net::SocketAddress;
use nexkvm::sim_config::build_connection_plan;
use nexkvm::sim_config::build_connection_plans;
use nexkvm::sim_config::build_runtime_devices;
use nexkvm::sim_config::digest_id_text;
use nexkvm::sim_config::heartbeat_confidence;
use nexkvm::sim_config::latency_samples;
use nexkvm::sim_config::simulated_device_id;
use nexkvm::sim_config::validate_sim_config;
use nexkvm::sim_config::SimConfig;
use nexkvm::sim_config::SimConnectionPlanKind;
use nexkvm::sim_config::SimDevice;
use nexkvm::sim_config::SimFeatures;
use nexkvm::sim_config::SimNetwork;
use nexkvm::sim_report::build_simulation_report_json;
use nexkvm::sim_report::simulation_report_lines;
use nexkvm::sim_report::CollaborationOutcome;
use nexkvm::sim_report::ScreenOutcome;
use nexkvm::sim_report::SimulatorOutcomes;
use nexkvm::sim_report::SnapOutcome;
use nexkvm::simulation::build_report;
use nexkvm::simulation::ConnectionStatus;
use nexkvm::simulation::SimulatedConnectionConfig;
use nexkvm::simulation::SimulatedDeviceConfig;
use nexkvm::simulation::SimulationConfig;
use nexkvm::simulation::SimulationError;
use nexkvm::simulation::SimulationReport;

fn v4(a: u8, b: u8, c: u8, d: u8, port: u16) -> SocketAddress {
    SocketAddress {
        ip: IpAddress::V4(u32::from_be_bytes([a, b, c, d])),
        port,
    }
}

/// Reads an `a.b.c.d:port` text.
fn address(text: &str) -> Option<SocketAddress> {
    let (ip, port) = text.rsplit_once(':')?;
    let parts: Vec<u8> = ip.split('.').map(|part| part.parse().ok()).collect::<Option<_>>()?;
    let [a, b, c, d] = parts[..] else {
        return None;
    };
    Some(v4(a, b, c, d, port.parse().ok()?))
}

fn text_of(table: &toml::Table, key: &str) -> String {
    table[key].as_str().unwrap().to_owned()
}

fn report_from_str(text: &str) -> Result<SimulationReport, SimulationError> {
    let root: toml::Table = text.parse().unwrap();
    let tables = |key: &str| -> Vec<toml::Table> {
        root.get(key)
            .and_then(|value| value.as_array())
            .map(|list| list.iter().map(|item| item.as_table().unwrap().clone()).collect())
            .unwrap_or_default()
    };
    let device = tables("device")
        .iter()
        .map(|table| SimulatedDeviceConfig {
            id: text_of(table, "id"),
            name: text_of(table, "name"),
            os: text_of(table, "os"),
            address: text_of(table, "address"),
            parsed: address(&text_of(table, "address")),
            trusted: table.get("trusted").is_some_and(|value| value.as_bool().unwrap()),
        })
        .collect();
    let connection = tables("connection")
        .iter()
        .map(|table| SimulatedConnectionConfig {
            from: text_of(table, "from"),
            to: text_of(table, "to"),
        })
        .collect();
    build_report(&SimulationConfig { device, connection })
}

const VALID: &str = r#"
[[device]]
id = "laptop"
name = "Studio Laptop"
os = "macos"
address = "127.0.0.1:4101"
trusted = true

[[device]]
id = "desktop"
name = "Desk Linux"
os = "linux"
address = "127.0.0.1:4102"
trusted = true

[[connection]]
from = "laptop"
to = "desktop"
"#;

#[test]
fn valid_config_builds_a_report() {
    let report = report_from_str(VALID).unwrap();

    assert_eq!(report.devices.len(), 2);
    assert_eq!(report.devices[0].id, "desktop");
    assert_eq!(report.devices[0].name, "Desk Linux");
    assert_eq!(report.devices[0].os, "linux");
    assert_eq!(report.devices[0].address, address("127.0.0.1:4102").unwrap());
    assert_eq!(report.devices[1].id, "laptop");
    assert_eq!(report.trusted_devices(), 2);
    assert_eq!(report.connections.len(), 1);
    assert_eq!(report.connections[0].from, "laptop");
    assert_eq!(report.connections[0].to, "desktop");
    assert_eq!(report.connections[0].status, ConnectionStatus::DirectLan);
    assert_eq!(report.connections[0].status.as_str(), "direct-lan");
}

#[test]
fn untrusted_device_blocks_connection() {
    let report = report_from_str(
        r#"
[[device]]
id = "laptop"
name = "Studio Laptop"
os = "macos"
address = "127.0.0.1:4101"
trusted = false

[[device]]
id = "desktop"
name = "Desk Linux"
os = "linux"
address = "127.0.0.1:4102"
trusted = true

[[connection]]
from = "laptop"
to = "desktop"
"#,
    )
    .unwrap();

    assert_eq!(
        report.connections[0].status,
        ConnectionStatus::BlockedByMissingTrust
    );
    assert_eq!(
        report.connections[0].status.as_str(),
        "blocked-missing-trust"
    );
}

#[test]
fn empty_device_list_is_rejected() {
    let err = report_from_str("").unwrap_err().message();
    assert!(err.contains("at least one device"));
}

#[test]
fn duplicate_device_id_is_rejected() {
    let err = report_from_str(
        r#"
[[device]]
id = "laptop"
name = "A"
os = "macos"
address = "127.0.0.1:4101"

[[device]]
id = "laptop"
name = "B"
os = "linux"
address = "127.0.0.1:4102"
"#,
    )
    .unwrap_err()
    .message();

    assert!(err.contains("duplicate device id `laptop`"));
}

#[test]
fn unknown_connection_target_is_rejected() {
    let err = report_from_str(
        r#"
[[device]]
id = "laptop"
name = "Studio Laptop"
os = "macos"
address = "127.0.0.1:4101"

[[connection]]
from = "laptop"
to = "tablet"
"#,
    )
    .unwrap_err()
    .message();

    assert!(err.contains("connection `laptop -> tablet` references unknown device `tablet`"));
}

fn device(id: &str, parsed: Option<SocketAddress>) -> SimulatedDeviceConfig {
    SimulatedDeviceConfig {
        id: id.into(),
        name: id.into(),
        os: "macos".into(),
        address: "spelled".into(),
        parsed,
        trusted: true,
    }
}

fn connection(from: &str, to: &str) -> SimulatedConnectionConfig {
    SimulatedConnectionConfig {
        from: from.into(),
        to: to.into(),
    }
}

#[test]
fn every_fixture_fault_has_its_wording() {
    let here = Some(v4(127, 0, 0, 1, 1));
    let fault = |device, connection| {
        build_report(&SimulationConfig { device, connection })
            .unwrap_err()
            .message()
    };
    assert_eq!(
        fault(vec![], vec![]),
        "simulation config must define at least one device"
    );
    assert_eq!(
        fault(vec![device(" ", here)], vec![]),
        "device id must not be empty"
    );
    assert_eq!(
        fault(vec![device("a", None)], vec![]),
        "device `a` has invalid address `spelled`"
    );
    assert_eq!(
        fault(vec![device("a", here)], vec![connection("b", "a")]),
        "connection `b -> a` references unknown device `b`"
    );
    assert_eq!(
        fault(vec![device("a", here)], vec![connection("a", "a")]),
        "connection `a -> a` points to the same device"
    );
}

#[test]
fn connections_are_listed_by_both_ends() {
    let here = Some(v4(127, 0, 0, 1, 1));
    let report = build_report(&SimulationConfig {
        device: vec![device("c", here), device("a", here), device("b", here)],
        connection: vec![
            connection("b", "a"),
            connection("a", "c"),
            connection("a", "b"),
        ],
    })
    .unwrap();
    let ends: Vec<(&str, &str)> = report
        .connections
        .iter()
        .map(|plan| (plan.from.as_str(), plan.to.as_str()))
        .collect();
    assert_eq!(ends, [("a", "b"), ("a", "c"), ("b", "a")]);
}

fn sim_device(name: &str) -> SimDevice {
    SimDevice {
        name: name.into(),
        os: "macos".into(),
        role: "server".into(),
        id: None,
        display_name: None,
        address: Some("192.168.1.20:47654".into()),
        parsed: Some(v4(192, 168, 1, 20, 47654)),
        trusted: Some(true),
        x: 0,
        y: -5,
        width: 1920,
        height: 1080,
    }
}

fn sim_config(device: Vec<SimDevice>) -> SimConfig {
    SimConfig {
        network: SimNetwork {
            profile: "lan \"fast\"".into(),
            rtt_ms: 8,
            jitter_ms: 2,
            loss_text: "0".into(),
            loss_json: "0.0".into(),
            throughput_bps: 1_000_000,
        },
        device,
        features: SimFeatures {
            clipboard: true,
            file_transfer: false,
            screen_preview: true,
            shared_cursor: false,
            plugins: true,
        },
    }
}

fn outcomes(best: Option<DeviceId>) -> SimulatorOutcomes {
    SimulatorOutcomes {
        ranked_count: 2,
        best_active: best,
        smoothed_ms: 8,
        jitter_ms: 3,
        timeout_ms: 250,
        snap: SnapOutcome::Planned {
            to: DeviceId(2),
            cross_device: true,
        },
        screen: ScreenOutcome::Planned {
            codec: "H264".into(),
            fps: 60,
            width: 1920,
            height: 1080,
            encrypted: true,
        },
        collaboration: CollaborationOutcome::Started {
            participants: 2,
            pending_requests: 0,
            control_active: true,
        },
    }
}

#[test]
fn simulate_rejects_duplicate_device_names() {
    let error = validate_sim_config(&sim_config(vec![sim_device("mac"), sim_device("mac")]))
        .unwrap_err()
        .message();
    assert_eq!(error, "duplicate device name `mac` in simulation config");
}

#[test]
fn simulate_rejects_unknown_device_os() {
    let mut odd = sim_device("mac");
    odd.os = "beos".into();
    let error = validate_sim_config(&sim_config(vec![odd])).unwrap_err().message();
    assert_eq!(
        error,
        "unknown device os `beos` for `mac`; expected one of macos, windows, linux-wayland, linux-x11, android, ios"
    );
    assert_eq!(
        validate_sim_config(&sim_config(vec![])).unwrap_err().message(),
        "simulation config must define at least one [[device]]"
    );
    assert!(validate_sim_config(&sim_config(vec![sim_device("mac")])).is_ok());
}

#[test]
fn omitted_identifiers_are_digests_of_the_device() {
    let id = simulated_device_id(&sim_device("mac"));
    assert_eq!(id.len(), 12);
    assert!(id.starts_with("sim-"));
    assert_eq!(id, simulated_device_id(&sim_device("mac")));
    assert_ne!(id, simulated_device_id(&sim_device("other")));
    let mut digest = [0u8; 32];
    digest[0] = 0xab;
    digest[3] = 0x01;
    assert_eq!(digest_id_text(&digest), "sim-ab000001");
    let mut named = sim_device("mac");
    named.id = Some("desk".into());
    assert_eq!(named.id_text(), "desk");
}

#[test]
fn each_plan_has_its_reason() {
    let direct = build_connection_plan(&sim_device("mac"));
    assert_eq!(direct.kind, SimConnectionPlanKind::DirectLan);
    assert_eq!(direct.detail, "connect directly to 192.168.1.20:47654");
    assert_eq!(direct.kind.label(), "direct-lan");

    let mut roleless = sim_device("mac");
    roleless.role = "relay".into();
    let plan = build_connection_plan(&roleless);
    assert_eq!(plan.kind.label(), "invalid-configuration");
    assert_eq!(plan.detail, "unsupported role `relay`");

    let mut misspelled = sim_device("mac");
    misspelled.parsed = None;
    let plan = build_connection_plan(&misspelled);
    assert_eq!(plan.kind.label(), "invalid-configuration");
    assert_eq!(
        plan.detail,
        "invalid address `192.168.1.20:47654` (expected ip:port)"
    );

    let mut stranger = sim_device("mac");
    stranger.trusted = None;
    let plan = build_connection_plan(&stranger);
    assert_eq!(plan.kind.label(), "missing-trust");
    assert_eq!(plan.detail, "device is not trusted");

    let mut unaddressed = sim_device("mac");
    unaddressed.address = None;
    unaddressed.parsed = None;
    unaddressed.display_name = Some("Shown".into());
    let plan = build_connection_plan(&unaddressed);
    assert_eq!(plan.kind.label(), "reconnect-candidate");
    assert_eq!(plan.display_name, "Shown");
    assert_eq!(
        plan.detail,
        "trusted device without address; wait for discovery"
    );
}

#[test]
fn simulated_round_trips_surround_the_configured_one() {
    assert_eq!(latency_samples(8, 2), (6, 8, 10));
    assert_eq!(latency_samples(0, 5), (1, 1, 6));
    assert_eq!(latency_samples(u64::MAX, 1), (u64::MAX - 1, u64::MAX, u64::MAX));
}

#[test]
fn heartbeats_weigh_trust_and_address() {
    let devices = vec![sim_device("a"), sim_device("b"), sim_device("c"), sim_device("d")];
    let mut devices = devices;
    devices[1].address = None;
    devices[2].trusted = Some(false);
    devices[3].trusted = None;
    devices[3].address = None;
    let ids = vec![DeviceId(1), DeviceId(2), DeviceId(3), DeviceId(4)];
    let runtime = build_runtime_devices(&devices, &ids);
    let sure: Vec<u64> = runtime.iter().map(heartbeat_confidence).collect();
    let expected = [
        0.85_f64,
        (0.85_f64 - 0.2_f64).max(0.05_f64),
        0.35_f64,
        (0.35_f64 - 0.2_f64).max(0.05_f64),
    ];
    assert_eq!(sure, expected.map(f64::to_bits));
    assert_eq!(runtime[1].address, None);
    assert_eq!(runtime[3].id, DeviceId(4));
}

#[test]
fn the_json_report_is_what_its_values_write() {
    let config = sim_config(vec![sim_device("mac"), sim_device("desk")]);
    let plans = build_connection_plans(&config.device);
    let runtime = build_runtime_devices(&config.device, &vec![DeviceId(1), DeviceId(2)]);
    let text =
        build_simulation_report_json(&config, &plans, &runtime, &outcomes(Some(DeviceId(1))));
    let value: serde_json::Value = serde_json::from_str(&text).unwrap();
    assert_eq!(value.to_string(), text);
    assert_eq!(value["network"]["profile"].as_str(), Some("lan \"fast\""));
    assert_eq!(value["network"]["loss"].as_f64(), Some(0.0));
    assert_eq!(value["devices"][0]["y"].as_i64(), Some(-5));
    assert_eq!(value["devices"][1]["trust"].as_str(), Some("trusted"));
    assert_eq!(
        value["connection_planning"][0]["kind"].as_str(),
        Some("direct-lan")
    );
    assert_eq!(value["features"]["plugins"].as_bool(), Some(true));
    assert_eq!(value["simulators"]["discovery"]["best_active"].as_str(), Some("mac"));
    assert_eq!(value["simulators"]["workspace"]["status"].as_str(), Some("ok"));
    assert_eq!(
        value["simulators"]["workspace"]["snap_right_target"].as_str(),
        Some("desk")
    );
    assert_eq!(
        value["simulators"]["screen"]["resolution"]["height"].as_u64(),
        Some(1080)
    );
    assert_eq!(
        value["simulators"]["collaboration"]["control_active"].as_bool(),
        Some(true)
    );
}

#[test]
fn texts_of_the_json_report_are_escaped() {
    let mut config = sim_config(vec![sim_device("mac")]);
    config.network.profile = "\"\\/\u{8}\t\n\u{c}\r\u{1}\u{1f}\u{7f}é".into();
    let plans = build_connection_plans(&config.device);
    let runtime = build_runtime_devices(&config.device, &vec![DeviceId(1)]);
    let text = build_simulation_report_json(&config, &plans, &runtime, &outcomes(None));
    let written = "\"profile\":\"\\\"\\\\/\\b\\t\\n\\f\\r\\u0001\\u001f\u{7f}é\"";
    assert!(text.contains(written), "{text}");
}

#[test]
fn one_device_leaves_pairwise_simulators_unavailable() {
    let config = sim_config(vec![sim_device("mac")]);
    let plans = build_connection_plans(&config.device);
    let runtime = build_runtime_devices(&config.device, &vec![DeviceId(1)]);
    let text = build_simulation_report_json(&config, &plans, &runtime, &outcomes(None));
    let value: serde_json::Value = serde_json::from_str(&text).unwrap();
    assert_eq!(
        value["simulators"]["screen"]["reason"].as_str(),
        Some("need-at-least-2-devices")
    );
    assert_eq!(
        value["simulators"]["collaboration"]["status"].as_str(),
        Some("unavailable")
    );
    assert_eq!(
        value["simulators"]["workspace"]["snap_right_target"].as_str(),
        Some("unknown")
    );
    assert_eq!(value["simulators"]["discovery"]["best_active"].as_str(), Some("none"));
}

#[test]
fn the_text_report_lists_everything() {
    let config = sim_config(vec![sim_device("mac"), sim_device("desk")]);
    let plans = build_connection_plans(&config.device);
    let runtime = build_runtime_devices(&config.device, &vec![DeviceId(1), DeviceId(2)]);
    let lines =
        simulation_report_lines("sim.toml", &config, &plans, &runtime, &outcomes(None), 99);
    assert_eq!(lines.len(), 3 + 2 + 1 + 2 + 10);
    assert_eq!(lines[0], "simulation config: sim.toml");
    assert_eq!(
        lines[1],
        "  network: profile=lan \"fast\" rtt=8ms jitter=2ms loss=0 throughput=1000000bps"
    );
    assert_eq!(lines[2], "  devices: 2");
    assert!(lines[3].ends_with(
        " display_name=mac os=macos address=192.168.1.20:47654 trust=trusted role=server pos=(0, -5) size=1920x1080"
    ));
    assert_eq!(lines[5], "  connection planning:");
    assert_eq!(
        lines[6],
        "    - mac: direct-lan (connect directly to 192.168.1.20:47654)"
    );
    assert_eq!(
        lines[8],
        "  features: clipboard=true file_transfer=false screen_preview=true shared_cursor=false plugins=true"
    );
    assert_eq!(lines[10], "    - discovery: ranked=2 best_active=none");
    assert_eq!(lines[11], "    - latency: smoothed=8ms jitter=3ms timeout=250ms");
    assert_eq!(
        lines[12],
        "    - workspace: snap_right target=desk cross_device=true"
    );
    assert_eq!(
        lines[13],
        "    - screen: codec=H264 fps=60 resolution=1920x1080 encrypted=true"
    );
    assert_eq!(
        lines[14],
        "    - collaboration: participants=2 pending_requests=0 control_active=true"
    );
    assert!(lines[15].starts_with("  simulation_report_json: {"));
    assert_eq!(lines[16], "  bytes: 99");
    assert_eq!(lines[17], "  status: typed TOML parsed and validated");
}

#[test]
fn failed_simulators_give_their_reason() {
    let config = sim_config(vec![sim_device("mac"), sim_device("desk")]);
    let plans = build_connection_plans(&config.device);
    let runtime = build_runtime_devices(&config.device, &vec![DeviceId(1), DeviceId(2)]);
    let mut found = outcomes(None);
    found.snap = SnapOutcome::Failed { reason: "no room".into() };
    found.screen = ScreenOutcome::Failed { reason: "no codec".into() };
    found.collaboration = CollaborationOutcome::Failed { reason: "no host".into() };
    let lines = simulation_report_lines("s", &config, &plans, &runtime, &found, 1);
    assert_eq!(lines[12], "    - workspace: unavailable (no room)");
    assert_eq!(lines[13], "    - screen: unavailable (no codec)");
    assert_eq!(lines[14], "    - collaboration: unavailable (no host)");
    let value: serde_json::Value = serde_json::from_str(&build_simulation_report_json(
        &config, &plans, &runtime, &found,
    ))
    .unwrap();
    assert_eq!(value["simulators"]["screen"]["reason"].as_str(), Some("no codec"));
}
