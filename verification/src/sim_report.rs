//! What a simulation reports, as JSON and as text.

use vstd::prelude::*;

use crate::ids::DeviceId;
use crate::outside::json_string;
use crate::outside::json_string_of;
use crate::sim_config::SimConfig;
use crate::sim_config::SimConnectionPlanEntry;
use crate::sim_config::SimDevice;
use crate::sim_config::SimFeatures;
use crate::sim_config::SimNetwork;
use crate::sim_config::SimRuntimeDevice;
use crate::text::append;
use crate::text::bool_text;
use crate::text::bool_wording;
use crate::text::decimal;
use crate::text::decimal_text;
use crate::text::join;
use crate::text::joined;
use crate::text::signed_decimal;
use crate::text::signed_decimal_text;
use crate::text::texts;

verus! {

/// Where snapping a window to the right would put it, or why nowhere.
#[derive(Debug)]
pub enum SnapOutcome {
    Planned { to: DeviceId, cross_device: bool },
    Failed { reason: String },
}

/// What a screen stream between the first two devices would be, or why none.
#[derive(Debug)]
pub enum ScreenOutcome {
    Planned { codec: String, fps: u32, width: u32, height: u32, encrypted: bool },
    Failed { reason: String },
}

/// How a collaboration of the first two devices goes, or why it does not.
#[derive(Debug)]
pub enum CollaborationOutcome {
    Started { participants: u64, pending_requests: u64, control_active: bool },
    Failed { reason: String },
}

/// What the simulators found.
#[derive(Debug)]
pub struct SimulatorOutcomes {
    pub ranked_count: u64,
    pub best_active: Option<DeviceId>,
    pub smoothed_ms: u64,
    pub jitter_ms: u64,
    pub timeout_ms: u64,
    pub snap: SnapOutcome,
    pub screen: ScreenOutcome,
    pub collaboration: CollaborationOutcome,
}

/// The name of the first device with an identifier, or a fallback.
pub open spec fn name_with_id(
    devices: Seq<SimRuntimeDevice>,
    id: DeviceId,
    fallback: Seq<char>,
    i: int,
) -> Seq<char>
    decreases devices.len() - i,
{
    if i >= devices.len() {
        fallback
    } else if devices[i].id == id {
        devices[i].name@
    } else {
        name_with_id(devices, id, fallback, i + 1)
    }
}

fn find_name(devices: &Vec<SimRuntimeDevice>, id: DeviceId, fallback: &str) -> (name: String)
    ensures
        name@ == name_with_id(devices@, id, fallback@, 0),
{
    let mut i: usize = 0;
    while i < devices.len()
        invariant
            i <= devices.len(),
            name_with_id(devices@, id, fallback@, 0) == name_with_id(
                devices@,
                id,
                fallback@,
                i as int,
            ),
        decreases devices.len() - i,
    {
        if devices[i].id == id {
            return devices[i].name.clone();
        }
        i += 1;
    }
    fallback.to_owned()
}

/// The name of the device that is best reached.
pub open spec fn best_name(devices: Seq<SimRuntimeDevice>, best: Option<DeviceId>) -> Seq<char> {
    match best {
        Some(id) => name_with_id(devices, id, "none"@, 0),
        None => "none"@,
    }
}

fn best_name_text(devices: &Vec<SimRuntimeDevice>, best: Option<DeviceId>) -> (name: String)
    ensures
        name@ == best_name(devices@, best),
{
    match best {
        Some(id) => find_name(devices, id, "none"),
        None => "none".to_owned(),
    }
}

/// A device in JSON, its members in the order of their names.
pub open spec fn device_json(d: SimDevice) -> Seq<char> {
    "{\"address\":"@ + json_string_of(d.shown_address()) + ",\"display_name\":"@ + json_string_of(
        d.shown_name(),
    ) + ",\"height\":"@ + decimal(d.height as nat) + ",\"id\":"@ + json_string_of(d.shown_id())
        + ",\"name\":"@ + json_string_of(d.name@) + ",\"os\":"@ + json_string_of(d.os@)
        + ",\"role\":"@ + json_string_of(d.role@) + ",\"trust\":"@ + json_string_of(d.shown_trust())
        + ",\"width\":"@ + decimal(d.width as nat) + ",\"x\":"@ + signed_decimal(d.x as int)
        + ",\"y\":"@ + signed_decimal(d.y as int) + "}"@
}

fn device_json_text(d: &SimDevice) -> (j: String)
    ensures
        j@ == device_json(*d),
{
    let mut j = "{\"address\":".to_owned();
    append(&mut j, &json_string(&d.address_text()));
    append(&mut j, ",\"display_name\":");
    append(&mut j, &json_string(&d.name_text()));
    append(&mut j, ",\"height\":");
    append(&mut j, &decimal_text(d.height as u64));
    append(&mut j, ",\"id\":");
    append(&mut j, &json_string(&d.id_text()));
    append(&mut j, ",\"name\":");
    append(&mut j, &json_string(&d.name));
    append(&mut j, ",\"os\":");
    append(&mut j, &json_string(&d.os));
    append(&mut j, ",\"role\":");
    append(&mut j, &json_string(&d.role));
    append(&mut j, ",\"trust\":");
    append(&mut j, &json_string(d.trust_text()));
    append(&mut j, ",\"width\":");
    append(&mut j, &decimal_text(d.width as u64));
    append(&mut j, ",\"x\":");
    append(&mut j, &signed_decimal_text(d.x));
    append(&mut j, ",\"y\":");
    append(&mut j, &signed_decimal_text(d.y));
    append(&mut j, "}");
    j
}

/// A plan in JSON.
pub open spec fn plan_json(plan: SimConnectionPlanEntry) -> Seq<char> {
    "{\"detail\":"@ + json_string_of(plan.detail@) + ",\"device\":"@ + json_string_of(
        plan.display_name@,
    ) + ",\"kind\":"@ + json_string_of(plan.kind.wording()) + "}"@
}

fn plan_json_text(plan: &SimConnectionPlanEntry) -> (j: String)
    ensures
        j@ == plan_json(*plan),
{
    let mut j = "{\"detail\":".to_owned();
    append(&mut j, &json_string(&plan.detail));
    append(&mut j, ",\"device\":");
    append(&mut j, &json_string(&plan.display_name));
    append(&mut j, ",\"kind\":");
    append(&mut j, &json_string(plan.kind.label()));
    append(&mut j, "}");
    j
}

/// Items in JSON.
pub open spec fn array_json(items: Seq<Seq<char>>) -> Seq<char> {
    "["@ + joined(items, ","@) + "]"@
}

fn array_json_text(items: &Vec<String>) -> (j: String)
    ensures
        j@ == array_json(texts(items@)),
{
    let mut j = "[".to_owned();
    append(&mut j, &join(items, ","));
    append(&mut j, "]");
    j
}

/// The devices in JSON.
pub open spec fn devices_json(devices: Seq<SimDevice>) -> Seq<char> {
    array_json(devices.map_values(|d: SimDevice| device_json(d)))
}

fn devices_json_text(devices: &Vec<SimDevice>) -> (j: String)
    ensures
        j@ == devices_json(devices@),
{
    let mut items: Vec<String> = Vec::new();
    let mut i: usize = 0;
    while i < devices.len()
        invariant
            i <= devices.len(),
            items.len() == i,
            forall|k: int| 0 <= k < i ==> #[trigger] items@[k]@ == device_json(devices@[k]),
        decreases devices.len() - i,
    {
        items.push(device_json_text(&devices[i]));
        i += 1;
    }
    assert(texts(items@) =~= devices@.map_values(|d: SimDevice| device_json(d)));
    array_json_text(&items)
}

/// The plans in JSON.
pub open spec fn plans_json(plans: Seq<SimConnectionPlanEntry>) -> Seq<char> {
    array_json(plans.map_values(|p: SimConnectionPlanEntry| plan_json(p)))
}

fn plans_json_text(plans: &Vec<SimConnectionPlanEntry>) -> (j: String)
    ensures
        j@ == plans_json(plans@),
{
    let mut items: Vec<String> = Vec::new();
    let mut i: usize = 0;
    while i < plans.len()
        invariant
            i <= plans.len(),
            items.len() == i,
            forall|k: int| 0 <= k < i ==> #[trigger] items@[k]@ == plan_json(plans@[k]),
        decreases plans.len() - i,
    {
        items.push(plan_json_text(&plans[i]));
        i += 1;
    }
    assert(texts(items@) =~= plans@.map_values(|p: SimConnectionPlanEntry| plan_json(p)));
    array_json_text(&items)
}

/// A simulator that has nothing to say, in JSON.
pub open spec fn unavailable_json(reason: Seq<char>) -> Seq<char> {
    "{\"reason\":"@ + json_string_of(reason) + ",\"status\":\"unavailable\"}"@
}

fn unavailable_json_text(reason: &str) -> (j: String)
    ensures
        j@ == unavailable_json(reason@),
{
    let mut j = "{\"reason\":".to_owned();
    append(&mut j, &json_string(reason));
    append(&mut j, ",\"status\":\"unavailable\"}");
    j
}

/// What the discovery simulator found, in JSON.
pub open spec fn discovery_json(devices: Seq<SimRuntimeDevice>, found: SimulatorOutcomes) -> Seq<
    char,
> {
    "{\"best_active\":"@ + json_string_of(best_name(devices, found.best_active))
        + ",\"ranked_count\":"@ + decimal(found.ranked_count as nat) + "}"@
}

fn discovery_json_text(devices: &Vec<SimRuntimeDevice>, found: &SimulatorOutcomes) -> (j: String)
    ensures
        j@ == discovery_json(devices@, *found),
{
    let mut j = "{\"best_active\":".to_owned();
    append(&mut j, &json_string(&best_name_text(devices, found.best_active)));
    append(&mut j, ",\"ranked_count\":");
    append(&mut j, &decimal_text(found.ranked_count));
    append(&mut j, "}");
    j
}

/// What the latency simulator found, in JSON.
pub open spec fn latency_json(found: SimulatorOutcomes) -> Seq<char> {
    "{\"jitter_ms\":"@ + decimal(found.jitter_ms as nat) + ",\"smoothed_ms\":"@ + decimal(
        found.smoothed_ms as nat,
    ) + ",\"timeout_ms\":"@ + decimal(found.timeout_ms as nat) + "}"@
}

fn latency_json_text(found: &SimulatorOutcomes) -> (j: String)
    ensures
        j@ == latency_json(*found),
{
    let mut j = "{\"jitter_ms\":".to_owned();
    append(&mut j, &decimal_text(found.jitter_ms));
    append(&mut j, ",\"smoothed_ms\":");
    append(&mut j, &decimal_text(found.smoothed_ms));
    append(&mut j, ",\"timeout_ms\":");
    append(&mut j, &decimal_text(found.timeout_ms));
    append(&mut j, "}");
    j
}

/// What the workspace simulator found, in JSON. It needs a device.
pub open spec fn workspace_json(devices: Seq<SimRuntimeDevice>, snap: SnapOutcome) -> Seq<char> {
    if devices.len() == 0 {
        unavailable_json("no-devices"@)
    } else {
        match snap {
            SnapOutcome::Planned { to, cross_device } => "{\"cross_device\":"@ + bool_wording(
                cross_device,
            ) + ",\"snap_right_target\":"@ + json_string_of(
                name_with_id(devices, to, "unknown"@, 0),
            ) + ",\"status\":\"ok\"}"@,
            SnapOutcome::Failed { reason } => unavailable_json(reason@),
        }
    }
}

fn workspace_json_text(devices: &Vec<SimRuntimeDevice>, snap: &SnapOutcome) -> (j: String)
    ensures
        j@ == workspace_json(devices@, *snap),
{
    if devices.len() == 0 {
        return unavailable_json_text("no-devices");
    }
    match snap {
        SnapOutcome::Planned { to, cross_device } => {
            let mut j = "{\"cross_device\":".to_owned();
            append(&mut j, bool_text(*cross_device));
            append(&mut j, ",\"snap_right_target\":");
            append(&mut j, &json_string(&find_name(devices, *to, "unknown")));
            append(&mut j, ",\"status\":\"ok\"}");
            j
        },
        SnapOutcome::Failed { reason } => unavailable_json_text(reason),
    }
}

/// What the screen simulator found, in JSON. It needs two devices.
pub open spec fn screen_json(devices: Seq<SimRuntimeDevice>, screen: ScreenOutcome) -> Seq<char> {
    if devices.len() < 2 {
        unavailable_json("need-at-least-2-devices"@)
    } else {
        match screen {
            ScreenOutcome::Planned { codec, fps, width, height, encrypted } => "{\"codec\":"@
                + json_string_of(codec@) + ",\"encrypted\":"@ + bool_wording(encrypted)
                + ",\"fps\":"@ + decimal(fps as nat) + ",\"resolution\":{\"height\":"@ + decimal(
                height as nat,
            ) + ",\"width\":"@ + decimal(width as nat) + "},\"status\":\"ok\"}"@,
            ScreenOutcome::Failed { reason } => unavailable_json(reason@),
        }
    }
}

fn screen_json_text(devices: &Vec<SimRuntimeDevice>, screen: &ScreenOutcome) -> (j: String)
    ensures
        j@ == screen_json(devices@, *screen),
{
    if devices.len() < 2 {
        return unavailable_json_text("need-at-least-2-devices");
    }
    match screen {
        ScreenOutcome::Planned { codec, fps, width, height, encrypted } => {
            let mut j = "{\"codec\":".to_owned();
            append(&mut j, &json_string(codec));
            append(&mut j, ",\"encrypted\":");
            append(&mut j, bool_text(*encrypted));
            append(&mut j, ",\"fps\":");
            append(&mut j, &decimal_text(*fps as u64));
            append(&mut j, ",\"resolution\":{\"height\":");
            append(&mut j, &decimal_text(*height as u64));
            append(&mut j, ",\"width\":");
            append(&mut j, &decimal_text(*width as u64));
            append(&mut j, "},\"status\":\"ok\"}");
            j
        },
        ScreenOutcome::Failed { reason } => unavailable_json_text(reason),
    }
}

/// What the collaboration simulator found, in JSON. It needs two devices.
pub open spec fn collaboration_json(
    devices: Seq<SimRuntimeDevice>,
    collaboration: CollaborationOutcome,
) -> Seq<char> {
    if devices.len() < 2 {
        unavailable_json("need-at-least-2-devices"@)
    } else {
        match collaboration {
            CollaborationOutcome::Started { participants, pending_requests, control_active } =>
                "{\"control_active\":"@ + bool_wording(control_active) + ",\"participants\":"@
                    + decimal(participants as nat) + ",\"pending_requests\":"@ + decimal(
                    pending_requests as nat,
                ) + ",\"status\":\"ok\"}"@,
            CollaborationOutcome::Failed { reason } => unavailable_json(reason@),
        }
    }
}

fn collaboration_json_text(
    devices: &Vec<SimRuntimeDevice>,
    collaboration: &CollaborationOutcome,
) -> (j: String)
    ensures
        j@ == collaboration_json(devices@, *collaboration),
{
    if devices.len() < 2 {
        return unavailable_json_text("need-at-least-2-devices");
    }
    match collaboration {
        CollaborationOutcome::Started { participants, pending_requests, control_active } => {
            let mut j = "{\"control_active\":".to_owned();
            append(&mut j, bool_text(*control_active));
            append(&mut j, ",\"participants\":");
            append(&mut j, &decimal_text(*participants));
            append(&mut j, ",\"pending_requests\":");
            append(&mut j, &decimal_text(*pending_requests));
            append(&mut j, ",\"status\":\"ok\"}");
            j
        },
        CollaborationOutcome::Failed { reason } => unavailable_json_text(reason),
    }
}

/// The simulated network in JSON.
pub open spec fn network_json(network: SimNetwork) -> Seq<char> {
    "{\"jitter_ms\":"@ + decimal(network.jitter_ms as nat) + ",\"loss\":"@ + network.loss_json@
        + ",\"profile\":"@ + json_string_of(network.profile@) + ",\"rtt_ms\":"@ + decimal(
        network.rtt_ms as nat,
    ) + ",\"throughput_bps\":"@ + decimal(network.throughput_bps as nat) + "}"@
}

fn network_json_text(network: &SimNetwork) -> (j: String)
    ensures
        j@ == network_json(*network),
{
    let mut j = "{\"jitter_ms\":".to_owned();
    append(&mut j, &decimal_text(network.jitter_ms));
    append(&mut j, ",\"loss\":");
    append(&mut j, &network.loss_json);
    append(&mut j, ",\"profile\":");
    append(&mut j, &json_string(&network.profile));
    append(&mut j, ",\"rtt_ms\":");
    append(&mut j, &decimal_text(network.rtt_ms));
    append(&mut j, ",\"throughput_bps\":");
    append(&mut j, &decimal_text(network.throughput_bps));
    append(&mut j, "}");
    j
}

/// The features in JSON.
pub open spec fn features_json(f: SimFeatures) -> Seq<char> {
    "{\"clipboard\":"@ + bool_wording(f.clipboard) + ",\"file_transfer\":"@ + bool_wording(
        f.file_transfer,
    ) + ",\"plugins\":"@ + bool_wording(f.plugins) + ",\"screen_preview\":"@ + bool_wording(
        f.screen_preview,
    ) + ",\"shared_cursor\":"@ + bool_wording(f.shared_cursor) + "}"@
}

fn features_json_text(f: SimFeatures) -> (j: String)
    ensures
        j@ == features_json(f),
{
    let mut j = "{\"clipboard\":".to_owned();
    append(&mut j, bool_text(f.clipboard));
    append(&mut j, ",\"file_transfer\":");
    append(&mut j, bool_text(f.file_transfer));
    append(&mut j, ",\"plugins\":");
    append(&mut j, bool_text(f.plugins));
    append(&mut j, ",\"screen_preview\":");
    append(&mut j, bool_text(f.screen_preview));
    append(&mut j, ",\"shared_cursor\":");
    append(&mut j, bool_text(f.shared_cursor));
    append(&mut j, "}");
    j
}

/// The report in JSON: one line, the members of each object in the order of their
/// names.
pub open spec fn report_json(
    config: SimConfig,
    plans: Seq<SimConnectionPlanEntry>,
    devices: Seq<SimRuntimeDevice>,
    found: SimulatorOutcomes,
) -> Seq<char> {
    "{\"connection_planning\":"@ + plans_json(plans) + ",\"devices\":"@ + devices_json(
        config.device@,
    ) + ",\"features\":"@ + features_json(config.features) + ",\"network\":"@ + network_json(
        config.network,
    ) + ",\"simulators\":{\"collaboration\":"@ + collaboration_json(devices, found.collaboration)
        + ",\"discovery\":"@ + discovery_json(devices, found) + ",\"latency\":"@ + latency_json(
        found,
    ) + ",\"screen\":"@ + screen_json(devices, found.screen) + ",\"workspace\":"@ + workspace_json(
        devices,
        found.snap,
    ) + "}}"@
}

/// Writes the report in JSON.
pub fn build_simulation_report_json(
    config: &SimConfig,
    plans: &Vec<SimConnectionPlanEntry>,
    runtime_devices: &Vec<SimRuntimeDevice>,
    found: &SimulatorOutcomes,
) -> (j: String)
    ensures
        j@ == report_json(*config, plans@, runtime_devices@, *found),
{
    let mut j = "{\"connection_planning\":".to_owned();
    append(&mut j, &plans_json_text(plans));
    append(&mut j, ",\"devices\":");
    append(&mut j, &devices_json_text(&config.device));
    append(&mut j, ",\"features\":");
    append(&mut j, &features_json_text(config.features));
    append(&mut j, ",\"network\":");
    append(&mut j, &network_json_text(&config.network));
    append(&mut j, ",\"simulators\":{\"collaboration\":");
    append(&mut j, &collaboration_json_text(runtime_devices, &found.collaboration));
    append(&mut j, ",\"discovery\":");
    append(&mut j, &discovery_json_text(runtime_devices, found));
    append(&mut j, ",\"latency\":");
    append(&mut j, &latency_json_text(found));
    append(&mut j, ",\"screen\":");
    append(&mut j, &screen_json_text(runtime_devices, &found.screen));
    append(&mut j, ",\"workspace\":");
    append(&mut j, &workspace_json_text(runtime_devices, &found.snap));
    append(&mut j, "}}");
    j
}

/// The line of the discovery simulator.
pub open spec fn discovery_line(devices: Seq<SimRuntimeDevice>, found: SimulatorOutcomes) -> Seq<
    char,
> {
    "    - discovery: ranked="@ + decimal(found.ranked_count as nat) + " best_active="@ + best_name(
        devices,
        found.best_active,
    )
}

/// The line of the latency simulator.
pub open spec fn latency_line(found: SimulatorOutcomes) -> Seq<char> {
    "    - latency: smoothed="@ + decimal(found.smoothed_ms as nat) + "ms jitter="@ + decimal(
        found.jitter_ms as nat,
    ) + "ms timeout="@ + decimal(found.timeout_ms as nat) + "ms"@
}

/// The line of the workspace simulator.
pub open spec fn workspace_line(devices: Seq<SimRuntimeDevice>, snap: SnapOutcome) -> Seq<char> {
    if devices.len() == 0 {
        "    - workspace: no devices"@
    } else {
        match snap {
            SnapOutcome::Planned { to, cross_device } => "    - workspace: snap_right target="@
                + name_with_id(devices, to, "unknown"@, 0) + " cross_device="@ + bool_wording(
                cross_device,
            ),
            SnapOutcome::Failed { reason } => "    - workspace: unavailable ("@ + reason@ + ")"@,
        }
    }
}

/// The line of the screen simulator.
pub open spec fn screen_line(devices: Seq<SimRuntimeDevice>, screen: ScreenOutcome) -> Seq<char> {
    if devices.len() < 2 {
        "    - screen: unavailable (need at least 2 devices)"@
    } else {
        match screen {
            ScreenOutcome::Planned { codec, fps, width, height, encrypted } =>
                "    - screen: codec="@ + codec@ + " fps="@ + decimal(fps as nat) + " resolution="@
                    + decimal(width as nat) + "x"@ + decimal(height as nat) + " encrypted="@
                    + bool_wording(encrypted),
            ScreenOutcome::Failed { reason } => "    - screen: unavailable ("@ + reason@ + ")"@,
        }
    }
}

/// The line of the collaboration simulator.
pub open spec fn collaboration_line(
    devices: Seq<SimRuntimeDevice>,
    collaboration: CollaborationOutcome,
) -> Seq<char> {
    if devices.len() < 2 {
        "    - collaboration: unavailable (need at least 2 devices)"@
    } else {
        match collaboration {
            CollaborationOutcome::Started { participants, pending_requests, control_active } =>
                "    - collaboration: participants="@ + decimal(participants as nat)
                    + " pending_requests="@ + decimal(pending_requests as nat)
                    + " control_active="@ + bool_wording(control_active),
            CollaborationOutcome::Failed { reason } => "    - collaboration: unavailable ("@
                + reason@ + ")"@,
        }
    }
}

fn discovery_line_text(devices: &Vec<SimRuntimeDevice>, found: &SimulatorOutcomes) -> (t: String)
    ensures
        t@ == discovery_line(devices@, *found),
{
    let mut t = "    - discovery: ranked=".to_owned();
    append(&mut t, &decimal_text(found.ranked_count));
    append(&mut t, " best_active=");
    append(&mut t, &best_name_text(devices, found.best_active));
    t
}

fn latency_line_text(found: &SimulatorOutcomes) -> (t: String)
    ensures
        t@ == latency_line(*found),
{
    let mut t = "    - latency: smoothed=".to_owned();
    append(&mut t, &decimal_text(found.smoothed_ms));
    append(&mut t, "ms jitter=");
    append(&mut t, &decimal_text(found.jitter_ms));
    append(&mut t, "ms timeout=");
    append(&mut t, &decimal_text(found.timeout_ms));
    append(&mut t, "ms");
    t
}

fn workspace_line_text(devices: &Vec<SimRuntimeDevice>, snap: &SnapOutcome) -> (t: String)
    ensures
        t@ == workspace_line(devices@, *snap),
{
    if devices.len() == 0 {
        return "    - workspace: no devices".to_owned();
    }
    match snap {
        SnapOutcome::Planned { to, cross_device } => {
            let mut t = "    - workspace: snap_right target=".to_owned();
            append(&mut t, &find_name(devices, *to, "unknown"));
            append(&mut t, " cross_device=");
            append(&mut t, bool_text(*cross_device));
            t
        },
        SnapOutcome::Failed { reason } => {
            let mut t = "    - workspace: unavailable (".to_owned();
            append(&mut t, reason);
            append(&mut t, ")");
            t
        },
    }
}

fn screen_line_text(devices: &Vec<SimRuntimeDevice>, screen: &ScreenOutcome) -> (t: String)
    ensures
        t@ == screen_line(devices@, *screen),
{
    if devices.len() < 2 {
        return "    - screen: unavailable (need at least 2 devices)".to_owned();
    }
    match screen {
        ScreenOutcome::Planned { codec, fps, width, height, encrypted } => {
            let mut t = "    - screen: codec=".to_owned();
            append(&mut t, codec);
            append(&mut t, " fps=");
            append(&mut t, &decimal_text(*fps as u64));
            append(&mut t, " resolution=");
            append(&mut t, &decimal_text(*width as u64));
            append(&mut t, "x");
            append(&mut t, &decimal_text(*height as u64));
            append(&mut t, " encrypted=");
            append(&mut t, bool_text(*encrypted));
            t
        },
        ScreenOutcome::Failed { reason } => {
            let mut t = "    - screen: unavailable (".to_owned();
            append(&mut t, reason);
            append(&mut t, ")");
            t
        },
    }
}

fn collaboration_line_text(
    devices: &Vec<SimRuntimeDevice>,
    collaboration: &CollaborationOutcome,
) -> (t: String)
    ensures
        t@ == collaboration_line(devices@, *collaboration),
{
    if devices.len() < 2 {
        return "    - collaboration: unavailable (need at least 2 devices)".to_owned();
    }
    match collaboration {
        CollaborationOutcome::Started { participants, pending_requests, control_active } => {
            let mut t = "    - collaboration: participants=".to_owned();
            append(&mut t, &decimal_text(*participants));
            append(&mut t, " pending_requests=");
            append(&mut t, &decimal_text(*pending_requests));
            append(&mut t, " control_active=");
            append(&mut t, bool_text(*control_active));
            t
        },
        CollaborationOutcome::Failed { reason } => {
            let mut t = "    - collaboration: unavailable (".to_owned();
            append(&mut t, reason);
            append(&mut t, ")");
            t
        },
    }
}

/// The line of a device.
pub open spec fn device_line(d: SimDevice) -> Seq<char> {
    "    - id="@ + d.shown_id() + " display_name="@ + d.shown_name() + " os="@ + d.os@
        + " address="@ + d.shown_address() + " trust="@ + d.shown_trust() + " role="@ + d.role@
        + " pos=("@ + signed_decimal(d.x as int) + ", "@ + signed_decimal(d.y as int) + ") size="@
        + decimal(d.width as nat) + "x"@ + decimal(d.height as nat)
}

fn device_line_text(d: &SimDevice) -> (t: String)
    ensures
        t@ == device_line(*d),
{
    let mut t = "    - id=".to_owned();
    append(&mut t, &d.id_text());
    append(&mut t, " display_name=");
    append(&mut t, &d.name_text());
    append(&mut t, " os=");
    append(&mut t, &d.os);
    append(&mut t, " address=");
    append(&mut t, &d.address_text());
    append(&mut t, " trust=");
    append(&mut t, d.trust_text());
    append(&mut t, " role=");
    append(&mut t, &d.role);
    append(&mut t, " pos=(");
    append(&mut t, &signed_decimal_text(d.x));
    append(&mut t, ", ");
    append(&mut t, &signed_decimal_text(d.y));
    append(&mut t, ") size=");
    append(&mut t, &decimal_text(d.width as u64));
    append(&mut t, "x");
    append(&mut t, &decimal_text(d.height as u64));
    t
}

/// The line of a plan.
pub open spec fn plan_line(plan: SimConnectionPlanEntry) -> Seq<char> {
    "    - "@ + plan.display_name@ + ": "@ + plan.kind.wording() + " ("@ + plan.detail@ + ")"@
}

fn plan_line_text(plan: &SimConnectionPlanEntry) -> (t: String)
    ensures
        t@ == plan_line(*plan),
{
    let mut t = "    - ".to_owned();
    append(&mut t, &plan.display_name);
    append(&mut t, ": ");
    append(&mut t, plan.kind.label());
    append(&mut t, " (");
    append(&mut t, &plan.detail);
    append(&mut t, ")");
    t
}

/// The line of the network.
pub open spec fn network_line(network: SimNetwork) -> Seq<char> {
    "  network: profile="@ + network.profile@ + " rtt="@ + decimal(network.rtt_ms as nat)
        + "ms jitter="@ + decimal(network.jitter_ms as nat) + "ms loss="@ + network.loss_text@
        + " throughput="@ + decimal(network.throughput_bps as nat) + "bps"@
}

fn network_line_text(network: &SimNetwork) -> (t: String)
    ensures
        t@ == network_line(*network),
{
    let mut t = "  network: profile=".to_owned();
    append(&mut t, &network.profile);
    append(&mut t, " rtt=");
    append(&mut t, &decimal_text(network.rtt_ms));
    append(&mut t, "ms jitter=");
    append(&mut t, &decimal_text(network.jitter_ms));
    append(&mut t, "ms loss=");
    append(&mut t, &network.loss_text);
    append(&mut t, " throughput=");
    append(&mut t, &decimal_text(network.throughput_bps));
    append(&mut t, "bps");
    t
}

/// The line of the features.
pub open spec fn features_line(f: SimFeatures) -> Seq<char> {
    "  features: clipboard="@ + bool_wording(f.clipboard) + " file_transfer="@ + bool_wording(
        f.file_transfer,
    ) + " screen_preview="@ + bool_wording(f.screen_preview) + " shared_cursor="@ + bool_wording(
        f.shared_cursor,
    ) + " plugins="@ + bool_wording(f.plugins)
}

fn features_line_text(f: SimFeatures) -> (t: String)
    ensures
        t@ == features_line(f),
{
    let mut t = "  features: clipboard=".to_owned();
    append(&mut t, bool_text(f.clipboard));
    append(&mut t, " file_transfer=");
    append(&mut t, bool_text(f.file_transfer));
    append(&mut t, " screen_preview=");
    append(&mut t, bool_text(f.screen_preview));
    append(&mut t, " shared_cursor=");
    append(&mut t, bool_text(f.shared_cursor));
    append(&mut t, " plugins=");
    append(&mut t, bool_text(f.plugins));
    t
}

/// The lines of the report for people.
pub open spec fn report_lines(
    path: Seq<char>,
    config: SimConfig,
    plans: Seq<SimConnectionPlanEntry>,
    devices: Seq<SimRuntimeDevice>,
    found: SimulatorOutcomes,
    bytes: nat,
) -> Seq<Seq<char>> {
    seq![
        "simulation config: "@ + path,
        network_line(config.network),
        "  devices: "@ + decimal(config.device@.len()),
    ] + config.device@.map_values(|d: SimDevice| device_line(d)) + seq!["  connection planning:"@]
        + plans.map_values(|p: SimConnectionPlanEntry| plan_line(p)) + seq![
        features_line(config.features),
        "  simulators:"@,
        discovery_line(devices, found),
        latency_line(found),
        workspace_line(devices, found.snap),
        screen_line(devices, found.screen),
        collaboration_line(devices, found.collaboration),
        "  simulation_report_json: "@ + report_json(config, plans, devices, found),
        "  bytes: "@ + decimal(bytes),
        "  status: typed TOML parsed and validated"@,
    ]
}

/// Writes the report for people, line by line. `bytes` is the length of the
/// configuration's text.
#[verifier::spinoff_prover]
pub fn simulation_report_lines(
    path: &str,
    config: &SimConfig,
    plans: &Vec<SimConnectionPlanEntry>,
    runtime_devices: &Vec<SimRuntimeDevice>,
    found: &SimulatorOutcomes,
    bytes: u64,
) -> (lines: Vec<String>)
    ensures
        texts(lines@) == report_lines(
            path@,
            *config,
            plans@,
            runtime_devices@,
            *found,
            bytes as nat,
        ),
{
    let mut lines: Vec<String> = Vec::new();
    lines.push(crate::text::concat("simulation config: ", path));
    lines.push(network_line_text(&config.network));
    lines.push(crate::text::concat("  devices: ", &decimal_text(config.device.len() as u64)));
    let ghost head = seq![
        "simulation config: "@ + path@,
        network_line(config.network),
        "  devices: "@ + decimal(config.device@.len()),
    ];
    let ghost device_lines = config.device@.map_values(|d: SimDevice| device_line(d));
    assert(texts(lines@) =~= head + device_lines.take(0));
    let mut i: usize = 0;
    while i < config.device.len()
        invariant
            i <= config.device.len(),
            device_lines == config.device@.map_values(|d: SimDevice| device_line(d)),
            texts(lines@) == head + device_lines.take(i as int),
        decreases config.device.len() - i,
    {
        let ghost before = lines@;
        lines.push(device_line_text(&config.device[i]));
        assert(texts(lines@) =~= texts(before).push(device_line(config.device@[i as int])));
        assert(texts(lines@) =~= head + device_lines.take(i + 1));
        i += 1;
    }
    assert(device_lines.take(i as int) =~= device_lines);
    let ghost so_far = lines@;
    lines.push("  connection planning:".to_owned());
    let ghost middle = head + device_lines + seq!["  connection planning:"@];
    let ghost plan_lines = plans@.map_values(|p: SimConnectionPlanEntry| plan_line(p));
    assert(texts(lines@) =~= texts(so_far).push("  connection planning:"@));
    assert(texts(lines@) =~= middle + plan_lines.take(0));
    let mut k: usize = 0;
    while k < plans.len()
        invariant
            k <= plans.len(),
            plan_lines == plans@.map_values(|p: SimConnectionPlanEntry| plan_line(p)),
            texts(lines@) == middle + plan_lines.take(k as int),
        decreases plans.len() - k,
    {
        let ghost before = lines@;
        lines.push(plan_line_text(&plans[k]));
        assert(texts(lines@) =~= texts(before).push(plan_line(plans@[k as int])));
        assert(texts(lines@) =~= middle + plan_lines.take(k + 1));
        k += 1;
    }
    assert(plan_lines.take(k as int) =~= plan_lines);
    let ghost tail_start = lines@;
    let json = build_simulation_report_json(config, plans, runtime_devices, found);
    lines.push(features_line_text(config.features));
    lines.push("  simulators:".to_owned());
    lines.push(discovery_line_text(runtime_devices, found));
    lines.push(latency_line_text(found));
    lines.push(workspace_line_text(runtime_devices, &found.snap));
    lines.push(screen_line_text(runtime_devices, &found.screen));
    lines.push(collaboration_line_text(runtime_devices, &found.collaboration));
    lines.push(crate::text::concat("  simulation_report_json: ", &json));
    lines.push(crate::text::concat("  bytes: ", &decimal_text(bytes)));
    lines.push("  status: typed TOML parsed and validated".to_owned());
    assert(texts(lines@) =~= texts(tail_start) + seq![
        features_line(config.features),
        "  simulators:"@,
        discovery_line(runtime_devices@, *found),
        latency_line(*found),
        workspace_line(runtime_devices@, found.snap),
        screen_line(runtime_devices@, found.screen),
        collaboration_line(runtime_devices@, found.collaboration),
        "  simulation_report_json: "@ + report_json(*config, plans@, runtime_devices@, *found),
        "  bytes: "@ + decimal(bytes as nat),
        "  status: typed TOML parsed and validated"@,
    ]);
    lines
}

/// A device is named by its identifier wherever it stands, by the first name where
/// several have it, and by the fallback where none has.
pub proof fn law_devices_are_named_by_their_identifier(
    devices: Seq<SimRuntimeDevice>,
    id: DeviceId,
    fallback: Seq<char>,
    k: int,
)
    ensures
        0 <= k < devices.len() && devices[k].id == id && (forall|j: int|
            0 <= j < k ==> (#[trigger] devices[j]).id != id) ==> name_with_id(
            devices,
            id,
            fallback,
            0,
        ) == devices[k].name@,
        (forall|j: int| 0 <= j < devices.len() ==> (#[trigger] devices[j]).id != id)
            ==> name_with_id(devices, id, fallback, 0) == fallback,
        best_name(devices, None) == "none"@,
        best_name(devices, Some(id)) == name_with_id(devices, id, "none"@, 0),
{
    if 0 <= k < devices.len() {
        lemma_name_from(devices, id, fallback, 0, k);
    }
    lemma_no_name_from(devices, id, fallback, 0);
}

proof fn lemma_name_from(
    devices: Seq<SimRuntimeDevice>,
    id: DeviceId,
    fallback: Seq<char>,
    i: int,
    k: int,
)
    requires
        0 <= i <= k < devices.len(),
    ensures
        devices[k].id == id && (forall|j: int| i <= j < k ==> (#[trigger] devices[j]).id != id)
            ==> name_with_id(devices, id, fallback, i) == devices[k].name@,
    decreases k - i,
{
    if i < k {
        lemma_name_from(devices, id, fallback, i + 1, k);
    }
}

proof fn lemma_no_name_from(
    devices: Seq<SimRuntimeDevice>,
    id: DeviceId,
    fallback: Seq<char>,
    i: int,
)
    requires
        0 <= i <= devices.len(),
    ensures
        (forall|j: int| i <= j < devices.len() ==> (#[trigger] devices[j]).id != id)
            ==> name_with_id(devices, id, fallback, i) == fallback,
    decreases devices.len() - i,
{
    if i < devices.len() {
        lemma_no_name_from(devices, id, fallback, i + 1);
    }
}

/// Every device and every plan has its line in the report, in its place.
pub proof fn law_reports_list_every_device_and_plan(
    path: Seq<char>,
    config: SimConfig,
    plans: Seq<SimConnectionPlanEntry>,
    devices: Seq<SimRuntimeDevice>,
    found: SimulatorOutcomes,
    bytes: nat,
    i: int,
)
    ensures
        ({
            let lines = report_lines(path, config, plans, devices, found, bytes);
            let n = config.device@.len();
            let m = plans.len();
            &&& lines.len() == n + m + 14
            &&& lines[0] == "simulation config: "@ + path
            &&& lines[2] == "  devices: "@ + decimal(n)
            &&& 0 <= i < n ==> lines[3 + i] == device_line(config.device@[i])
            &&& 0 <= i < m ==> lines[4 + n + i] == "    - "@ + plans[i].display_name@ + ": "@
                + plans[i].kind.wording() + " ("@ + plans[i].detail@ + ")"@
            &&& lines[lines.len() - 2] == "  bytes: "@ + decimal(bytes)
        }),
{
}

/// A list in JSON holds every device, in its place, with a comma between each two.
pub proof fn law_json_lists_every_device(devices: Seq<SimDevice>, more: SimDevice)
    ensures
        devices_json(Seq::empty()) == "[]"@,
        devices_json(seq![more]) == "["@ + device_json(more) + "]"@,
        devices.len() > 0 ==> devices_json(devices.push(more)) == devices_json(devices).drop_last()
            + ","@ + device_json(more) + "]"@,
{
    reveal_strlit("[]");
    reveal_strlit("[");
    reveal_strlit("]");
    let json = |d: SimDevice| device_json(d);
    let none = Seq::<SimDevice>::empty();
    assert(none.map_values(json).len() == 0);
    assert(devices_json(none) =~= "[]"@);
    assert(seq![more].map_values(json)[0] == device_json(more));
    let items = devices.map_values(json);
    let all = devices.push(more).map_values(json);
    assert(all.drop_last() =~= items);
    assert(all.last() == device_json(more));
    if devices.len() > 0 {
        let inner = joined(items, ","@);
        assert(joined(all, ","@) == inner + ","@ + device_json(more));
        assert(devices_json(devices).drop_last() =~= "["@ + inner);
        assert(devices_json(devices.push(more)) =~= devices_json(devices).drop_last() + ","@
            + device_json(more) + "]"@);
    }
}

/// A list in JSON holds every plan, in its place, with a comma between each two.
pub proof fn law_json_lists_every_plan(
    plans: Seq<SimConnectionPlanEntry>,
    more: SimConnectionPlanEntry,
)
    ensures
        plans_json(Seq::empty()) == "[]"@,
        plans_json(seq![more]) == "["@ + plan_json(more) + "]"@,
        plans.len() > 0 ==> plans_json(plans.push(more)) == plans_json(plans).drop_last() + ","@
            + plan_json(more) + "]"@,
{
    reveal_strlit("[]");
    reveal_strlit("[");
    reveal_strlit("]");
    let json = |p: SimConnectionPlanEntry| plan_json(p);
    let none = Seq::<SimConnectionPlanEntry>::empty();
    assert(none.map_values(json).len() == 0);
    assert(plans_json(none) =~= "[]"@);
    assert(seq![more].map_values(json)[0] == plan_json(more));
    let items = plans.map_values(json);
    let all = plans.push(more).map_values(json);
    assert(all.drop_last() =~= items);
    assert(all.last() == plan_json(more));
    if plans.len() > 0 {
        let inner = joined(items, ","@);
        assert(joined(all, ","@) == inner + ","@ + plan_json(more));
        assert(plans_json(plans).drop_last() =~= "["@ + inner);
        assert(plans_json(plans.push(more)) =~= plans_json(plans).drop_last() + ","@
            + plan_json(more) + "]"@);
    }
}

/// Nothing is said of a screen or of working together with fewer than two devices, nor
/// of a workspace without any, whatever was found.
pub proof fn law_lone_devices_share_nothing(
    devices: Seq<SimRuntimeDevice>,
    found: SimulatorOutcomes,
)
    ensures
        devices.len() < 2 ==> screen_json(devices, found.screen) == unavailable_json(
            "need-at-least-2-devices"@,
        ) && collaboration_json(devices, found.collaboration) == unavailable_json(
            "need-at-least-2-devices"@,
        ) && screen_line(devices, found.screen)
            == "    - screen: unavailable (need at least 2 devices)"@ && collaboration_line(
            devices,
            found.collaboration,
        ) == "    - collaboration: unavailable (need at least 2 devices)"@,
        devices.len() == 0 ==> workspace_json(devices, found.snap) == unavailable_json(
            "no-devices"@,
        ) && workspace_line(devices, found.snap) == "    - workspace: no devices"@,
        devices.len() >= 1 && found.snap is Failed ==> workspace_json(devices, found.snap)
            == unavailable_json(found.snap->Failed_reason@),
        devices.len() >= 2 && found.screen is Failed ==> screen_json(devices, found.screen)
            == unavailable_json(found.screen->Failed_reason@),
        devices.len() >= 2 && found.collaboration is Failed ==> collaboration_json(
            devices,
            found.collaboration,
        ) == unavailable_json(found.collaboration->Failed_reason@),
{
}

} // verus!
