//! The configuration of a simulated workspace, and what it plans.

use vstd::prelude::*;

use vstd::utf8::encode_utf8;

use crate::ids::append_bytes;
use crate::ids::DeviceId;
use crate::net::SocketAddress;
use crate::outside::sha256;
use crate::outside::sha256_of;
use crate::text::append;
use crate::text::hex_padded;
use crate::text::hex_text;
use crate::text::same_text;

verus! {

/// The simulated network. `loss` is a fraction: `loss_text` is how it is printed
/// and `loss_json` how JSON writes it.
#[derive(Debug)]
pub struct SimNetwork {
    pub profile: String,
    pub rtt_ms: u64,
    pub jitter_ms: u64,
    pub loss_text: String,
    pub loss_json: String,
    pub throughput_bps: u64,
}

/// A simulated device. `parsed` is what its address spells, if it has one that
/// spells a socket address.
#[derive(Debug)]
pub struct SimDevice {
    pub name: String,
    pub os: String,
    pub role: String,
    pub id: Option<String>,
    pub display_name: Option<String>,
    pub address: Option<String>,
    pub parsed: Option<SocketAddress>,
    pub trusted: Option<bool>,
    pub x: i32,
    pub y: i32,
    pub width: u32,
    pub height: u32,
}

/// The features that the simulation switches on.
#[derive(Clone, Copy, PartialEq, Eq, Structural, Debug)]
pub struct SimFeatures {
    pub clipboard: bool,
    pub file_transfer: bool,
    pub screen_preview: bool,
    pub shared_cursor: bool,
    pub plugins: bool,
}

/// A simulated workspace.
#[derive(Debug)]
pub struct SimConfig {
    pub network: SimNetwork,
    pub device: Vec<SimDevice>,
    pub features: SimFeatures,
}

/// Why a workspace is refused.
#[derive(Debug)]
pub enum SimConfigError {
    NoDevices,
    DuplicateName { name: String },
    UnknownOs { os: String, name: String },
}

/// The refusal of a name that two devices have.
pub open spec fn duplicate_name(name: Seq<char>) -> Seq<char> {
    "duplicate device name `"@ + name + "` in simulation config"@
}

/// The refusal of an operating system that nobody knows.
pub open spec fn unknown_os(os: Seq<char>, name: Seq<char>) -> Seq<char> {
    "unknown device os `"@ + os + "` for `"@ + name
        + "`; expected one of macos, windows, linux-wayland, linux-x11, android, ios"@
}

impl SimConfigError {
    /// The wording of the refusal.
    pub open spec fn wording(self) -> Seq<char> {
        match self {
            SimConfigError::NoDevices => "simulation config must define at least one [[device]]"@,
            SimConfigError::DuplicateName { name } => duplicate_name(name@),
            SimConfigError::UnknownOs { os, name } => unknown_os(os@, name@),
        }
    }

    /// The wording of the refusal.
    pub fn message(&self) -> (m: String)
        ensures
            m@ == self.wording(),
    {
        match self {
            SimConfigError::NoDevices => "simulation config must define at least one [[device]]".to_owned(),
            SimConfigError::DuplicateName { name } => {
                let mut m = "duplicate device name `".to_owned();
                append(&mut m, name);
                append(&mut m, "` in simulation config");
                m
            },
            SimConfigError::UnknownOs { os, name } => {
                let mut m = "unknown device os `".to_owned();
                append(&mut m, os);
                append(&mut m, "` for `");
                append(&mut m, name);
                append(
                    &mut m,
                    "`; expected one of macos, windows, linux-wayland, linux-x11, android, ios",
                );
                m
            },
        }
    }
}

/// Whether an operating system can be simulated.
pub open spec fn known_os(os: Seq<char>) -> bool {
    os == "macos"@ || os == "windows"@ || os == "linux-wayland"@ || os == "linux-x11"@ || os
        == "android"@ || os == "ios"@
}

/// Whether one of the first devices has a name.
pub open spec fn name_taken(devices: Seq<SimDevice>, n: int, name: Seq<char>) -> bool {
    exists|k: int| 0 <= k < n && #[trigger] devices[k].name@ == name
}

/// The first complaint about a device from a position on.
pub open spec fn first_complaint(devices: Seq<SimDevice>, i: int) -> Option<Seq<char>>
    decreases devices.len() - i,
{
    if i >= devices.len() {
        None
    } else if name_taken(devices, i, devices[i].name@) {
        Some(duplicate_name(devices[i].name@))
    } else if !known_os(devices[i].os@) {
        Some(unknown_os(devices[i].os@, devices[i].name@))
    } else {
        first_complaint(devices, i + 1)
    }
}

/// What is wrong with a workspace.
pub open spec fn complaint(devices: Seq<SimDevice>) -> Option<Seq<char>> {
    if devices.len() == 0 {
        Some("simulation config must define at least one [[device]]"@)
    } else {
        first_complaint(devices, 0)
    }
}

fn is_name_taken(devices: &Vec<SimDevice>, n: usize, name: &str) -> (b: bool)
    requires
        n <= devices@.len(),
    ensures
        b == name_taken(devices@, n as int, name@),
{
    let mut k: usize = 0;
    while k < n
        invariant
            k <= n <= devices@.len(),
            forall|m: int| 0 <= m < k ==> #[trigger] devices@[m].name@ != name@,
        decreases n - k,
    {
        if same_text(&devices[k].name, name) {
            return true;
        }
        k += 1;
    }
    false
}

/// Checks a workspace: it has devices, each name once, each of a known system.
pub fn validate_sim_config(config: &SimConfig) -> (r: Result<(), SimConfigError>)
    ensures
        match r {
            Ok(_) => complaint(config.device@) is None,
            Err(e) => complaint(config.device@) == Some(e.wording()),
        },
{
    let devices = &config.device;
    if devices.len() == 0 {
        return Err(SimConfigError::NoDevices);
    }
    let mut i: usize = 0;
    while i < devices.len()
        invariant
            i <= devices.len(),
            devices@ == config.device@,
            devices@.len() > 0,
            complaint(config.device@) == first_complaint(config.device@, i as int),
        decreases devices.len() - i,
    {
        let name = &devices[i].name;
        let os = &devices[i].os;
        if is_name_taken(devices, i, name) {
            return Err(SimConfigError::DuplicateName { name: name.clone() });
        }
        if !(same_text(os, "macos") || same_text(os, "windows") || same_text(os, "linux-wayland")
            || same_text(os, "linux-x11") || same_text(os, "android") || same_text(os, "ios")) {
            return Err(SimConfigError::UnknownOs { os: os.clone(), name: name.clone() });
        }
        i += 1;
    }
    Ok(())
}

/// What the identifier of a device is made of, where the configuration gives none:
/// its name, its system and its address.
pub open spec fn identity_bytes(device: SimDevice) -> Seq<u8> {
    encode_utf8("nexkvm simulate device id v1"@) + encode_utf8(device.name@) + encode_utf8(
        device.os@,
    ) + (match device.address {
        Some(address) => encode_utf8(address@),
        None => Seq::empty(),
    })
}

/// The identifier that a digest gives: its first four bytes.
pub open spec fn digest_id(digest: Seq<u8>) -> Seq<char> {
    "sim-"@ + hex_padded(digest[0] as int, 2) + hex_padded(digest[1] as int, 2) + hex_padded(
        digest[2] as int,
        2,
    ) + hex_padded(digest[3] as int, 2)
}

/// Writes the identifier that a digest gives.
pub fn digest_id_text(digest: &[u8; 32]) -> (id: String)
    ensures
        id@ == digest_id(digest@),
{
    let mut id = "sim-".to_owned();
    append(&mut id, &hex_text(digest[0] as u64, 2));
    append(&mut id, &hex_text(digest[1] as u64, 2));
    append(&mut id, &hex_text(digest[2] as u64, 2));
    append(&mut id, &hex_text(digest[3] as u64, 2));
    id
}

/// The identifier of a device that the configuration gives none.
pub fn simulated_device_id(device: &SimDevice) -> (id: String)
    ensures
        id@ == digest_id(sha256_of(identity_bytes(*device))),
{
    let mut input: Vec<u8> = Vec::new();
    append_bytes(&mut input, "nexkvm simulate device id v1".as_bytes());
    append_bytes(&mut input, device.name.as_str().as_bytes());
    append_bytes(&mut input, device.os.as_str().as_bytes());
    if let Some(address) = &device.address {
        append_bytes(&mut input, address.as_str().as_bytes());
    }
    assert(input@ =~= identity_bytes(*device));
    digest_id_text(&sha256(input.as_slice()))
}

impl SimDevice {
    /// The device's identifier: the configured one, or one of its own.
    pub open spec fn shown_id(self) -> Seq<char> {
        match self.id {
            Some(id) => id@,
            None => digest_id(sha256_of(identity_bytes(self))),
        }
    }

    /// The device's identifier.
    pub fn id_text(&self) -> (id: String)
        ensures
            id@ == self.shown_id(),
    {
        match &self.id {
            Some(id) => id.clone(),
            None => simulated_device_id(self),
        }
    }

    /// The name that the device is shown by.
    pub open spec fn shown_name(self) -> Seq<char> {
        match self.display_name {
            Some(name) => name@,
            None => self.name@,
        }
    }

    /// The name that the device is shown by.
    pub fn name_text(&self) -> (name: String)
        ensures
            name@ == self.shown_name(),
    {
        match &self.display_name {
            Some(name) => name.clone(),
            None => self.name.clone(),
        }
    }

    /// The device's address, as far as it has one.
    pub open spec fn shown_address(self) -> Seq<char> {
        match self.address {
            Some(address) => address@,
            None => "unassigned"@,
        }
    }

    /// The device's address, as far as it has one.
    pub fn address_text(&self) -> (address: String)
        ensures
            address@ == self.shown_address(),
    {
        match &self.address {
            Some(address) => address.clone(),
            None => "unassigned".to_owned(),
        }
    }

    /// Whether the device is trusted: only if it says so.
    pub open spec fn is_trusted(self) -> bool {
        self.trusted == Some(true)
    }

    /// Whether the device is trusted.
    pub fn trusted(&self) -> (b: bool)
        ensures
            b == self.is_trusted(),
    {
        match self.trusted {
            Some(b) => b,
            None => false,
        }
    }

    /// The label of the device's trust.
    pub open spec fn shown_trust(self) -> Seq<char> {
        if self.is_trusted() {
            "trusted"@
        } else {
            "untrusted"@
        }
    }

    /// The label of the device's trust.
    pub fn trust_text(&self) -> (label: &'static str)
        ensures
            label@ == self.shown_trust(),
    {
        if self.trusted() {
            "trusted"
        } else {
            "untrusted"
        }
    }
}

/// How a device will be reached.
#[derive(Clone, Copy, PartialEq, Eq, Structural, Debug)]
pub enum SimConnectionPlanKind {
    DirectLan,
    ReconnectCandidate,
    MissingTrust,
    InvalidConfiguration,
}

impl SimConnectionPlanKind {
    /// The label of the plan.
    pub open spec fn wording(self) -> Seq<char> {
        match self {
            SimConnectionPlanKind::DirectLan => "direct-lan"@,
            SimConnectionPlanKind::ReconnectCandidate => "reconnect-candidate"@,
            SimConnectionPlanKind::MissingTrust => "missing-trust"@,
            SimConnectionPlanKind::InvalidConfiguration => "invalid-configuration"@,
        }
    }

    /// The label of the plan.
    pub fn label(self) -> (label: &'static str)
        ensures
            label@ == self.wording(),
    {
        match self {
            SimConnectionPlanKind::DirectLan => "direct-lan",
            SimConnectionPlanKind::ReconnectCandidate => "reconnect-candidate",
            SimConnectionPlanKind::MissingTrust => "missing-trust",
            SimConnectionPlanKind::InvalidConfiguration => "invalid-configuration",
        }
    }
}

/// How a device will be reached, and why.
#[derive(Debug)]
pub struct SimConnectionPlanEntry {
    pub display_name: String,
    pub kind: SimConnectionPlanKind,
    pub detail: String,
}

/// The plan for a device and its explanation: a role or an address that is wrong
/// comes before missing trust, and trust before the address.
pub open spec fn plan_of(device: SimDevice) -> (SimConnectionPlanKind, Seq<char>) {
    if device.role@ != "server"@ && device.role@ != "client"@ {
        (
            SimConnectionPlanKind::InvalidConfiguration,
            "unsupported role `"@ + device.role@ + "`"@,
        )
    } else if device.address is Some && device.parsed is None {
        (
            SimConnectionPlanKind::InvalidConfiguration,
            "invalid address `"@ + device.address->Some_0@ + "` (expected ip:port)"@,
        )
    } else if !device.is_trusted() {
        (SimConnectionPlanKind::MissingTrust, "device is not trusted"@)
    } else if device.address is Some {
        (SimConnectionPlanKind::DirectLan, "connect directly to "@ + device.address->Some_0@)
    } else {
        (
            SimConnectionPlanKind::ReconnectCandidate,
            "trusted device without address; wait for discovery"@,
        )
    }
}

impl SimConnectionPlanEntry {
    /// Whether this is the plan for a device.
    pub open spec fn plans(self, device: SimDevice) -> bool {
        &&& self.display_name@ == device.shown_name()
        &&& self.kind == plan_of(device).0
        &&& self.detail@ == plan_of(device).1
    }
}

/// Plans how a device will be reached.
pub fn build_connection_plan(device: &SimDevice) -> (entry: SimConnectionPlanEntry)
    ensures
        entry.plans(*device),
{
    let display_name = device.name_text();
    if !same_text(&device.role, "server") && !same_text(&device.role, "client") {
        let mut detail = "unsupported role `".to_owned();
        append(&mut detail, &device.role);
        append(&mut detail, "`");
        return SimConnectionPlanEntry {
            display_name,
            kind: SimConnectionPlanKind::InvalidConfiguration,
            detail,
        };
    }
    if let Some(address) = &device.address {
        if device.parsed.is_none() {
            let mut detail = "invalid address `".to_owned();
            append(&mut detail, address);
            append(&mut detail, "` (expected ip:port)");
            return SimConnectionPlanEntry {
                display_name,
                kind: SimConnectionPlanKind::InvalidConfiguration,
                detail,
            };
        }
    }
    if !device.trusted() {
        return SimConnectionPlanEntry {
            display_name,
            kind: SimConnectionPlanKind::MissingTrust,
            detail: "device is not trusted".to_owned(),
        };
    }
    match &device.address {
        Some(address) => {
            let mut detail = "connect directly to ".to_owned();
            append(&mut detail, address);
            SimConnectionPlanEntry { display_name, kind: SimConnectionPlanKind::DirectLan, detail }
        },
        None => SimConnectionPlanEntry {
            display_name,
            kind: SimConnectionPlanKind::ReconnectCandidate,
            detail: "trusted device without address; wait for discovery".to_owned(),
        },
    }
}

/// Whether these are the plans for the devices, in their order.
pub open spec fn plans_for(plans: Seq<SimConnectionPlanEntry>, devices: Seq<SimDevice>) -> bool {
    &&& plans.len() == devices.len()
    &&& forall|k: int| 0 <= k < plans.len() ==> (#[trigger] plans[k]).plans(devices[k])
}

/// Plans how each device will be reached.
pub fn build_connection_plans(devices: &Vec<SimDevice>) -> (plans: Vec<SimConnectionPlanEntry>)
    ensures
        plans_for(plans@, devices@),
{
    let mut plans: Vec<SimConnectionPlanEntry> = Vec::new();
    let mut i: usize = 0;
    while i < devices.len()
        invariant
            i <= devices.len(),
            plans.len() == i,
            forall|k: int| 0 <= k < i ==> (#[trigger] plans@[k]).plans(devices@[k]),
        decreases devices.len() - i,
    {
        plans.push(build_connection_plan(&devices[i]));
        i += 1;
    }
    plans
}

/// Only a trusted device with a well-formed address is dialled directly.
pub proof fn law_only_trusted_addresses_are_dialled(device: SimDevice)
    requires
        plan_of(device).0 == SimConnectionPlanKind::DirectLan,
    ensures
        device.is_trusted(),
        device.address is Some,
        device.parsed is Some,
{
}

/// A device as the simulators see it.
#[derive(Debug)]
pub struct SimRuntimeDevice {
    pub id: DeviceId,
    pub name: String,
    pub address: Option<SocketAddress>,
    pub trusted: bool,
    pub x: i32,
    pub y: i32,
    pub width: u32,
    pub height: u32,
}

impl SimRuntimeDevice {
    /// Whether this is a configured device under a drawn identifier.
    pub open spec fn stands_for(self, device: SimDevice, id: DeviceId) -> bool {
        &&& self.id == id
        &&& self.name@ == device.shown_name()
        &&& self.address == (if device.address is Some {
            device.parsed
        } else {
            None
        })
        &&& self.trusted == device.is_trusted()
        &&& self.x == device.x
        &&& self.y == device.y
        &&& self.width == device.width
        &&& self.height == device.height
    }
}

/// The devices as the simulators see them, each under an identifier that was
/// drawn for it.
pub fn build_runtime_devices(devices: &Vec<SimDevice>, drawn: &Vec<DeviceId>) -> (runtime: Vec<
    SimRuntimeDevice,
>)
    requires
        drawn@.len() == devices@.len(),
    ensures
        runtime@.len() == devices@.len(),
        forall|k: int|
            0 <= k < runtime@.len() ==> (#[trigger] runtime@[k]).stands_for(devices@[k], drawn@[k]),
{
    let mut runtime: Vec<SimRuntimeDevice> = Vec::new();
    let mut i: usize = 0;
    while i < devices.len()
        invariant
            i <= devices.len(),
            drawn@.len() == devices@.len(),
            runtime.len() == i,
            forall|k: int|
                0 <= k < i ==> (#[trigger] runtime@[k]).stands_for(devices@[k], drawn@[k]),
        decreases devices.len() - i,
    {
        let device = &devices[i];
        let address: Option<SocketAddress> = if device.address.is_some() {
            device.parsed
        } else {
            None
        };
        runtime.push(
            SimRuntimeDevice {
                id: drawn[i],
                name: device.name_text(),
                address,
                trusted: device.trusted(),
                x: device.x,
                y: device.y,
                width: device.width,
                height: device.height,
            },
        );
        i += 1;
    }
    runtime
}

/// The bits of the double 0.85.
pub const SURE: u64 = 0x3feb_3333_3333_3333;

/// The bits of the double that 0.85 less 0.2 gives.
pub const FAIRLY_SURE: u64 = 0x3fe4_cccc_cccc_cccc;

/// The bits of the double 0.35.
pub const UNSURE: u64 = 0x3fd6_6666_6666_6666;

/// The bits of the double that 0.35 less 0.2 gives.
pub const VERY_UNSURE: u64 = 0x3fc3_3333_3333_3332;

/// How sure a heartbeat makes the simulator that a device is near, as the bits of a
/// double: more so of a trusted device, and by 0.2 less of one without an address.
pub open spec fn confidence_of(trusted: bool, addressed: bool) -> u64 {
    if trusted {
        if addressed {
            SURE
        } else {
            FAIRLY_SURE
        }
    } else if addressed {
        UNSURE
    } else {
        VERY_UNSURE
    }
}

/// How sure a heartbeat makes the simulator that a device is near, as the bits of a
/// double.
pub fn heartbeat_confidence(device: &SimRuntimeDevice) -> (bits: u64)
    ensures
        bits == confidence_of(device.trusted, device.address is Some),
{
    let addressed: bool = device.address.is_some();
    if device.trusted {
        if addressed {
            SURE
        } else {
            FAIRLY_SURE
        }
    } else if addressed {
        UNSURE
    } else {
        VERY_UNSURE
    }
}

/// The round trips that the latency simulator observes, in milliseconds: one
/// below the configured one, itself, and one above.
pub open spec fn samples_of(rtt_ms: u64, jitter_ms: u64) -> (int, int, int) {
    let base: int = if rtt_ms == 0 {
        1
    } else {
        rtt_ms as int
    };
    (
        if base > jitter_ms {
            base - jitter_ms
        } else {
            1
        },
        base,
        if base + jitter_ms <= u64::MAX {
            base + jitter_ms
        } else {
            u64::MAX as int
        },
    )
}

/// The round trips that the latency simulator observes.
pub fn latency_samples(rtt_ms: u64, jitter_ms: u64) -> (samples: (u64, u64, u64))
    ensures
        samples.0 == samples_of(rtt_ms, jitter_ms).0,
        samples.1 == samples_of(rtt_ms, jitter_ms).1,
        samples.2 == samples_of(rtt_ms, jitter_ms).2,
{
    let base: u64 = if rtt_ms == 0 {
        1
    } else {
        rtt_ms
    };
    let low: u64 = if base > jitter_ms {
        base - jitter_ms
    } else {
        1
    };
    let high: u64 = if jitter_ms <= u64::MAX - base {
        base + jitter_ms
    } else {
        u64::MAX
    };
    (low, base, high)
}

/// The simulated round trips are positive and in order.
pub proof fn law_latency_samples_are_ordered(rtt_ms: u64, jitter_ms: u64)
    ensures
        1 <= samples_of(rtt_ms, jitter_ms).0,
        samples_of(rtt_ms, jitter_ms).0 <= samples_of(rtt_ms, jitter_ms).1,
        samples_of(rtt_ms, jitter_ms).1 <= samples_of(rtt_ms, jitter_ms).2,
{
}

proof fn lemma_complaints(devices: Seq<SimDevice>, i: int)
    requires
        0 <= i <= devices.len(),
    ensures
        first_complaint(devices, i) is None <==> forall|k: int|
            i <= k < devices.len() ==> known_os((#[trigger] devices[k]).os@) && !name_taken(
                devices,
                k,
                devices[k].name@,
            ),
    decreases devices.len() - i,
{
    if i < devices.len() {
        lemma_complaints(devices, i + 1);
    }
}

/// A configuration is accepted exactly where it has devices, each under a name of its
/// own and with one of the systems that are known.
pub proof fn law_tidy_configurations_are_accepted(devices: Seq<SimDevice>)
    ensures
        complaint(devices) is None <==> {
            &&& devices.len() > 0
            &&& forall|i: int, j: int|
                0 <= i < j < devices.len() ==> (#[trigger] devices[i]).name@ != (
                #[trigger] devices[j]).name@
            &&& forall|i: int|
                0 <= i < devices.len() ==> {
                    let os = (#[trigger] devices[i]).os@;
                    ||| os == "macos"@
                    ||| os == "windows"@
                    ||| os == "linux-wayland"@
                    ||| os == "linux-x11"@
                    ||| os == "android"@
                    ||| os == "ios"@
                }
        },
{
    lemma_complaints(devices, 0);
    if forall|i: int, j: int|
        0 <= i < j < devices.len() ==> (#[trigger] devices[i]).name@ != (#[trigger] devices[j]).name@ {
        assert forall|k: int| 0 <= k < devices.len() implies !name_taken(
            devices,
            k,
            (#[trigger] devices[k]).name@,
        ) by {
            if name_taken(devices, k, devices[k].name@) {
                let j = choose|j: int| 0 <= j < k && #[trigger] devices[j].name@ == devices[k].name@;
                assert(devices[j].name@ != devices[k].name@);
            }
        }
    }
    if complaint(devices) is None {
        assert forall|i: int, j: int| 0 <= i < j < devices.len() implies (#[trigger] devices[i]).name@
            != (#[trigger] devices[j]).name@ by {
            assert(!name_taken(devices, j, devices[j].name@));
        }
    }
}

/// Every device has a plan, in its place and under the name that it shows. A trusted
/// device with an address is connected to, one without is waited for, and one that is
/// not trusted is neither.
pub proof fn law_trust_and_address_make_the_plan(
    plans: Seq<SimConnectionPlanEntry>,
    devices: Seq<SimDevice>,
    i: int,
)
    requires
        plans_for(plans, devices),
        0 <= i < devices.len(),
        devices[i].role@ == "server"@ || devices[i].role@ == "client"@,
        devices[i].address is Some ==> devices[i].parsed is Some,
    ensures
        plans.len() == devices.len(),
        plans[i].display_name@ == (match devices[i].display_name {
            Some(name) => name@,
            None => devices[i].name@,
        }),
        plans[i].kind == SimConnectionPlanKind::DirectLan <==> devices[i].trusted == Some(true)
            && devices[i].address is Some,
        plans[i].kind == SimConnectionPlanKind::ReconnectCandidate <==> devices[i].trusted == Some(
            true,
        ) && devices[i].address is None,
        plans[i].kind == SimConnectionPlanKind::MissingTrust <==> devices[i].trusted != Some(true),
{
    assert(plans[i].plans(devices[i]));
}

/// A device of another role, or with an address that cannot be read, is planned for as
/// a fault of the configuration, whether it is trusted or not.
pub proof fn law_faulty_devices_are_not_connected(device: SimDevice)
    ensures
        plan_of(device).0 == SimConnectionPlanKind::InvalidConfiguration <==> (device.role@
            != "server"@ && device.role@ != "client"@) || (device.address is Some && device.parsed
            is None),
{
}

/// The samples lie one jitter below and above the round trip, which is one millisecond
/// at least; they stay between one and the largest number.
pub proof fn law_samples_lie_a_jitter_apart(rtt_ms: u64, jitter_ms: u64)
    ensures
        rtt_ms > 0 ==> samples_of(rtt_ms, jitter_ms).1 == rtt_ms,
        samples_of(0, jitter_ms) == samples_of(1, jitter_ms),
        jitter_ms < rtt_ms ==> samples_of(rtt_ms, jitter_ms).0 == rtt_ms - jitter_ms,
        jitter_ms >= rtt_ms ==> samples_of(rtt_ms, jitter_ms).0 == 1,
        rtt_ms > 0 && rtt_ms + jitter_ms <= u64::MAX ==> samples_of(rtt_ms, jitter_ms).2 == rtt_ms
            + jitter_ms,
        rtt_ms + jitter_ms > u64::MAX ==> samples_of(rtt_ms, jitter_ms).2 == u64::MAX,
{
}

/// A device without an identifier of its own is shown under the first four bytes of a
/// digest, each as two digits.
pub proof fn law_digests_name_devices(digest: Seq<u8>)
    requires
        digest.len() == 32,
    ensures
        digest_id(digest) == "sim-"@ + (hex_padded(digest[0] as int, 2) + (hex_padded(
            digest[1] as int,
            2,
        ) + (hex_padded(digest[2] as int, 2) + hex_padded(digest[3] as int, 2)))),
{
    assert(digest_id(digest) =~= "sim-"@ + (hex_padded(digest[0] as int, 2) + (hex_padded(
        digest[1] as int,
        2,
    ) + (hex_padded(digest[2] as int, 2) + hex_padded(digest[3] as int, 2)))));
}

/// Trust counts for more than an address, and an address for more than none.
pub proof fn law_trust_outweighs_an_address(addressed: bool, other: bool)
    ensures
        confidence_of(true, addressed) > confidence_of(false, other),
        confidence_of(true, true) > confidence_of(true, false),
        confidence_of(false, true) > confidence_of(false, false),
{
}

proof fn lemma_first_complaint_from(devices: Seq<SimDevice>, i: int, k: int)
    requires
        0 <= i <= k < devices.len(),
        forall|j: int|
            i <= j < k ==> known_os((#[trigger] devices[j]).os@) && !name_taken(
                devices,
                j,
                devices[j].name@,
            ),
    ensures
        first_complaint(devices, i) == first_complaint(devices, k),
    decreases k - i,
{
    if i < k {
        lemma_first_complaint_from(devices, i + 1, k);
    }
}

/// The first device with a fault is the one that is named: for a name that an earlier
/// device has, else for a system that is not known.
pub proof fn law_the_first_fault_is_named(devices: Seq<SimDevice>, k: int)
    requires
        0 <= k < devices.len(),
        complaint(devices.take(k + 1)) is Some,
        k > 0 ==> complaint(devices.take(k)) is None,
    ensures
        (exists|j: int| 0 <= j < k && #[trigger] devices[j].name@ == devices[k].name@) ==> complaint(
            devices,
        ) == Some("duplicate device name `"@ + devices[k].name@ + "` in simulation config"@),
        (forall|j: int| 0 <= j < k ==> #[trigger] devices[j].name@ != devices[k].name@) ==> complaint(
            devices,
        ) == Some(
            "unknown device os `"@ + devices[k].os@ + "` for `"@ + devices[k].name@
                + "`; expected one of macos, windows, linux-wayland, linux-x11, android, ios"@,
        ),
{
    let before = devices.take(k);
    let now = devices.take(k + 1);
    law_tidy_configurations_are_accepted(before);
    lemma_complaints(before, 0);
    lemma_complaints(now, 0);
    assert forall|j: int| 0 <= j < k implies known_os((#[trigger] devices[j]).os@) && !name_taken(
        devices,
        j,
        devices[j].name@,
    ) && known_os(now[j].os@) && !name_taken(now, j, now[j].name@) by {
        assert(before[j] == devices[j] && now[j] == devices[j]);
        assert(!name_taken(before, j, before[j].name@));
        if name_taken(devices, j, devices[j].name@) {
            let i = choose|i: int| 0 <= i < j && #[trigger] devices[i].name@ == devices[j].name@;
            assert(before[i].name@ == before[j].name@);
        }
        if name_taken(now, j, now[j].name@) {
            let i = choose|i: int| 0 <= i < j && #[trigger] now[i].name@ == now[j].name@;
            assert(before[i].name@ == before[j].name@);
        }
    }
    lemma_first_complaint_from(devices, 0, k);
    assert(now[k] == devices[k]);
    assert(known_os(devices[k].os@) ==> name_taken(devices, k, devices[k].name@)) by {
        if known_os(devices[k].os@) {
            assert(name_taken(now, k, now[k].name@));
            let i = choose|i: int| 0 <= i < k && #[trigger] now[i].name@ == now[k].name@;
            assert(devices[i].name@ == devices[k].name@);
        }
    }
}

/// A device of the simulation is the configured one under the identifier that was drawn
/// for it; only an address that is written can be its address.
pub proof fn law_runtime_devices_are_the_configured_ones(
    runtime: SimRuntimeDevice,
    device: SimDevice,
    id: DeviceId,
)
    requires
        runtime.stands_for(device, id),
    ensures
        runtime.id == id,
        runtime.name@ == (match device.display_name {
            Some(name) => name@,
            None => device.name@,
        }),
        device.address is Some ==> runtime.address == device.parsed,
        device.address is None ==> runtime.address is None,
        runtime.trusted <==> device.trusted == Some(true),
        runtime.x == device.x && runtime.y == device.y,
        runtime.width == device.width && runtime.height == device.height,
{
}

/// What a derived identifier rests on: the name, the system, and the address where there
/// is one. A device with an identifier of its own is shown under that.
pub proof fn law_identifiers_rest_on_the_whole_device(device: SimDevice, id: String)
    ensures
        device.id is None && device.address is Some ==> device.shown_id() == digest_id(
            sha256_of(
                encode_utf8("nexkvm simulate device id v1"@) + encode_utf8(device.name@)
                    + encode_utf8(device.os@) + encode_utf8(device.address->Some_0@),
            ),
        ),
        device.id is None && device.address is None ==> device.shown_id() == digest_id(
            sha256_of(
                encode_utf8("nexkvm simulate device id v1"@) + encode_utf8(device.name@)
                    + encode_utf8(device.os@),
            ),
        ),
        device.id == Some(id) ==> device.shown_id() == id@,
{
    let known = encode_utf8("nexkvm simulate device id v1"@) + encode_utf8(device.name@)
        + encode_utf8(device.os@);
    assert(known + Seq::<u8>::empty() =~= known);
}

/// A device is shown as trusted only where the configuration says so, and without an
/// address as unassigned.
pub proof fn law_trust_must_be_said(device: SimDevice)
    ensures
        device.shown_trust() == "trusted"@ <==> device.trusted == Some(true),
        device.shown_trust() == "untrusted"@ <==> device.trusted != Some(true),
        device.address is None ==> device.shown_address() == "unassigned"@,
        device.address is Some ==> device.shown_address() == device.address->Some_0@,
{
    reveal_strlit("trusted");
    reveal_strlit("untrusted");
    assert("trusted"@.len() != "untrusted"@.len());
}

} // verus!
