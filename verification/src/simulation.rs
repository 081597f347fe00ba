//! A simulated network: the devices and connections of a fixture, checked and
//! put into order.

use vstd::prelude::*;

use crate::net::SocketAddress;
use crate::sorting::covered;
use crate::sorting::ascends_by_two;
use crate::sorting::is_permutation;
use crate::sorting::order_by_keys;
use crate::sorting::order_by_two_keys;
use crate::text::append;
use crate::text::precedes;
use crate::text::same_text;
use crate::text::to_chars;
use crate::text::trim;
use crate::text::trimmed;

verus! {

/// A device as the fixture has it. `parsed` is what its address spells, if it
/// spells a socket address.
#[derive(Debug)]
pub struct SimulatedDeviceConfig {
    pub id: String,
    pub name: String,
    pub os: String,
    pub address: String,
    pub parsed: Option<SocketAddress>,
    pub trusted: bool,
}

/// A connection as the fixture has it.
#[derive(Debug)]
pub struct SimulatedConnectionConfig {
    pub from: String,
    pub to: String,
}

/// A fixture.
#[derive(Debug)]
pub struct SimulationConfig {
    pub device: Vec<SimulatedDeviceConfig>,
    pub connection: Vec<SimulatedConnectionConfig>,
}

/// A device of the simulated network.
#[derive(Debug, Clone, PartialEq, Eq)]
pub struct SimulatedDevice {
    pub id: String,
    pub name: String,
    pub os: String,
    pub address: SocketAddress,
    pub trusted: bool,
}

/// Whether a connection can be made.
#[derive(Clone, Copy, PartialEq, Eq, Structural, Debug)]
pub enum ConnectionStatus {
    DirectLan,
    BlockedByMissingTrust,
}

impl ConnectionStatus {
    /// The label of the status.
    pub fn as_str(self) -> (label: &'static str)
        ensures
            label@ == (match self {
                ConnectionStatus::DirectLan => "direct-lan"@,
                ConnectionStatus::BlockedByMissingTrust => "blocked-missing-trust"@,
            }),
    {
        match self {
            ConnectionStatus::DirectLan => "direct-lan",
            ConnectionStatus::BlockedByMissingTrust => "blocked-missing-trust",
        }
    }
}

/// A connection of the simulated network.
#[derive(Debug, Clone, PartialEq, Eq)]
pub struct ConnectionPlan {
    pub from: String,
    pub to: String,
    pub status: ConnectionStatus,
}

/// The simulated network.
#[derive(Debug, Clone, PartialEq, Eq)]
pub struct SimulationReport {
    pub devices: Vec<SimulatedDevice>,
    pub connections: Vec<ConnectionPlan>,
}

/// How many of the first devices are trusted.
pub open spec fn trusted_among(devices: Seq<SimulatedDevice>, n: int) -> nat
    decreases n,
{
    if n <= 0 {
        0
    } else {
        trusted_among(devices, n - 1) + if devices[n - 1].trusted {
            1nat
        } else {
            0nat
        }
    }
}

impl SimulationReport {
    /// How many devices are trusted.
    pub fn trusted_devices(&self) -> (count: usize)
        ensures
            count == trusted_among(self.devices@, self.devices@.len() as int),
    {
        let mut count: usize = 0;
        let mut i: usize = 0;
        while i < self.devices.len()
            invariant
                i <= self.devices.len(),
                count == trusted_among(self.devices@, i as int),
                count <= i,
            decreases self.devices.len() - i,
        {
            if self.devices[i].trusted {
                count += 1;
            }
            i += 1;
        }
        count
    }
}

/// Why a fixture is refused.
#[derive(Debug)]
pub enum SimulationError {
    NoDevices,
    EmptyId,
    DuplicateId { id: String },
    InvalidAddress { id: String, address: String },
    UnknownDevice { from: String, to: String, endpoint: String },
    SameDevice { from: String, to: String },
}

impl SimulationError {
    /// The wording of the refusal.
    pub open spec fn wording(self) -> Seq<char> {
        match self {
            SimulationError::NoDevices => "simulation config must define at least one device"@,
            SimulationError::EmptyId => "device id must not be empty"@,
            SimulationError::DuplicateId { id } => duplicate_id(id@),
            SimulationError::InvalidAddress { id, address } => invalid_address(id@, address@),
            SimulationError::UnknownDevice { from, to, endpoint } => unknown_device(
                from@,
                to@,
                endpoint@,
            ),
            SimulationError::SameDevice { from, to } => same_device(from@, to@),
        }
    }

    /// The wording of the refusal.
    pub fn message(&self) -> (m: String)
        ensures
            m@ == self.wording(),
    {
        match self {
            SimulationError::NoDevices => "simulation config must define at least one device".to_owned(),
            SimulationError::EmptyId => "device id must not be empty".to_owned(),
            SimulationError::DuplicateId { id } => {
                let mut m = "duplicate device id `".to_owned();
                append(&mut m, id);
                append(&mut m, "`");
                m
            },
            SimulationError::InvalidAddress { id, address } => {
                let mut m = "device `".to_owned();
                append(&mut m, id);
                append(&mut m, "` has invalid address `");
                append(&mut m, address);
                append(&mut m, "`");
                m
            },
            SimulationError::UnknownDevice { from, to, endpoint } => {
                let mut m = "connection `".to_owned();
                append(&mut m, from);
                append(&mut m, " -> ");
                append(&mut m, to);
                append(&mut m, "` references unknown device `");
                append(&mut m, endpoint);
                append(&mut m, "`");
                m
            },
            SimulationError::SameDevice { from, to } => {
                let mut m = "connection `".to_owned();
                append(&mut m, from);
                append(&mut m, " -> ");
                append(&mut m, to);
                append(&mut m, "` points to the same device");
                m
            },
        }
    }
}

/// The refusal of an identifier that two devices have.
pub open spec fn duplicate_id(id: Seq<char>) -> Seq<char> {
    "duplicate device id `"@ + id + "`"@
}

/// The refusal of an address that does not parse.
pub open spec fn invalid_address(id: Seq<char>, address: Seq<char>) -> Seq<char> {
    "device `"@ + id + "` has invalid address `"@ + address + "`"@
}

/// The refusal of a connection's end that no device has.
pub open spec fn unknown_device(from: Seq<char>, to: Seq<char>, endpoint: Seq<char>) -> Seq<char> {
    "connection `"@ + from + " -> "@ + to + "` references unknown device `"@ + endpoint + "`"@
}

/// The refusal of a connection of a device with itself.
pub open spec fn same_device(from: Seq<char>, to: Seq<char>) -> Seq<char> {
    "connection `"@ + from + " -> "@ + to + "` points to the same device"@
}

/// Whether one of the first devices has an identifier.
pub open spec fn known(devices: Seq<SimulatedDeviceConfig>, n: int, id: Seq<char>) -> bool {
    exists|k: int| 0 <= k < n && #[trigger] devices[k].id@ == id
}

/// What is wrong with a device.
pub open spec fn device_complaint(devices: Seq<SimulatedDeviceConfig>, i: int) -> Option<Seq<char>> {
    let device = devices[i];
    if trimmed(device.id@).len() == 0 {
        Some("device id must not be empty"@)
    } else if known(devices, i, device.id@) {
        Some(duplicate_id(device.id@))
    } else if device.parsed is None {
        Some(invalid_address(device.id@, device.address@))
    } else {
        None
    }
}

/// The first complaint about a device from a position on.
pub open spec fn first_device_complaint(devices: Seq<SimulatedDeviceConfig>, i: int) -> Option<
    Seq<char>,
>
    decreases devices.len() - i,
{
    if i >= devices.len() {
        None
    } else {
        match device_complaint(devices, i) {
            Some(m) => Some(m),
            None => first_device_complaint(devices, i + 1),
        }
    }
}

/// What is wrong with a connection.
pub open spec fn connection_complaint(
    devices: Seq<SimulatedDeviceConfig>,
    connection: SimulatedConnectionConfig,
) -> Option<Seq<char>> {
    let from = connection.from@;
    let to = connection.to@;
    let n = devices.len() as int;
    if !known(devices, n, from) {
        Some(unknown_device(from, to, from))
    } else if !known(devices, n, to) {
        Some(unknown_device(from, to, to))
    } else if from == to {
        Some(same_device(from, to))
    } else {
        None
    }
}

/// The first complaint about a connection from a position on.
pub open spec fn first_connection_complaint(config: SimulationConfig, i: int) -> Option<Seq<char>>
    decreases config.connection@.len() - i,
{
    if i >= config.connection@.len() {
        None
    } else {
        match connection_complaint(config.device@, config.connection@[i]) {
            Some(m) => Some(m),
            None => first_connection_complaint(config, i + 1),
        }
    }
}

/// What is wrong with a fixture: the devices are looked at first.
pub open spec fn complaint(config: SimulationConfig) -> Option<Seq<char>> {
    if config.device@.len() == 0 {
        Some("simulation config must define at least one device"@)
    } else {
        match first_device_complaint(config.device@, 0) {
            Some(m) => Some(m),
            None => first_connection_complaint(config, 0),
        }
    }
}

/// Whether a device of the network is one of the fixture.
pub open spec fn same_as_configured(device: SimulatedDevice, config: SimulatedDeviceConfig) -> bool {
    &&& device.id@ == config.id@
    &&& device.name@ == config.name@
    &&& device.os@ == config.os@
    &&& config.parsed == Some(device.address)
    &&& device.trusted == config.trusted
}

/// Whether the identifier's device is trusted.
pub open spec fn trusted_id(devices: Seq<SimulatedDeviceConfig>, id: Seq<char>) -> bool {
    exists|k: int| 0 <= k < devices.len() && #[trigger] devices[k].id@ == id && devices[k].trusted
}

/// The status of a connection: direct where both ends are trusted.
pub open spec fn status_of(
    devices: Seq<SimulatedDeviceConfig>,
    from: Seq<char>,
    to: Seq<char>,
) -> ConnectionStatus {
    if trusted_id(devices, from) && trusted_id(devices, to) {
        ConnectionStatus::DirectLan
    } else {
        ConnectionStatus::BlockedByMissingTrust
    }
}

/// Whether the network's devices are the fixture's, listed by the indices, in the
/// order of their identifiers.
pub open spec fn devices_in_order(
    config: Seq<SimulatedDeviceConfig>,
    devices: Seq<SimulatedDevice>,
    order: Seq<usize>,
) -> bool {
    &&& is_permutation(order, config.len() as int)
    &&& devices.len() == config.len()
    &&& forall|k: int|
        0 <= k < devices.len() ==> same_as_configured(#[trigger] devices[k], config[order[k] as int])
    &&& forall|i: int, j: int|
        0 <= i < j < devices.len() ==> precedes(
            (#[trigger] devices[i]).id@,
            (#[trigger] devices[j]).id@,
        )
}

/// Whether the network's connections are the fixture's, listed by the indices, in
/// the order of their ends.
pub open spec fn connections_in_order(
    config: SimulationConfig,
    connections: Seq<ConnectionPlan>,
    order: Seq<usize>,
) -> bool {
    &&& is_permutation(order, config.connection@.len() as int)
    &&& connections.len() == config.connection@.len()
    &&& forall|k: int|
        0 <= k < connections.len() ==> {
            let plan = #[trigger] connections[k];
            let c = config.connection@[order[k] as int];
            &&& plan.from@ == c.from@
            &&& plan.to@ == c.to@
            &&& plan.status == status_of(config.device@, c.from@, c.to@)
        }
    &&& forall|i: int, j: int|
        0 <= i < j < connections.len() ==> {
            let a = #[trigger] connections[i];
            let b = #[trigger] connections[j];
            precedes(a.from@, b.from@) || (a.from@ == b.from@ && (a.to@ == b.to@ || precedes(
                a.to@,
                b.to@,
            )))
        }
}

/// Whether the network is the fixture's, in order.
pub open spec fn reports(config: SimulationConfig, report: SimulationReport) -> bool {
    &&& exists|order: Seq<usize>| devices_in_order(config.device@, report.devices@, order)
    &&& exists|order: Seq<usize>| connections_in_order(config, report.connections@, order)
}

fn find_device(devices: &Vec<SimulatedDeviceConfig>, n: usize, id: &str) -> (r: Option<usize>)
    requires
        n <= devices@.len(),
    ensures
        match r {
            Some(k) => k < n && devices@[k as int].id@ == id@,
            None => !known(devices@, n as int, id@),
        },
{
    let mut k: usize = 0;
    while k < n
        invariant
            k <= n <= devices@.len(),
            forall|m: int| 0 <= m < k ==> #[trigger] devices@[m].id@ != id@,
        decreases n - k,
    {
        if same_text(&devices[k].id, id) {
            return Some(k);
        }
        k += 1;
    }
    None
}

fn check_devices(devices: &Vec<SimulatedDeviceConfig>) -> (r: Result<(), SimulationError>)
    ensures
        match r {
            Ok(_) => first_device_complaint(devices@, 0) is None && forall|i: int|
                0 <= i < devices@.len() ==> device_complaint(devices@, i) is None,
            Err(e) => first_device_complaint(devices@, 0) == Some(e.wording()),
        },
{
    let mut i: usize = 0;
    while i < devices.len()
        invariant
            i <= devices.len(),
            first_device_complaint(devices@, 0) == first_device_complaint(devices@, i as int),
            forall|k: int| 0 <= k < i ==> device_complaint(devices@, k) is None,
        decreases devices.len() - i,
    {
        let id = &devices[i].id;
        if to_chars(&trim(id)).len() == 0 {
            return Err(SimulationError::EmptyId);
        }
        match find_device(devices, i, id) {
            Some(k) => {
                assert(known(devices@, i as int, devices@[i as int].id@));
                return Err(SimulationError::DuplicateId { id: id.clone() });
            },
            None => {},
        }
        if devices[i].parsed.is_none() {
            return Err(
                SimulationError::InvalidAddress {
                    id: id.clone(),
                    address: devices[i].address.clone(),
                },
            );
        }
        i += 1;
    }
    Ok(())
}

proof fn lemma_ids_distinct(devices: Seq<SimulatedDeviceConfig>, i: int, j: int)
    requires
        forall|k: int| 0 <= k < devices.len() ==> device_complaint(devices, k) is None,
        0 <= i < j < devices.len(),
    ensures
        devices[i].id@ != devices[j].id@,
{
    assert(device_complaint(devices, j) is None);
    if devices[i].id@ == devices[j].id@ {
        assert(known(devices, j, devices[j].id@));
    }
}

fn sort_devices(devices: &Vec<SimulatedDeviceConfig>) -> (r: (Vec<SimulatedDevice>, Ghost<Seq<usize>>))
    requires
        forall|i: int| 0 <= i < devices@.len() ==> device_complaint(devices@, i) is None,
    ensures
        devices_in_order(devices@, r.0@, r.1@),
{
    let mut ids: Vec<String> = Vec::new();
    let mut i: usize = 0;
    while i < devices.len()
        invariant
            i <= devices.len(),
            ids.len() == i,
            forall|k: int| 0 <= k < i ==> #[trigger] ids@[k]@ == devices@[k].id@,
        decreases devices.len() - i,
    {
        ids.push(devices[i].id.clone());
        i += 1;
    }
    let order: Vec<usize> = order_by_keys(&ids);
    let mut sorted: Vec<SimulatedDevice> = Vec::new();
    let mut k: usize = 0;
    while k < order.len()
        invariant
            k <= order.len(),
            is_permutation(order@, devices@.len() as int),
            forall|i: int| 0 <= i < devices@.len() ==> device_complaint(devices@, i) is None,
            sorted.len() == k,
            forall|m: int|
                0 <= m < k ==> same_as_configured(
                    #[trigger] sorted@[m],
                    devices@[order@[m] as int],
                ),
        decreases order.len() - k,
    {
        let at: usize = order[k];
        assert(device_complaint(devices@, at as int) is None);
        let device = &devices[at];
        match device.parsed {
            Some(address) => {
                sorted.push(
                    SimulatedDevice {
                        id: device.id.clone(),
                        name: device.name.clone(),
                        os: device.os.clone(),
                        address,
                        trusted: device.trusted,
                    },
                );
            },
            None => {
                assert(false);
            },
        }
        k += 1;
    }
    proof {
        assert forall|i: int, j: int| 0 <= i < j < sorted@.len() implies precedes(
            (#[trigger] sorted@[i]).id@,
            (#[trigger] sorted@[j]).id@,
        ) by {
            let a = order@[i] as int;
            let b = order@[j] as int;
            assert(ids@[a]@ == devices@[a].id@ && ids@[b]@ == devices@[b].id@);
            if a < b {
                lemma_ids_distinct(devices@, a, b);
            } else {
                lemma_ids_distinct(devices@, b, a);
            }
        }
    }
    (sorted, Ghost(order@))
}

proof fn lemma_trusted(devices: Seq<SimulatedDeviceConfig>, at: int)
    requires
        forall|k: int| 0 <= k < devices.len() ==> device_complaint(devices, k) is None,
        0 <= at < devices.len(),
    ensures
        trusted_id(devices, devices[at].id@) == devices[at].trusted,
{
    let id = devices[at].id@;
    if trusted_id(devices, id) {
        let k = choose|k: int|
            0 <= k < devices.len() && #[trigger] devices[k].id@ == id && devices[k].trusted;
        if k < at {
            lemma_ids_distinct(devices, k, at);
        } else if at < k {
            lemma_ids_distinct(devices, at, k);
        }
    }
}

fn check_connection(
    devices: &Vec<SimulatedDeviceConfig>,
    connection: &SimulatedConnectionConfig,
) -> (r: Result<ConnectionStatus, SimulationError>)
    requires
        forall|k: int| 0 <= k < devices@.len() ==> device_complaint(devices@, k) is None,
    ensures
        match r {
            Ok(status) => connection_complaint(devices@, *connection) is None && status
                == status_of(devices@, connection.from@, connection.to@),
            Err(e) => connection_complaint(devices@, *connection) == Some(e.wording()),
        },
{
    let from: usize = match find_device(devices, devices.len(), &connection.from) {
        Some(k) => k,
        None => {
            return Err(
                SimulationError::UnknownDevice {
                    from: connection.from.clone(),
                    to: connection.to.clone(),
                    endpoint: connection.from.clone(),
                },
            );
        },
    };
    assert(known(devices@, devices@.len() as int, connection.from@));
    let to: usize = match find_device(devices, devices.len(), &connection.to) {
        Some(k) => k,
        None => {
            return Err(
                SimulationError::UnknownDevice {
                    from: connection.from.clone(),
                    to: connection.to.clone(),
                    endpoint: connection.to.clone(),
                },
            );
        },
    };
    assert(known(devices@, devices@.len() as int, connection.to@));
    if same_text(&connection.from, &connection.to) {
        return Err(
            SimulationError::SameDevice {
                from: connection.from.clone(),
                to: connection.to.clone(),
            },
        );
    }
    proof {
        lemma_trusted(devices@, from as int);
        lemma_trusted(devices@, to as int);
    }
    if devices[from].trusted && devices[to].trusted {
        Ok(ConnectionStatus::DirectLan)
    } else {
        Ok(ConnectionStatus::BlockedByMissingTrust)
    }
}

fn plan_connections(config: &SimulationConfig) -> (r: Result<
    (Vec<ConnectionPlan>, Ghost<Seq<usize>>),
    SimulationError,
>)
    requires
        forall|k: int|
            0 <= k < config.device@.len() ==> device_complaint(config.device@, k) is None,
    ensures
        match r {
            Ok(planned) => first_connection_complaint(*config, 0) is None && connections_in_order(
                *config,
                planned.0@,
                planned.1@,
            ),
            Err(e) => first_connection_complaint(*config, 0) == Some(e.wording()),
        },
{
    let n: usize = config.connection.len();
    let mut statuses: Vec<ConnectionStatus> = Vec::new();
    let mut from: Vec<String> = Vec::new();
    let mut to: Vec<String> = Vec::new();
    let mut i: usize = 0;
    while i < n
        invariant
            n == config.connection@.len(),
            i <= n,
            forall|k: int|
                0 <= k < config.device@.len() ==> device_complaint(config.device@, k) is None,
            first_connection_complaint(*config, 0) == first_connection_complaint(
                *config,
                i as int,
            ),
            statuses.len() == i,
            from.len() == i,
            to.len() == i,
            forall|k: int|
                0 <= k < i ==> {
                    &&& #[trigger] from@[k]@ == config.connection@[k].from@
                    &&& to@[k]@ == config.connection@[k].to@
                    &&& statuses@[k] == status_of(config.device@, from@[k]@, to@[k]@)
                },
        decreases n - i,
    {
        let connection = &config.connection[i];
        match check_connection(&config.device, connection) {
            Ok(status) => statuses.push(status),
            Err(e) => {
                return Err(e);
            },
        }
        from.push(connection.from.clone());
        to.push(connection.to.clone());
        i += 1;
    }
    let order: Vec<usize> = order_by_two_keys(&from, &to);
    let mut plans: Vec<ConnectionPlan> = Vec::new();
    let mut k: usize = 0;
    while k < n
        invariant
            n == config.connection@.len(),
            k <= n,
            is_permutation(order@, n as int),
            statuses.len() == n,
            from.len() == n,
            to.len() == n,
            forall|k: int|
                0 <= k < n ==> {
                    &&& #[trigger] from@[k]@ == config.connection@[k].from@
                    &&& to@[k]@ == config.connection@[k].to@
                    &&& statuses@[k] == status_of(config.device@, from@[k]@, to@[k]@)
                },
            plans.len() == k,
            forall|m: int|
                0 <= m < k ==> {
                    let plan = #[trigger] plans@[m];
                    let at = order@[m] as int;
                    &&& plan.from@ == from@[at]@
                    &&& plan.to@ == to@[at]@
                    &&& plan.status == status_of(config.device@, from@[at]@, to@[at]@)
                },
        decreases n - k,
    {
        let at: usize = order[k];
        assert(from@[at as int]@ == config.connection@[at as int].from@);
        plans.push(
            ConnectionPlan {
                from: from[at].clone(),
                to: to[at].clone(),
                status: statuses[at],
            },
        );
        k += 1;
    }
    proof {
        assert(ascends_by_two(from@, to@, order@));
        assert forall|m: int| 0 <= m < plans@.len() implies {
            let plan = #[trigger] plans@[m];
            let c = config.connection@[order@[m] as int];
            &&& plan.from@ == c.from@
            &&& plan.to@ == c.to@
            &&& plan.status == status_of(config.device@, c.from@, c.to@)
        } by {
            let at = order@[m] as int;
            assert(from@[at]@ == config.connection@[at].from@);
        }
        assert forall|i: int, j: int| 0 <= i < j < plans@.len() implies {
            let a = #[trigger] plans@[i];
            let b = #[trigger] plans@[j];
            precedes(a.from@, b.from@) || (a.from@ == b.from@ && (a.to@ == b.to@ || precedes(
                a.to@,
                b.to@,
            )))
        } by {
            assert(order@[i] != order@[j]);
        }
    }
    Ok((plans, Ghost(order@)))
}

/// Checks a fixture and lists its devices by their identifiers and its
/// connections by their ends.
pub fn build_report(config: &SimulationConfig) -> (r: Result<SimulationReport, SimulationError>)
    ensures
        match r {
            Ok(report) => complaint(*config) is None && reports(*config, report),
            Err(e) => complaint(*config) == Some(e.wording()),
        },
{
    if config.device.len() == 0 {
        return Err(SimulationError::NoDevices);
    }
    match check_devices(&config.device) {
        Ok(_) => {},
        Err(e) => {
            return Err(e);
        },
    }
    let (devices, device_order) = sort_devices(&config.device);
    match plan_connections(config) {
        Ok(planned) => {
            let (connections, connection_order) = planned;
            let report = SimulationReport { devices, connections };
            assert(devices_in_order(config.device@, report.devices@, device_order@));
            assert(connections_in_order(*config, report.connections@, connection_order@));
            Ok(report)
        },
        Err(e) => Err(e),
    }
}

proof fn lemma_accepted_devices(devices: Seq<SimulatedDeviceConfig>, i: int, k: int)
    requires
        0 <= i <= k < devices.len(),
        first_device_complaint(devices, i) is None,
    ensures
        device_complaint(devices, k) is None,
    decreases devices.len() - i,
{
    if i < k {
        lemma_accepted_devices(devices, i + 1, k);
    }
}

/// In an accepted fixture no two devices share an identifier, and none has an
/// empty one.
pub proof fn law_accepted_identifiers_are_distinct(config: SimulationConfig, i: int, j: int)
    requires
        complaint(config) is None,
        0 <= i < j < config.device@.len(),
    ensures
        config.device@[i].id@ != config.device@[j].id@,
        trimmed(config.device@[i].id@).len() > 0,
{
    let devices = config.device@;
    assert forall|k: int| 0 <= k < devices.len() implies device_complaint(devices, k) is None by {
        lemma_accepted_devices(devices, 0, k);
    }
    assert(device_complaint(devices, i) is None);
    lemma_ids_distinct(devices, i, j);
}

proof fn lemma_device_complaints(devices: Seq<SimulatedDeviceConfig>, i: int)
    requires
        0 <= i <= devices.len(),
    ensures
        first_device_complaint(devices, i) is None <==> forall|k: int|
            i <= k < devices.len() ==> (#[trigger] device_complaint(devices, k)) is None,
        first_device_complaint(devices, i) is Some ==> exists|k: int|
            i <= k < devices.len() && #[trigger] device_complaint(devices, k)
                == first_device_complaint(devices, i) && forall|j: int|
                i <= j < k ==> (#[trigger] device_complaint(devices, j)) is None,
    decreases devices.len() - i,
{
    if i < devices.len() {
        lemma_device_complaints(devices, i + 1);
        if device_complaint(devices, i) is None && first_device_complaint(devices, i + 1) is Some {
            let k = choose|k: int|
                i + 1 <= k < devices.len() && #[trigger] device_complaint(devices, k)
                    == first_device_complaint(devices, i + 1) && forall|j: int|
                    i + 1 <= j < k ==> (#[trigger] device_complaint(devices, j)) is None;
            assert forall|j: int| i <= j < k implies (#[trigger] device_complaint(devices, j))
                is None by {}
        }
    }
}

proof fn lemma_connection_complaints(config: SimulationConfig, i: int)
    requires
        0 <= i <= config.connection@.len(),
    ensures
        first_connection_complaint(config, i) is None <==> forall|k: int|
            i <= k < config.connection@.len() ==> connection_complaint(
                config.device@,
                #[trigger] config.connection@[k],
            ) is None,
    decreases config.connection@.len() - i,
{
    if i < config.connection@.len() {
        lemma_connection_complaints(config, i + 1);
    }
}

/// A simulation is accepted exactly where it has devices, each with an identifier of
/// its own that is not blank and an address that can be read, and where every
/// connection leads from one of them to another.
pub proof fn law_tidy_simulations_are_accepted(config: SimulationConfig)
    ensures
        complaint(config) is None <==> {
            let devices = config.device@;
            &&& devices.len() > 0
            &&& forall|i: int|
                0 <= i < devices.len() ==> trimmed((#[trigger] devices[i]).id@).len() > 0
                    && devices[i].parsed is Some
            &&& forall|i: int, j: int|
                0 <= i < j < devices.len() ==> (#[trigger] devices[i]).id@ != (
                #[trigger] devices[j]).id@
            &&& forall|k: int|
                0 <= k < config.connection@.len() ==> {
                    let c = #[trigger] config.connection@[k];
                    &&& c.from@ != c.to@
                    &&& exists|a: int| 0 <= a < devices.len() && #[trigger] devices[a].id@ == c.from@
                    &&& exists|b: int| 0 <= b < devices.len() && #[trigger] devices[b].id@ == c.to@
                }
        },
{
    let devices = config.device@;
    lemma_device_complaints(devices, 0);
    lemma_connection_complaints(config, 0);
    let tidy = {
        &&& forall|i: int|
            0 <= i < devices.len() ==> trimmed((#[trigger] devices[i]).id@).len() > 0
                && devices[i].parsed is Some
        &&& forall|i: int, j: int|
            0 <= i < j < devices.len() ==> (#[trigger] devices[i]).id@ != (#[trigger] devices[j]).id@
    };
    if tidy {
        assert forall|k: int| 0 <= k < devices.len() implies (#[trigger] device_complaint(devices, k))
            is None by {
            assert(trimmed(devices[k].id@).len() > 0);
            if known(devices, k, devices[k].id@) {
                let j = choose|j: int| 0 <= j < k && #[trigger] devices[j].id@ == devices[k].id@;
                assert(devices[j].id@ != devices[k].id@);
            }
        }
    }
    if forall|k: int| 0 <= k < devices.len() ==> (#[trigger] device_complaint(devices, k)) is None {
        assert forall|i: int| 0 <= i < devices.len() implies trimmed((#[trigger] devices[i]).id@).len()
            > 0 && devices[i].parsed is Some by {
            assert(device_complaint(devices, i) is None);
        }
        assert forall|i: int, j: int| 0 <= i < j < devices.len() implies (#[trigger] devices[i]).id@
            != (#[trigger] devices[j]).id@ by {
            lemma_ids_distinct(devices, i, j);
        }
    }
}

/// The first device with a fault is the one that is named: a blank identifier, one that
/// an earlier device has, or an address that cannot be read.
pub proof fn law_the_first_faulty_device_is_named(config: SimulationConfig, i: int)
    requires
        0 <= i < config.device@.len(),
        forall|j: int| 0 <= j < i ==> (#[trigger] device_complaint(config.device@, j)) is None,
    ensures
        trimmed(config.device@[i].id@).len() == 0 ==> complaint(config) == Some(
            "device id must not be empty"@,
        ),
        trimmed(config.device@[i].id@).len() > 0 && (exists|j: int|
            0 <= j < i && #[trigger] config.device@[j].id@ == config.device@[i].id@) ==> complaint(
            config,
        ) == Some("duplicate device id `"@ + config.device@[i].id@ + "`"@),
        trimmed(config.device@[i].id@).len() > 0 && (forall|j: int|
            0 <= j < i ==> #[trigger] config.device@[j].id@ != config.device@[i].id@)
            && config.device@[i].parsed is None ==> complaint(config) == Some(
            "device `"@ + config.device@[i].id@ + "` has invalid address `"@
                + config.device@[i].address@ + "`"@,
        ),
{
    let devices = config.device@;
    lemma_device_complaints(devices, 0);
    if device_complaint(devices, i) is Some {
        let k = choose|k: int|
            0 <= k < devices.len() && #[trigger] device_complaint(devices, k)
                == first_device_complaint(devices, 0) && forall|j: int|
                0 <= j < k ==> (#[trigger] device_complaint(devices, j)) is None;
        assert(k == i);
    }
}

/// Every configured device stands in the report as it was configured, and every
/// configured connection with whether both of its ends are trusted; nothing else does.
pub proof fn law_everything_configured_is_reported(
    config: SimulationConfig,
    report: SimulationReport,
    i: int,
    k: int,
    a: int,
    b: int,
)
    requires
        complaint(config) is None,
        reports(config, report),
    ensures
        report.devices@.len() == config.device@.len(),
        report.connections@.len() == config.connection@.len(),
        0 <= i < config.device@.len() ==> exists|j: int|
            0 <= j < report.devices@.len() && (#[trigger] report.devices@[j]).id@
                == config.device@[i].id@ && report.devices@[j].name@ == config.device@[i].name@
                && report.devices@[j].os@ == config.device@[i].os@ && Some(
                report.devices@[j].address,
            ) == config.device@[i].parsed && report.devices@[j].trusted
                == config.device@[i].trusted,
        0 <= k < config.connection@.len() && 0 <= a < config.device@.len() && 0 <= b
            < config.device@.len() && config.device@[a].id@ == config.connection@[k].from@
            && config.device@[b].id@ == config.connection@[k].to@ ==> exists|j: int|
            0 <= j < report.connections@.len() && (#[trigger] report.connections@[j]).from@
                == config.connection@[k].from@ && report.connections@[j].to@
                == config.connection@[k].to@ && (report.connections@[j].status
                == ConnectionStatus::DirectLan <==> config.device@[a].trusted
                && config.device@[b].trusted),
{
    let devices = config.device@;
    lemma_device_complaints(devices, 0);
    let order = choose|order: Seq<usize>| devices_in_order(devices, report.devices@, order);
    if 0 <= i < devices.len() {
        assert(covered(order, i));
        let j = choose|j: int| 0 <= j < order.len() && #[trigger] order[j] == i;
        assert(same_as_configured(report.devices@[j], devices[i]));
    }
    let planned = choose|planned: Seq<usize>|
        connections_in_order(config, report.connections@, planned);
    if 0 <= k < config.connection@.len() && 0 <= a < devices.len() && 0 <= b < devices.len()
        && devices[a].id@ == config.connection@[k].from@ && devices[b].id@
        == config.connection@[k].to@ {
        assert(covered(planned, k));
        let j = choose|j: int| 0 <= j < planned.len() && #[trigger] planned[j] == k;
        lemma_trusted(devices, a);
        lemma_trusted(devices, b);
        let plan = report.connections@[j];
        assert(plan.from@ == config.connection@[k].from@);
    }
}

/// Each trusted device of a report counts, and no other does.
pub proof fn law_every_trusted_device_counts(devices: Seq<SimulatedDevice>)
    ensures
        trusted_among(devices, devices.len() as int) == devices.filter(
            |device: SimulatedDevice| device.trusted,
        ).len(),
{
    lemma_trusted_count(devices, devices.len() as int);
    assert(devices.take(devices.len() as int) =~= devices);
}

proof fn lemma_trusted_count(devices: Seq<SimulatedDevice>, n: int)
    requires
        0 <= n <= devices.len(),
    ensures
        trusted_among(devices, n) == devices.take(n).filter(
            |device: SimulatedDevice| device.trusted,
        ).len(),
    decreases n,
{
    reveal(Seq::filter);
    if n > 0 {
        lemma_trusted_count(devices, n - 1);
        assert(devices.take(n).drop_last() =~= devices.take(n - 1));
        assert(devices.take(n).last() == devices[n - 1]);
    }
}

/// Where the devices are in order, the first connection with a fault is the one that is
/// named: an end that no device has, the first end before the second, or one device at
/// both ends.
pub proof fn law_the_first_faulty_connection_is_named(config: SimulationConfig, k: int)
    requires
        config.device@.len() > 0,
        forall|j: int|
            0 <= j < config.device@.len() ==> (#[trigger] device_complaint(config.device@, j))
                is None,
        0 <= k < config.connection@.len(),
        forall|j: int|
            0 <= j < k ==> connection_complaint(config.device@, #[trigger] config.connection@[j])
                is None,
    ensures
        ({
            let from = config.connection@[k].from@;
            let to = config.connection@[k].to@;
            let starts = exists|a: int|
                0 <= a < config.device@.len() && #[trigger] config.device@[a].id@ == from;
            let ends = exists|b: int|
                0 <= b < config.device@.len() && #[trigger] config.device@[b].id@ == to;
            let head = "connection `"@ + from + " -> "@ + to;
            &&& !starts ==> complaint(config) == Some(
                head + "` references unknown device `"@ + from + "`"@,
            )
            &&& starts && !ends ==> complaint(config) == Some(
                head + "` references unknown device `"@ + to + "`"@,
            )
            &&& starts && ends && from == to ==> complaint(config) == Some(
                head + "` points to the same device"@,
            )
        }),
{
    lemma_device_complaints(config.device@, 0);
    lemma_connection_from(config, 0, k);
}

proof fn lemma_connection_from(config: SimulationConfig, i: int, k: int)
    requires
        0 <= i <= k < config.connection@.len(),
        forall|j: int|
            i <= j < k ==> connection_complaint(config.device@, #[trigger] config.connection@[j])
                is None,
    ensures
        connection_complaint(config.device@, config.connection@[k]) is Some
            ==> first_connection_complaint(config, i) == connection_complaint(
            config.device@,
            config.connection@[k],
        ),
    decreases k - i,
{
    if i < k {
        lemma_connection_from(config, i + 1, k);
    }
}

} // verus!
