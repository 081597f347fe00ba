//! Which connections may use a lane.

use vstd::prelude::*;

use crate::ids::big_endian;
use crate::ids::device_id_bytes;
use crate::ids::device_id_domain;
use crate::ids::stable_device_id;
use crate::ids::DeviceId;
use crate::input::InputRuntimePlan;
use crate::leases::InputForwarderGate;
use crate::leases::PeerLeases;
use crate::outside::sha256_of;
use crate::trust::ActivePeerSelection;

verus! {

/// The routing identifier of a key, as a number.
pub open spec fn routing_number(key: Seq<u8>) -> int {
    big_endian(device_id_bytes(sha256_of(device_id_domain() + key)))
}

/// The bytes of an optional key.
pub open spec fn key_of(identity: Option<&Vec<u8>>) -> Option<Seq<u8>> {
    match identity {
        Some(key) => Some(key@),
        None => None,
    }
}

/// Whether a connection may use a lane, and why not.
#[derive(Clone, Copy, PartialEq, Eq, Structural, Debug)]
pub enum LaneAdmission {
    /// It may, as the peer with this identifier.
    Admitted(DeviceId),
    /// The peer did not authenticate.
    Unauthenticated,
    /// The peer is not the selected one.
    NotSelected,
    /// The peer has this device's own identity.
    SelfIdentity,
    /// Another connection of the peer uses the lane.
    AlreadyActive,
}

/// The verdict on a connection, before any lease.
pub open spec fn lane_verdict(
    selection: ActivePeerSelection,
    identity: Option<Seq<u8>>,
    local: DeviceId,
    verdict: LaneAdmission,
) -> bool {
    match identity {
        None => verdict == LaneAdmission::Unauthenticated,
        Some(key) => if !selection.admits(Some(key)) {
            verdict == LaneAdmission::NotSelected
        } else if routing_number(key) == local.0 {
            verdict == LaneAdmission::SelfIdentity
        } else {
            verdict matches LaneAdmission::Admitted(peer) && peer.0 == routing_number(key)
        },
    }
}

/// Admits a connection to a lane that any number of connections may use.
pub fn admit_peer(
    selection: &ActivePeerSelection,
    identity: Option<&Vec<u8>>,
    local: DeviceId,
) -> (verdict: LaneAdmission)
    ensures
        lane_verdict(*selection, key_of(identity), local, verdict),
{
    match identity {
        None => LaneAdmission::Unauthenticated,
        Some(key) => {
            if !selection.allows(Some(key)) {
                return LaneAdmission::NotSelected;
            }
            let peer = stable_device_id(key.as_slice());
            if peer == local {
                LaneAdmission::SelfIdentity
            } else {
                LaneAdmission::Admitted(peer)
            }
        },
    }
}

/// Admits a connection to a lane that one connection of a peer may use at a time.
/// Only an admitted connection takes the peer's lease.
pub fn admit_exclusive_peer(
    selection: &ActivePeerSelection,
    identity: Option<&Vec<u8>>,
    local: DeviceId,
    leases: &mut PeerLeases,
) -> (verdict: LaneAdmission)
    requires
        old(leases).valid(),
    ensures
        final(leases).valid(),
        match key_of(identity) {
            Some(key) => if lane_verdict(
                *selection,
                Some(key),
                local,
                LaneAdmission::NotSelected,
            ) || lane_verdict(*selection, Some(key), local, LaneAdmission::SelfIdentity) {
                lane_verdict(*selection, Some(key), local, verdict) && final(leases)@ == old(
                    leases,
                )@
            } else if old(leases)@.contains(key) {
                verdict == LaneAdmission::AlreadyActive && final(leases)@ == old(leases)@
            } else {
                lane_verdict(*selection, Some(key), local, verdict) && final(leases)@ == old(
                    leases,
                )@.insert(key)
            },
            None => verdict == LaneAdmission::Unauthenticated && final(leases)@ == old(leases)@,
        },
{
    let verdict = admit_peer(selection, identity, local);
    match identity {
        None => verdict,
        Some(key) => match verdict {
            LaneAdmission::Admitted(_) => {
                if leases.try_acquire(key) {
                    verdict
                } else {
                    assert(leases@ =~= old(leases)@);
                    LaneAdmission::AlreadyActive
                }
            },
            _ => verdict,
        },
    }
}

/// No connection is ever admitted as this device itself, nor one without an
/// identity, nor one that the selection leaves out.
pub proof fn law_only_selected_others_are_admitted(
    selection: ActivePeerSelection,
    identity: Option<Seq<u8>>,
    local: DeviceId,
    peer: DeviceId,
)
    requires
        lane_verdict(selection, identity, local, LaneAdmission::Admitted(peer)),
    ensures
        identity is Some,
        selection.admits(identity),
        peer != local,
{
}

/// What an input connection may do.
#[derive(Clone, Copy, PartialEq, Eq, Structural, Debug)]
pub enum InputAdmission {
    /// Nothing: it is not the selected peer's.
    Rejected,
    /// It is closed: another connection already takes this device's input.
    CloseDuplicate,
    /// It may inject here, and take input from here.
    Start { inject: bool, forward: bool },
}

/// Whether an input lane is offered at all.
pub fn input_lane_offered(plan: InputRuntimePlan) -> (b: bool)
    ensures
        b == (plan.start_inject_receiver || plan.start_capture_forwarder),
{
    plan.start_inject_receiver || plan.start_capture_forwarder
}

/// Admits a connection to the input lane. One connection at a time takes this
/// device's input.
pub fn admit_input_peer(
    plan: InputRuntimePlan,
    selection: &ActivePeerSelection,
    identity: Option<&Vec<u8>>,
    gate: &mut InputForwarderGate,
) -> (verdict: InputAdmission)
    ensures
        verdict == (if !selection.admits(key_of(identity)) {
            InputAdmission::Rejected
        } else if plan.start_capture_forwarder && old(gate).active {
            InputAdmission::CloseDuplicate
        } else {
            InputAdmission::Start {
                inject: plan.start_inject_receiver,
                forward: plan.start_capture_forwarder,
            }
        }),
        final(gate).active == (old(gate).active || (verdict is Start
            && plan.start_capture_forwarder)),
{
    if !selection.allows(identity) {
        return InputAdmission::Rejected;
    }
    if plan.start_capture_forwarder && !gate.try_acquire() {
        return InputAdmission::CloseDuplicate;
    }
    InputAdmission::Start {
        inject: plan.start_inject_receiver,
        forward: plan.start_capture_forwarder,
    }
}

/// A peer that has a key, is admitted by the selection and is another device uses the
/// lane under the identifier of its key; and each refusal says which of these fails.
pub proof fn law_selected_peers_use_the_lane(
    selection: ActivePeerSelection,
    key: Seq<u8>,
    local: DeviceId,
    peer: DeviceId,
)
    ensures
        lane_verdict(selection, Some(key), local, LaneAdmission::Admitted(peer)) <==> {
            &&& selection.admits(Some(key))
            &&& peer.0 == big_endian(device_id_bytes(sha256_of(device_id_domain() + key)))
            &&& peer != local
        },
        lane_verdict(selection, Some(key), local, LaneAdmission::NotSelected)
            <==> !selection.admits(Some(key)),
        lane_verdict(selection, Some(key), local, LaneAdmission::SelfIdentity) <==> selection.admits(
            Some(key),
        ) && local.0 == big_endian(device_id_bytes(sha256_of(device_id_domain() + key))),
        !lane_verdict(selection, Some(key), local, LaneAdmission::Unauthenticated),
        !lane_verdict(selection, Some(key), local, LaneAdmission::AlreadyActive),
        lane_verdict(selection, None, local, LaneAdmission::Unauthenticated),
        !lane_verdict(selection, None, local, LaneAdmission::Admitted(peer)),
{
}

} // verus!
