//! Sharing one session between lanes: which messages reach which lane, and when
//! the session ends.

use vstd::prelude::*;

verus! {

/// How many messages may wait in a lane.
pub const LANE_CAPACITY: usize = 512;

/// The first number of a message that is not part of arbitration.
pub const SESSION_DATA_FIRST_ID: u64 = 1;

/// The kind of a message.
#[derive(Clone, Copy, PartialEq, Eq, Structural, Debug)]
pub enum MessageKind {
    Handshake,
    Input,
    Clipboard,
    FileTransfer,
    Other(u16),
}

/// A subsystem that shares a session.
#[derive(Clone, Copy, PartialEq, Eq, Structural, Debug)]
pub enum Lane {
    Input,
    Clipboard,
    FileTransfer,
}

/// A lane and the kinds of messages that it consumes.
#[derive(Debug)]
pub struct PeerLaneHandler {
    pub lane: Lane,
    pub inbound_kinds: Vec<MessageKind>,
}

impl PeerLaneHandler {
    /// A lane that consumes the given kinds.
    pub fn new(lane: Lane, inbound_kinds: Vec<MessageKind>) -> (handler: Self)
        ensures
            handler.lane == lane,
            handler.inbound_kinds@ == inbound_kinds@,
    {
        PeerLaneHandler { lane, inbound_kinds }
    }
}

/// The lanes of a device, in the order in which they are attached, and the kinds
/// that each consumes. A device that does not inject input still forwards it.
pub open spec fn lane_plan(
    input: bool,
    input_receives: bool,
    clipboard: bool,
    file_transfer: bool,
) -> Seq<(Lane, Seq<MessageKind>)> {
    (if input {
        seq![
            (
                Lane::Input,
                if input_receives {
                    seq![MessageKind::Input]
                } else {
                    Seq::<MessageKind>::empty()
                },
            ),
        ]
    } else {
        Seq::<(Lane, Seq<MessageKind>)>::empty()
    }) + (if clipboard {
        seq![(Lane::Clipboard, seq![MessageKind::Clipboard])]
    } else {
        Seq::<(Lane, Seq<MessageKind>)>::empty()
    }) + (if file_transfer {
        seq![(Lane::FileTransfer, seq![MessageKind::FileTransfer])]
    } else {
        Seq::<(Lane, Seq<MessageKind>)>::empty()
    })
}

/// The lanes as pairs of subsystem and kinds.
pub open spec fn lane_pairs(lanes: Seq<PeerLaneHandler>) -> Seq<(Lane, Seq<MessageKind>)> {
    lanes.map_values(|l: PeerLaneHandler| (l.lane, l.inbound_kinds@))
}

fn one_kind(kind: MessageKind) -> (v: Vec<MessageKind>)
    ensures
        v@ == seq![kind],
{
    let mut v: Vec<MessageKind> = Vec::new();
    v.push(kind);
    assert(v@ =~= seq![kind]);
    v
}

/// The lanes of a device; without any, there is nothing to attach to a peer.
pub fn merge_peer_handlers(
    input: bool,
    input_receives: bool,
    clipboard: bool,
    file_transfer: bool,
) -> (r: Option<Vec<PeerLaneHandler>>)
    ensures
        match r {
            None => !input && !clipboard && !file_transfer,
            Some(lanes) => lanes@.len() > 0 && lane_pairs(lanes@) == lane_plan(
                input,
                input_receives,
                clipboard,
                file_transfer,
            ),
        },
{
    let mut lanes: Vec<PeerLaneHandler> = Vec::new();
    if input {
        let kinds: Vec<MessageKind> = if input_receives {
            one_kind(MessageKind::Input)
        } else {
            Vec::new()
        };
        lanes.push(PeerLaneHandler::new(Lane::Input, kinds));
    }
    assert(lane_pairs(lanes@) =~= lane_plan(input, input_receives, false, false));
    if clipboard {
        lanes.push(PeerLaneHandler::new(Lane::Clipboard, one_kind(MessageKind::Clipboard)));
    }
    assert(lane_pairs(lanes@) =~= lane_plan(input, input_receives, clipboard, false));
    if file_transfer {
        lanes.push(PeerLaneHandler::new(Lane::FileTransfer, one_kind(MessageKind::FileTransfer)));
    }
    assert(lane_pairs(lanes@) =~= lane_plan(input, input_receives, clipboard, file_transfer));
    if lanes.len() == 0 {
        None
    } else {
        Some(lanes)
    }
}

/// Whether a lane consumes a kind.
pub open spec fn consumes(lane: PeerLaneHandler, kind: MessageKind) -> bool {
    lane.inbound_kinds@.contains(kind)
}

/// The lane that a kind of message reaches: the last one that consumes it.
pub open spec fn route_of(lanes: Seq<PeerLaneHandler>, kind: MessageKind) -> Option<int>
    decreases lanes.len(),
{
    if lanes.len() == 0 {
        None
    } else if consumes(lanes.last(), kind) {
        Some(lanes.len() - 1)
    } else {
        route_of(lanes.drop_last(), kind)
    }
}

fn has_kind(kinds: &Vec<MessageKind>, kind: MessageKind) -> (b: bool)
    ensures
        b == kinds@.contains(kind),
{
    let mut i: usize = 0;
    while i < kinds.len()
        invariant
            i <= kinds.len(),
            forall|k: int| 0 <= k < i ==> kinds@[k] != kind,
        decreases kinds.len() - i,
    {
        if kinds[i] == kind {
            assert(kinds@[i as int] == kind);
            return true;
        }
        i += 1;
    }
    false
}

/// The lane that a kind of message reaches.
pub fn route(lanes: &Vec<PeerLaneHandler>, kind: MessageKind) -> (r: Option<usize>)
    ensures
        match r {
            Some(i) => route_of(lanes@, kind) == Some(i as int),
            None => route_of(lanes@, kind) is None,
        },
{
    let mut n: usize = lanes.len();
    assert(lanes@.take(n as int) == lanes@);
    while n > 0
        invariant
            n <= lanes.len(),
            route_of(lanes@, kind) == route_of(lanes@.take(n as int), kind),
        decreases n,
    {
        assert(lanes@.take(n as int).drop_last() == lanes@.take(n - 1));
        if has_kind(&lanes[n - 1].inbound_kinds, kind) {
            return Some(n - 1);
        }
        n -= 1;
    }
    None
}

/// A message reaches at most one lane; that lane consumes its kind, and no
/// message is lost that some lane consumes.
pub proof fn law_messages_reach_exactly_one_matching_lane(
    lanes: Seq<PeerLaneHandler>,
    kind: MessageKind,
)
    ensures
        match route_of(lanes, kind) {
            Some(i) => 0 <= i < lanes.len() && consumes(lanes[i], kind) && forall|j: int|
                i < j < lanes.len() ==> !consumes(#[trigger] lanes[j], kind),
            None => forall|j: int| 0 <= j < lanes.len() ==> !consumes(#[trigger] lanes[j], kind),
        },
    decreases lanes.len(),
{
    if lanes.len() > 0 && !consumes(lanes.last(), kind) {
        let init = lanes.drop_last();
        law_messages_reach_exactly_one_matching_lane(init, kind);
        assert forall|j: int| 0 <= j < init.len() implies #[trigger] lanes[j] == init[j] by {}
    }
}

/// What became of a message, or of the connection.
#[derive(Clone, Copy, PartialEq, Eq, Structural, Debug)]
pub enum RouteEvent {
    /// A message came for which no lane is enabled.
    NoLane,
    /// A message was handed to its lane.
    Delivered,
    /// The message's lane has no room.
    LaneFull,
    /// The message's lane has stopped.
    LaneClosed,
    /// The peer closed the connection.
    PeerClosed,
    /// Receiving failed.
    ReceiveFailed,
    /// Every lane has stopped.
    AllLanesStopped,
}

/// What the session router does next.
#[derive(Clone, Copy, PartialEq, Eq, Structural, Debug)]
pub enum RouteStep {
    Continue,
    CloseAndEnd,
    End,
}

/// A message without a lane is dropped. A lane that cannot take its message ends the
/// session, and so does the stop of the last lane: nobody can use the connection any
/// more, and it is closed.
pub fn route_step(event: RouteEvent) -> (step: RouteStep)
    ensures
        step == step_after(event),
{
    match event {
        RouteEvent::NoLane => RouteStep::Continue,
        RouteEvent::Delivered => RouteStep::Continue,
        RouteEvent::LaneFull => RouteStep::CloseAndEnd,
        RouteEvent::LaneClosed => RouteStep::CloseAndEnd,
        RouteEvent::PeerClosed => RouteStep::End,
        RouteEvent::ReceiveFailed => RouteStep::End,
        RouteEvent::AllLanesStopped => RouteStep::CloseAndEnd,
    }
}

/// Whether the connection is still to be closed when the lanes have stopped after
/// routing had ended. Lanes that had stopped before have had it closed.
pub open spec fn closes_late(lanes_had_stopped: bool, lane_count: int) -> bool {
    !lanes_had_stopped && lane_count > 0
}

/// Whether the connection is still to be closed when the lanes have stopped after
/// routing had ended.
pub fn close_when_lanes_stop(lanes_had_stopped: bool, lane_count: usize) -> (b: bool)
    ensures
        b == closes_late(lanes_had_stopped, lane_count as int),
{
    !lanes_had_stopped && lane_count > 0
}

/// What the router does next.
pub open spec fn step_after(event: RouteEvent) -> RouteStep {
    match event {
        RouteEvent::NoLane => RouteStep::Continue,
        RouteEvent::Delivered => RouteStep::Continue,
        RouteEvent::LaneFull => RouteStep::CloseAndEnd,
        RouteEvent::LaneClosed => RouteStep::CloseAndEnd,
        RouteEvent::PeerClosed => RouteStep::End,
        RouteEvent::ReceiveFailed => RouteStep::End,
        RouteEvent::AllLanesStopped => RouteStep::CloseAndEnd,
    }
}

/// However routing ended, a session with lanes has its connection closed by the time
/// that they have all stopped: at once, or after the last of them.
pub proof fn law_sessions_are_closed_once_their_lanes_stop(event: RouteEvent, lane_count: int)
    requires
        step_after(event) != RouteStep::Continue,
        lane_count > 0,
    ensures
        step_after(event) == RouteStep::CloseAndEnd || closes_late(
            event == RouteEvent::AllLanesStopped,
            lane_count,
        ),
        event == RouteEvent::AllLanesStopped ==> step_after(event) == RouteStep::CloseAndEnd,
{
}

/// What happens to the peer's lease when routing has ended.
#[derive(Clone, Copy, PartialEq, Eq, Structural, Debug)]
pub enum LeaseFate {
    Release,
    RetainUntilLanesStop,
}

/// The lease is given back once every lane has stopped; lanes that outlast the
/// shutdown deadline keep it until they stop.
pub fn lease_after_routing(lanes_had_stopped: bool, lane_count: usize, stopped_in_time: bool) -> (fate:
    LeaseFate)
    ensures
        fate == (if lanes_had_stopped || lane_count == 0 || stopped_in_time {
            LeaseFate::Release
        } else {
            LeaseFate::RetainUntilLanesStop
        }),
{
    if lanes_had_stopped || lane_count == 0 || stopped_in_time {
        LeaseFate::Release
    } else {
        LeaseFate::RetainUntilLanesStop
    }
}

/// Counts the lanes of a session that have stopped.
#[derive(Debug)]
pub struct LaneMonitor {
    pub lane_count: usize,
    pub completed: usize,
}

impl LaneMonitor {
    /// No more lanes have stopped than there are.
    pub open spec fn valid(self) -> bool {
        self.completed <= self.lane_count
    }

    /// Whether every lane has stopped.
    pub open spec fn all_stopped(self) -> bool {
        self.completed == self.lane_count
    }

    /// All lanes run.
    pub fn new(lane_count: usize) -> (monitor: Self)
        ensures
            monitor.valid(),
            monitor.lane_count == lane_count,
            monitor.completed == 0,
    {
        LaneMonitor { lane_count, completed: 0 }
    }

    /// One more lane has stopped. Tells whether that was the last.
    pub fn on_lane_stopped(&mut self) -> (done: bool)
        requires
            old(self).valid(),
            !old(self).all_stopped(),
        ensures
            final(self).valid(),
            final(self).lane_count == old(self).lane_count,
            final(self).completed == old(self).completed + 1,
            done == final(self).all_stopped(),
    {
        self.completed = self.completed + 1;
        self.completed == self.lane_count
    }

    /// No lane can report any more, so all have stopped.
    pub fn on_channel_closed(&mut self)
        ensures
            final(self).valid(),
            final(self).lane_count == old(self).lane_count,
            final(self).all_stopped(),
    {
        self.completed = self.lane_count;
    }
}

/// Of the lanes whose kinds hold a message's kind, the last one gets it; where there is
/// none, nobody does.
pub proof fn law_messages_go_to_the_last_lane_of_their_kind(
    lanes: Seq<PeerLaneHandler>,
    kind: MessageKind,
    i: int,
)
    requires
        0 <= i < lanes.len(),
        lanes[i].inbound_kinds@.contains(kind),
    ensures
        route_of(lanes, kind) is Some,
        i <= route_of(lanes, kind)->Some_0 < lanes.len(),
        lanes[route_of(lanes, kind)->Some_0].inbound_kinds@.contains(kind),
        (forall|j: int| i < j < lanes.len() ==> !(#[trigger] lanes[j]).inbound_kinds@.contains(kind))
            ==> route_of(lanes, kind) == Some(i),
{
    law_messages_reach_exactly_one_matching_lane(lanes, kind);
    assert(consumes(lanes[i], kind));
}

/// A message of a kind that no lane takes reaches nobody.
pub proof fn law_messages_of_no_lane_go_nowhere(lanes: Seq<PeerLaneHandler>, kind: MessageKind)
    requires
        forall|j: int| 0 <= j < lanes.len() ==> !(#[trigger] lanes[j]).inbound_kinds@.contains(kind),
    ensures
        route_of(lanes, kind) is None,
{
    law_messages_reach_exactly_one_matching_lane(lanes, kind);
}

/// A device has a lane for each subsystem that is enabled, once, and for no other.
/// Clipboard and file messages reach their lane wherever it is; input messages reach
/// theirs where this device lets itself be driven.
pub proof fn law_enabled_subsystems_get_their_messages(
    lanes: Seq<PeerLaneHandler>,
    input: bool,
    input_receives: bool,
    clipboard: bool,
    file_transfer: bool,
)
    requires
        lane_pairs(lanes) == lane_plan(input, input_receives, clipboard, file_transfer),
    ensures
        lanes.len() == (if input {
            1int
        } else {
            0
        }) + (if clipboard {
            1int
        } else {
            0
        }) + (if file_transfer {
            1int
        } else {
            0
        }),
        forall|i: int, j: int|
            0 <= i < j < lanes.len() ==> (#[trigger] lanes[i]).lane != (#[trigger] lanes[j]).lane,
        input <==> exists|i: int| 0 <= i < lanes.len() && (#[trigger] lanes[i]).lane == Lane::Input,
        clipboard <==> exists|i: int|
            0 <= i < lanes.len() && (#[trigger] lanes[i]).lane == Lane::Clipboard,
        file_transfer <==> exists|i: int|
            0 <= i < lanes.len() && (#[trigger] lanes[i]).lane == Lane::FileTransfer,
        match route_of(lanes, MessageKind::Input) {
            Some(i) => input && input_receives && lanes[i].lane == Lane::Input,
            None => !input || !input_receives,
        },
        match route_of(lanes, MessageKind::Clipboard) {
            Some(i) => clipboard && lanes[i].lane == Lane::Clipboard,
            None => !clipboard,
        },
        match route_of(lanes, MessageKind::FileTransfer) {
            Some(i) => file_transfer && lanes[i].lane == Lane::FileTransfer,
            None => !file_transfer,
        },
        route_of(lanes, MessageKind::Handshake) is None,
{
    let pairs = lane_pairs(lanes);
    let a: int = if input {
        1
    } else {
        0
    };
    let b: int = a + if clipboard {
        1int
    } else {
        0
    };
    assert(pairs.len() == lanes.len());
    assert forall|i: int| 0 <= i < lanes.len() implies pairs[i] == (
        (#[trigger] lanes[i]).lane,
        lanes[i].inbound_kinds@,
    ) by {}
    if input {
        assert(pairs[0].0 == Lane::Input);
        assert(lanes[0].lane == Lane::Input);
        if input_receives {
            assert(lanes[0].inbound_kinds@ == seq![MessageKind::Input]);
            assert(lanes[0].inbound_kinds@[0] == MessageKind::Input);
        } else {
            assert(lanes[0].inbound_kinds@ == Seq::<MessageKind>::empty());
        }
    }
    if clipboard {
        assert(pairs[a].0 == Lane::Clipboard);
        assert(lanes[a].lane == Lane::Clipboard);
        assert(lanes[a].inbound_kinds@ == seq![MessageKind::Clipboard]);
        assert(lanes[a].inbound_kinds@[0] == MessageKind::Clipboard);
    }
    if file_transfer {
        assert(pairs[b].0 == Lane::FileTransfer);
        assert(lanes[b].lane == Lane::FileTransfer);
        assert(lanes[b].inbound_kinds@ == seq![MessageKind::FileTransfer]);
        assert(lanes[b].inbound_kinds@[0] == MessageKind::FileTransfer);
    }
    law_messages_reach_exactly_one_matching_lane(lanes, MessageKind::Input);
    law_messages_reach_exactly_one_matching_lane(lanes, MessageKind::Clipboard);
    law_messages_reach_exactly_one_matching_lane(lanes, MessageKind::FileTransfer);
    law_messages_reach_exactly_one_matching_lane(lanes, MessageKind::Handshake);
}

/// Routing goes on after a message that was handed over and after one that nobody
/// wants, and after nothing else. It leaves the connection to its peer where the peer
/// has ended it or can no longer be heard; every other end closes it.
pub proof fn law_only_handled_messages_keep_a_session(event: RouteEvent)
    ensures
        step_after(event) == RouteStep::Continue <==> event == RouteEvent::NoLane || event
            == RouteEvent::Delivered,
        step_after(event) == RouteStep::End <==> event == RouteEvent::PeerClosed || event
            == RouteEvent::ReceiveFailed,
        forall|lanes_had_stopped: bool, lane_count: int|
            #[trigger] closes_late(lanes_had_stopped, lane_count) <==> !lanes_had_stopped
                && lane_count > 0,
{
}

} // verus!
