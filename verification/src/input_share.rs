//! Sharing one keyboard and mouse with a peer: who has the focus, what is sent,
//! and how both sides are left when sharing ends.

use vstd::prelude::*;

use crate::input::decode_input_event;
use crate::input::decoded;
use crate::input::drain_releases;
use crate::input::encode_input_event;
use crate::input::encoded;
use crate::input::held_after;
use crate::input::id_after;
use crate::input::next_message_id;
use crate::input::releases;
use crate::input::track_held_input;
use crate::input::HandoffEdge;
use crate::input::HeldRemoteInput;
use crate::input::InputEnvelope;
use crate::input::InputEvent;
use crate::input::InputSessionError;
use crate::lanes::MessageKind;

verus! {

/// What the screen controller made of a pointer event.
#[derive(Clone, Copy, PartialEq, Eq, Structural, Debug)]
pub enum ShareOutput {
    Idle,
    EnterRemote(InputEvent),
    Forward(InputEvent),
    ReturnLocal,
}

/// The focus of a device that shares its input over one edge.
#[derive(Debug)]
pub struct LinkedScreenInputShare {
    pub edge: HandoffEdge,
    pub emergency_stop_keycode: u32,
    pub remote: bool,
    pub held_remote_inputs: Vec<HeldRemoteInput>,
}

/// Whether an event moves the pointer.
pub open spec fn moves_pointer(event: InputEvent) -> bool {
    event is PointerMove || event is RelativeMove
}

/// The focus, what is held on the peer, and what is sent, after an event.
pub ghost struct Routed {
    pub remote: bool,
    pub held: Seq<HeldRemoteInput>,
    pub sent: Seq<InputEvent>,
}

/// What releasing the peer's focus does: everything held there is let go of.
pub open spec fn released(remote: bool, held: Seq<HeldRemoteInput>) -> Routed {
    Routed {
        remote: false,
        held: Seq::empty(),
        sent: if remote {
            releases(held)
        } else {
            Seq::empty()
        },
    }
}

/// What an event does. The emergency key always releases; without the peer's
/// focus only a pointer position that enters the peer's screen is sent; with it,
/// pointer motion follows the controller and everything else is passed on.
pub open spec fn routed(
    share: LinkedScreenInputShare,
    event: InputEvent,
    output: ShareOutput,
) -> Routed {
    let held = share.held_remote_inputs@;
    if event == InputEvent::KeyPress(share.emergency_stop_keycode) {
        released(share.remote, held)
    } else if !share.remote {
        match output {
            ShareOutput::EnterRemote(entry) if event is PointerMove => Routed {
                remote: true,
                held: Seq::empty(),
                sent: seq![entry],
            },
            _ => Routed { remote: false, held, sent: Seq::empty() },
        }
    } else if moves_pointer(event) {
        match output {
            ShareOutput::Forward(moved) => Routed { remote: true, held, sent: seq![moved] },
            ShareOutput::ReturnLocal => released(true, held),
            _ => Routed { remote: true, held, sent: Seq::empty() },
        }
    } else {
        Routed { remote: true, held: held_after(held, event), sent: seq![event] }
    }
}

fn single(event: InputEvent) -> (v: Vec<InputEvent>)
    ensures
        v@ == seq![event],
{
    let mut v: Vec<InputEvent> = Vec::new();
    v.push(event);
    assert(v@ =~= seq![event]);
    v
}

impl LinkedScreenInputShare {
    /// Everything stays here until the pointer crosses the edge.
    pub fn single_peer(edge: HandoffEdge, emergency_stop_keycode: u32) -> (share: Self)
        ensures
            share.edge == edge,
            share.emergency_stop_keycode == emergency_stop_keycode,
            !share.remote,
            share.held_remote_inputs@.len() == 0,
    {
        LinkedScreenInputShare {
            edge,
            emergency_stop_keycode,
            remote: false,
            held_remote_inputs: Vec::new(),
        }
    }

    /// Whether the peer has the focus.
    pub fn is_remote(&self) -> (b: bool)
        ensures
            b == self.remote,
    {
        self.remote
    }

    /// Takes the focus back and lets go of everything that is held on the peer.
    pub fn release_remote_events(&mut self) -> (events: Vec<InputEvent>)
        ensures
            final(self).edge == old(self).edge,
            final(self).emergency_stop_keycode == old(self).emergency_stop_keycode,
            !final(self).remote,
            final(self).held_remote_inputs@.len() == 0,
            events@ == released(old(self).remote, old(self).held_remote_inputs@).sent,
    {
        if self.remote {
            self.remote = false;
            drain_releases(&mut self.held_remote_inputs)
        } else {
            self.held_remote_inputs.clear();
            let events: Vec<InputEvent> = Vec::new();
            assert(events@ =~= Seq::<InputEvent>::empty());
            events
        }
    }

    /// Takes the focus back without telling the peer. Tells whether it had it.
    pub fn release_remote(&mut self) -> (was_remote: bool)
        ensures
            was_remote == old(self).remote,
            !final(self).remote,
            final(self).held_remote_inputs@.len() == 0,
            final(self).edge == old(self).edge,
            final(self).emergency_stop_keycode == old(self).emergency_stop_keycode,
    {
        let was_remote: bool = self.remote;
        let _ = self.release_remote_events();
        was_remote
    }

    /// Moves the edge. A change takes the focus back first.
    pub fn reconfigure_edge(&mut self, edge: HandoffEdge) -> (events: Vec<InputEvent>)
        ensures
            final(self).edge == edge,
            final(self).emergency_stop_keycode == old(self).emergency_stop_keycode,
            old(self).edge == edge ==> {
                &&& events@.len() == 0
                &&& final(self).remote == old(self).remote
                &&& final(self).held_remote_inputs@ == old(self).held_remote_inputs@
            },
            old(self).edge != edge ==> {
                &&& events@ == released(old(self).remote, old(self).held_remote_inputs@).sent
                &&& !final(self).remote
                &&& final(self).held_remote_inputs@.len() == 0
            },
    {
        if self.edge == edge {
            return Vec::new();
        }
        let events: Vec<InputEvent> = self.release_remote_events();
        self.edge = edge;
        events
    }

    /// Routes an event. `output` is what the screen controller made of it.
    pub fn route_events(&mut self, event: InputEvent, output: ShareOutput) -> (events: Vec<InputEvent>)
        ensures
            final(self).edge == old(self).edge,
            final(self).emergency_stop_keycode == old(self).emergency_stop_keycode,
            (Routed {
                remote: final(self).remote,
                held: final(self).held_remote_inputs@,
                sent: events@,
            }) == routed(*old(self), event, output),
    {
        let emergency: bool = match event {
            InputEvent::KeyPress(keycode) => keycode == self.emergency_stop_keycode,
            _ => false,
        };
        if emergency {
            let events: Vec<InputEvent> = self.release_remote_events();
            assert(self.held_remote_inputs@ =~= Seq::<HeldRemoteInput>::empty());
            return events;
        }
        if !self.remote {
            let at_screen: bool = match event {
                InputEvent::PointerMove { .. } => true,
                _ => false,
            };
            if at_screen {
                if let ShareOutput::EnterRemote(entry) = output {
                    self.held_remote_inputs.clear();
                    self.remote = true;
                    assert(self.held_remote_inputs@ =~= Seq::<HeldRemoteInput>::empty());
                    return single(entry);
                }
            }
            let nothing: Vec<InputEvent> = Vec::new();
            assert(nothing@ =~= Seq::<InputEvent>::empty());
            return nothing;
        }
        let motion: bool = match event {
            InputEvent::PointerMove { .. } => true,
            InputEvent::RelativeMove { .. } => true,
            _ => false,
        };
        if motion {
            match output {
                ShareOutput::Forward(moved) => single(moved),
                ShareOutput::ReturnLocal => {
                    self.remote = false;
                    let events: Vec<InputEvent> = drain_releases(&mut self.held_remote_inputs);
                    assert(self.held_remote_inputs@ =~= Seq::<HeldRemoteInput>::empty());
                    events
                },
                _ => {
                    let nothing: Vec<InputEvent> = Vec::new();
                    assert(nothing@ =~= Seq::<InputEvent>::empty());
                    nothing
                },
            }
        } else {
            track_held_input(&mut self.held_remote_inputs, event);
            single(event)
        }
    }

    /// Routes an event and gives the first of what is sent.
    pub fn route(&mut self, event: InputEvent, output: ShareOutput) -> (first: Option<InputEvent>)
        ensures
            ({
                let all = routed(*old(self), event, output);
                &&& first == (if all.sent.len() == 0 {
                    None
                } else {
                    Some(all.sent[0])
                })
                &&& final(self).remote == all.remote
                &&& final(self).held_remote_inputs@ == all.held
            }),
            final(self).edge == old(self).edge,
            final(self).emergency_stop_keycode == old(self).emergency_stop_keycode,
    {
        let events: Vec<InputEvent> = self.route_events(event, output);
        if events.len() == 0 {
            None
        } else {
            Some(events[0])
        }
    }
}

/// The emergency key takes the focus back whoever has it, is never sent itself,
/// and lets go of everything that is held on the peer.
pub proof fn law_the_emergency_key_always_releases(share: LinkedScreenInputShare, output: ShareOutput)
    ensures
        ({
            let after = routed(
                share,
                InputEvent::KeyPress(share.emergency_stop_keycode),
                output,
            );
            &&& !after.remote
            &&& after.held.len() == 0
            &&& share.remote ==> after.sent == releases(share.held_remote_inputs@)
            &&& !share.remote ==> after.sent.len() == 0
        }),
{
}

/// Whenever the focus comes back, everything that was held on the peer has been
/// let go of.
pub proof fn law_nothing_stays_held_when_focus_returns(
    share: LinkedScreenInputShare,
    event: InputEvent,
    output: ShareOutput,
)
    requires
        share.remote,
        !routed(share, event, output).remote,
    ensures
        routed(share, event, output).held.len() == 0,
        routed(share, event, output).sent == releases(share.held_remote_inputs@),
{
}

/// Without the peer's focus nothing is sent but the event that enters its screen.
pub proof fn law_local_input_stays_local(
    share: LinkedScreenInputShare,
    event: InputEvent,
    output: ShareOutput,
)
    requires
        !share.remote,
    ensures
        !routed(share, event, output).remote ==> routed(share, event, output).sent.len() == 0,
        routed(share, event, output).remote ==> event is PointerMove,
{
}

/// While the peer has the focus, everything but pointer motion and the emergency
/// key is sent exactly once and as it is, and the peer keeps the focus.
pub proof fn law_the_peer_is_sent_what_is_typed(
    share: LinkedScreenInputShare,
    event: InputEvent,
    output: ShareOutput,
)
    requires
        share.remote,
        !(event is PointerMove),
        !(event is RelativeMove),
        event != InputEvent::KeyPress(share.emergency_stop_keycode),
    ensures
        routed(share, event, output).sent == seq![event],
        routed(share, event, output).remote,
{
}

/// While the peer has the focus, pointer motion is sent as the controller made it,
/// changes nothing that is held, and gives the focus back exactly where the
/// controller returned to this screen.
pub proof fn law_the_peer_is_sent_the_pointer(
    share: LinkedScreenInputShare,
    event: InputEvent,
    output: ShareOutput,
    moved: InputEvent,
)
    requires
        share.remote,
        event is PointerMove || event is RelativeMove,
    ensures
        routed(share, event, ShareOutput::Forward(moved)).sent == seq![moved],
        routed(share, event, output).remote <==> output != ShareOutput::ReturnLocal,
        output != ShareOutput::ReturnLocal ==> routed(share, event, output).held
            == share.held_remote_inputs@,
        !(output is Forward) && output != ShareOutput::ReturnLocal ==> routed(
            share,
            event,
            output,
        ).sent.len() == 0,
{
}

/// The peer gets the focus exactly where a pointer position enters its screen, with
/// nothing held there, and is sent where the pointer entered. Nothing else that
/// happens here is sent.
pub proof fn law_the_pointer_enters_the_peers_screen(
    share: LinkedScreenInputShare,
    event: InputEvent,
    output: ShareOutput,
)
    requires
        !share.remote,
    ensures
        routed(share, event, output).remote <==> event is PointerMove && output is EnterRemote,
        event is PointerMove ==> match output {
            ShareOutput::EnterRemote(entry) => {
                &&& routed(share, event, output).sent == seq![entry]
                &&& routed(share, event, output).held.len() == 0
            },
            _ => true,
        },
        !(event is PointerMove && output is EnterRemote) ==> routed(share, event, output).sent.len()
            == 0,
{
}

/// Whether a key or button is down at the end of some events: its last event is a
/// press, or it was down and none lets go of it.
pub open spec fn down_after(was_down: bool, sent: Seq<InputEvent>, x: HeldRemoteInput) -> bool {
    let press = match x {
        HeldRemoteInput::Key(keycode) => InputEvent::KeyPress(keycode),
        HeldRemoteInput::Button(button) => InputEvent::ButtonPress(button),
    };
    let release = match x {
        HeldRemoteInput::Key(keycode) => InputEvent::KeyRelease(keycode),
        HeldRemoteInput::Button(button) => InputEvent::ButtonRelease(button),
    };
    ||| was_down && forall|j: int| 0 <= j < sent.len() ==> #[trigger] sent[j] != release
    ||| exists|i: int|
        0 <= i < sent.len() && #[trigger] sent[i] == press && forall|j: int|
            i < j < sent.len() ==> #[trigger] sent[j] != release
}

/// What is noted as held is what the events that were sent leave down on the peer:
/// nothing is noted that was not sent, and nothing is struck off without a sent
/// event that lets go of it.
pub proof fn law_held_inputs_are_down_on_the_peer(
    share: LinkedScreenInputShare,
    event: InputEvent,
    output: ShareOutput,
    x: HeldRemoteInput,
)
    requires
        share.held_remote_inputs@.no_duplicates(),
        !share.remote ==> share.held_remote_inputs@.len() == 0,
        match output {
            ShareOutput::EnterRemote(moved) => moved is PointerMove || moved is RelativeMove,
            ShareOutput::Forward(moved) => moved is PointerMove || moved is RelativeMove,
            _ => true,
        },
    ensures
        routed(share, event, output).held.no_duplicates(),
        !routed(share, event, output).remote ==> routed(share, event, output).held.len() == 0,
        routed(share, event, output).held.contains(x) <==> down_after(
            share.held_remote_inputs@.contains(x),
            routed(share, event, output).sent,
            x,
        ),
{
    let held = share.held_remote_inputs@;
    let after = routed(share, event, output);
    if share.remote && !after.remote {
        assert(after.sent == releases(held));
        if held.contains(x) {
            let i = choose|i: int| 0 <= i < held.len() && held[i] == x;
            assert(releases(held)[held.len() - 1 - i] == crate::input::release_of(x));
        }
        assert forall|i: int| 0 <= i < after.sent.len() implies !(#[trigger] after.sent[i] is KeyPress)
            && !(after.sent[i] is ButtonPress) by {
            assert(after.sent[i] == crate::input::release_of(held[held.len() - 1 - i]));
        }
    } else if share.remote && !moves_pointer(event) {
        crate::input::law_held_inputs_are_what_is_pressed(held, event, x);
        assert(after.sent == seq![event]);
        assert(after.sent[0] == event);
    } else if after.sent.len() > 0 {
        assert(after.sent.len() == 1);
        assert(after.sent[0] is PointerMove || after.sent[0] is RelativeMove);
    }
}

/// However the focus comes back, the peer is sent a release for everything that it
/// holds and nothing else: by the emergency key, by the pointer, by a moved edge and
/// at the end alike.
pub proof fn law_coming_back_lifts_everything(
    remote: bool,
    held: Seq<HeldRemoteInput>,
    x: HeldRemoteInput,
)
    requires
        remote,
    ensures
        released(remote, held).held.len() == 0,
        !released(remote, held).remote,
        released(remote, held).sent.len() == held.len(),
        !down_after(held.contains(x), released(remote, held).sent, x),
        released(false, held).sent.len() == 0,
{
    if held.contains(x) {
        let i = choose|i: int| 0 <= i < held.len() && held[i] == x;
        assert(releases(held)[held.len() - 1 - i] == crate::input::release_of(x));
    }
    assert forall|i: int| 0 <= i < releases(held).len() implies !(#[trigger] releases(held)[i] is KeyPress)
        && !(releases(held)[i] is ButtonPress) by {
        assert(releases(held)[i] == crate::input::release_of(held[held.len() - 1 - i]));
    }
}

/// A step of the forwarder that awaits the outcome of sending.
#[derive(Clone, Copy, PartialEq, Eq, Structural, Debug)]
pub enum PendingSend {
    Event { was_remote: bool, is_remote: bool },
    Topology { was_remote: bool },
    FocusTimeout { was_remote: bool },
    CaptureError { was_remote: bool },
    Shutdown,
}

/// What to send, and how the local cursor changes before that. `None` in
/// `pending` means that nothing is to be done.
#[derive(Debug)]
pub struct ForwardStep {
    pub suppress: Option<bool>,
    pub events: Vec<InputEvent>,
    pub pending: Option<PendingSend>,
}

/// How the forwarder goes on.
#[derive(Clone, Copy, PartialEq, Eq, Structural, Debug)]
pub enum ForwardNext {
    Continue,
    /// Close the connection and end without fault.
    CloseAndFinish,
    /// Close the connection and pass the failure on.
    CloseAndFail(InputSessionError),
}

/// How the local cursor changes after sending, and how the forwarder goes on.
#[derive(Clone, Copy, PartialEq, Eq, Structural, Debug)]
pub struct ForwardOutcome {
    pub suppress: Option<bool>,
    pub next: ForwardNext,
}

/// Hides the local cursor, and brings it back whatever happens.
#[derive(Clone, Copy, PartialEq, Eq, Structural, Debug)]
pub struct SuppressionGuard {
    pub suppressed: bool,
}

impl SuppressionGuard {
    /// The cursor is shown.
    pub fn new() -> (guard: Self)
        ensures
            !guard.suppressed,
    {
        SuppressionGuard { suppressed: false }
    }

    /// Hides or shows the cursor; gives what to tell the platform, if anything.
    pub fn set(&mut self, suppressed: bool) -> (change: Option<bool>)
        ensures
            final(self).suppressed == suppressed,
            change == (if old(self).suppressed != suppressed {
                Some(suppressed)
            } else {
                None
            }),
    {
        if self.suppressed != suppressed {
            self.suppressed = suppressed;
            Some(suppressed)
        } else {
            None
        }
    }

    /// Shows the cursor, telling the platform in any case.
    pub fn restore(&mut self) -> (change: bool)
        ensures
            !final(self).suppressed,
            !change,
    {
        self.suppressed = false;
        false
    }

    /// What to tell the platform when the guard is given up.
    pub fn give_up(&mut self) -> (change: Option<bool>)
        ensures
            !final(self).suppressed,
            change == (if old(self).suppressed {
                Some(false)
            } else {
                None
            }),
    {
        self.set(false)
    }
}

/// What a forwarder did to the world.
pub ghost enum ForwardEffect {
    /// Hid the local cursor, or showed it.
    Cursor(bool),
    /// Sent a message.
    Sent(InputEnvelope),
    /// Closed the connection, at the end of a step.
    Closed(PendingSend),
}

/// Forwards captured input to the peer while it has the focus. What it did so far
/// is kept for the proofs alone.
pub struct InputForwarder {
    pub share: LinkedScreenInputShare,
    pub guard: SuppressionGuard,
    pub next_id: u64,
    pub ended: Option<ForwardNext>,
    pub first_id: Ghost<u64>,
    pub did: Ghost<Seq<ForwardEffect>>,
}

/// Whether the local cursor is hidden after what was done to it.
pub open spec fn cursor_hidden(did: Seq<ForwardEffect>) -> bool
    decreases did.len(),
{
    if did.len() == 0 {
        false
    } else {
        match did.last() {
            ForwardEffect::Cursor(hidden) => hidden,
            _ => cursor_hidden(did.drop_last()),
        }
    }
}

/// The messages that were sent.
pub open spec fn messages(did: Seq<ForwardEffect>) -> Seq<InputEnvelope>
    decreases did.len(),
{
    if did.len() == 0 {
        Seq::empty()
    } else {
        match did.last() {
            ForwardEffect::Sent(envelope) => messages(did.drop_last()).push(envelope),
            _ => messages(did.drop_last()),
        }
    }
}

/// How often the connection was closed.
pub open spec fn closings(did: Seq<ForwardEffect>) -> nat
    decreases did.len(),
{
    if did.len() == 0 {
        0
    } else {
        closings(did.drop_last()) + if did.last() is Closed {
            1nat
        } else {
            0
        }
    }
}

/// The identifier that comes a number of messages after another.
pub open spec fn id_later(id: u64, n: nat) -> u64
    decreases n,
{
    if n == 0 {
        id
    } else {
        id_after(id_later(id, (n - 1) as nat))
    }
}

/// What was done, with one thing more where there is one.
pub open spec fn then_cursor(did: Seq<ForwardEffect>, change: Option<bool>) -> Seq<ForwardEffect> {
    match change {
        Some(hidden) => did.push(ForwardEffect::Cursor(hidden)),
        None => did,
    }
}

proof fn lemma_did_push(did: Seq<ForwardEffect>, effect: ForwardEffect)
    ensures
        cursor_hidden(did.push(effect)) == (match effect {
            ForwardEffect::Cursor(hidden) => hidden,
            _ => cursor_hidden(did),
        }),
        messages(did.push(effect)) == (match effect {
            ForwardEffect::Sent(envelope) => messages(did).push(envelope),
            _ => messages(did),
        }),
        closings(did.push(effect)) == closings(did) + if effect is Closed {
            1nat
        } else {
            0
        },
{
    assert(did.push(effect).drop_last() =~= did);
}

impl InputForwarder {
    /// Between steps the local cursor is suppressed exactly while the peer has
    /// the focus.
    pub open spec fn settled(self) -> bool {
        self.guard.suppressed == self.share.remote
    }

    /// Whether the state is what a step leaves while its events are being sent.
    pub open spec fn sending(self, pending: PendingSend) -> bool {
        match pending {
            PendingSend::Event { was_remote, is_remote } => is_remote == self.share.remote
                && self.guard.suppressed == (was_remote || is_remote),
            PendingSend::Topology { was_remote } => !self.share.remote && self.guard.suppressed
                == was_remote,
            PendingSend::FocusTimeout { was_remote } => !self.share.remote && self.guard.suppressed
                == was_remote,
            PendingSend::CaptureError { was_remote } => !self.share.remote && self.guard.suppressed
                == was_remote,
            PendingSend::Shutdown => !self.share.remote,
        }
    }

    /// What is kept agrees with what was done: the cursor is hidden exactly while it
    /// is suppressed, the messages were sent under ascending identifiers, each with
    /// an acceptable event, and the connection was closed once forwarding ended and
    /// not before.
    pub open spec fn faithful(self) -> bool {
        &&& cursor_hidden(self.did@) == self.guard.suppressed
        &&& forall|k: int|
            0 <= k < messages(self.did@).len() ==> {
                let envelope = #[trigger] messages(self.did@)[k];
                envelope.id == id_later(self.first_id@, k as nat) && decoded(envelope) is Ok
            }
        &&& self.next_id == id_later(self.first_id@, messages(self.did@).len())
        &&& closings(self.did@) == (if self.ended is Some {
            1nat
        } else {
            0
        })
        &&& match self.ended {
            None => true,
            Some(next) => self.did@.len() > 0 && (self.did@.last() matches ForwardEffect::Closed(
                pending,
            ) && (next == ForwardNext::CloseAndFinish <==> pending == PendingSend::Shutdown)
                && next != ForwardNext::Continue && !self.guard.suppressed && !self.share.remote),
        }
    }

    /// Whether nothing was sent or closed since another state.
    pub open spec fn stays(self, before: Self) -> bool {
        self.next_id == before.next_id && self.ended == before.ended && self.first_id
            == before.first_id
    }

    /// Whether the forwarder waits for its next step.
    pub open spec fn waiting(self) -> bool {
        self.settled() && self.faithful() && self.ended is None
    }

    /// A forwarder that keeps everything local.
    pub fn new(edge: HandoffEdge, emergency_stop_keycode: u32, first_id: u64) -> (forwarder: Self)
        ensures
            forwarder.waiting(),
            forwarder.next_id == first_id,
            forwarder.first_id@ == first_id,
            forwarder.did@.len() == 0,
            forwarder.settled(),
            !forwarder.guard.suppressed,
            forwarder.share.edge == edge,
            forwarder.share.emergency_stop_keycode == emergency_stop_keycode,
            forwarder.share.held_remote_inputs@.len() == 0,
    {
        InputForwarder {
            share: LinkedScreenInputShare::single_peer(edge, emergency_stop_keycode),
            guard: SuppressionGuard::new(),
            next_id: first_id,
            ended: None,
            first_id: Ghost(first_id),
            did: Ghost(Seq::empty()),
        }
    }

    /// The message for the next event that is to be sent.
    pub fn envelope_for(&self, event: InputEvent) -> (r: Result<InputEnvelope, InputSessionError>)
        ensures
            r == encoded(self.next_id, event),
    {
        encode_input_event(self.next_id, event)
    }

    /// Takes note that the message of an event was sent: the next one has the next
    /// identifier.
    pub fn on_sent(&mut self, event: InputEvent)
        requires
            old(self).faithful(),
            old(self).ended is None,
            encoded(old(self).next_id, event) is Ok,
        ensures
            final(self).faithful(),
            final(self).share == old(self).share,
            final(self).guard == old(self).guard,
            final(self).ended == old(self).ended,
            final(self).first_id == old(self).first_id,
            final(self).next_id == id_after(old(self).next_id),
            final(self).did@ == old(self).did@.push(
                ForwardEffect::Sent(encoded(old(self).next_id, event)->Ok_0),
            ),
    {
        proof {
            lemma_did_push(
                self.did@,
                ForwardEffect::Sent(encoded(self.next_id, event)->Ok_0),
            );
        }
        self.did = Ghost(
            self.did@.push(ForwardEffect::Sent(encoded(self.next_id, event)->Ok_0)),
        );
        self.next_id = next_message_id(self.next_id);
    }

    /// Whether losing the focus is timed: only while the peer has it.
    pub fn watches_focus(&self, remote_focus_timeout_millis: u64) -> (b: bool)
        ensures
            b == (self.share.remote && remote_focus_timeout_millis > 0),
    {
        self.share.remote && remote_focus_timeout_millis > 0
    }

    /// Takes a captured event. Entering the peer's screen suppresses the local
    /// cursor before anything is sent.
    pub fn on_event(&mut self, event: InputEvent, output: ShareOutput) -> (step: ForwardStep)
        requires
            old(self).waiting(),
        ensures
            final(self).sending(step.pending->Some_0),
            final(self).faithful(),
            final(self).stays(*old(self)),
            final(self).did@ == then_cursor(old(self).did@, step.suppress),
            ({
                let after = routed(old(self).share, event, output);
                &&& final(self).share.remote == after.remote
                &&& final(self).share.held_remote_inputs@ == after.held
                &&& final(self).share.edge == old(self).share.edge
                &&& final(self).share.emergency_stop_keycode == old(self).share.emergency_stop_keycode
                &&& step.events@ == after.sent
                &&& step.pending == Some(
                    (PendingSend::Event { was_remote: old(self).share.remote, is_remote: after.remote }),
                )
                &&& final(self).guard.suppressed == (old(self).guard.suppressed || after.remote)
                &&& step.suppress == (if !old(self).share.remote && after.remote {
                    Some(true)
                } else {
                    None
                })
            }),
    {
        let was_remote: bool = self.share.is_remote();
        let events: Vec<InputEvent> = self.share.route_events(event, output);
        let is_remote: bool = self.share.is_remote();
        let suppress: Option<bool> = if !was_remote && is_remote {
            self.guard.set(true)
        } else {
            None
        };
        proof {
            lemma_did_push(self.did@, ForwardEffect::Cursor(true));
        }
        self.did = Ghost(then_cursor(self.did@, suppress));
        ForwardStep { suppress, events, pending: Some(PendingSend::Event { was_remote, is_remote }) }
    }

    /// Takes a new edge. An unchanged edge is no step.
    pub fn on_topology(&mut self, edge: HandoffEdge) -> (step: ForwardStep)
        requires
            old(self).waiting(),
        ensures
            step.pending is Some ==> final(self).sending(step.pending->Some_0),
            step.pending is None ==> final(self).settled(),
            final(self).faithful(),
            final(self).stays(*old(self)),
            final(self).did == old(self).did,
            step.suppress is None,
            final(self).guard.suppressed == old(self).guard.suppressed,
            final(self).share.edge == edge,
            final(self).share.emergency_stop_keycode == old(self).share.emergency_stop_keycode,
            edge == old(self).share.edge ==> {
                &&& step.pending is None
                &&& step.events@.len() == 0
                &&& *final(self) == *old(self)
            },
            edge != old(self).share.edge ==> {
                &&& step.pending == Some(
                    (PendingSend::Topology { was_remote: old(self).share.remote }),
                )
                &&& step.events@ == released(
                    old(self).share.remote,
                    old(self).share.held_remote_inputs@,
                ).sent
                &&& !final(self).share.remote
                &&& final(self).share.held_remote_inputs@.len() == 0
            },
    {
        if edge == self.share.edge {
            return ForwardStep { suppress: None, events: Vec::new(), pending: None };
        }
        let was_remote: bool = self.share.is_remote();
        let events: Vec<InputEvent> = self.share.reconfigure_edge(edge);
        ForwardStep { suppress: None, events, pending: Some(PendingSend::Topology { was_remote }) }
    }

    fn release(&mut self, pending: PendingSend) -> (step: ForwardStep)
        requires
            old(self).waiting(),
        ensures
            final(self).faithful(),
            final(self).stays(*old(self)),
            final(self).did == old(self).did,
            step.suppress is None,
            step.pending == Some(pending),
            step.events@ == released(old(self).share.remote, old(self).share.held_remote_inputs@).sent,
            final(self).guard.suppressed == old(self).guard.suppressed,
            final(self).share.edge == old(self).share.edge,
            final(self).share.emergency_stop_keycode == old(self).share.emergency_stop_keycode,
            !final(self).share.remote,
            final(self).share.held_remote_inputs@.len() == 0,
    {
        let events: Vec<InputEvent> = self.share.release_remote_events();
        ForwardStep { suppress: None, events, pending: Some(pending) }
    }

    /// The peer has had the focus for too long without an event.
    pub fn on_focus_timeout(&mut self) -> (step: ForwardStep)
        requires
            old(self).waiting(),
        ensures
            final(self).sending(step.pending->Some_0),
            final(self).faithful(),
            final(self).stays(*old(self)),
            final(self).did == old(self).did,
            step.suppress is None,
            step.pending == Some((PendingSend::FocusTimeout { was_remote: old(self).share.remote })),
            step.events@ == released(old(self).share.remote, old(self).share.held_remote_inputs@).sent,
            final(self).guard.suppressed == old(self).guard.suppressed,
            final(self).share.edge == old(self).share.edge,
            final(self).share.emergency_stop_keycode == old(self).share.emergency_stop_keycode,
            !final(self).share.remote,
            final(self).share.held_remote_inputs@.len() == 0,
    {
        let was_remote: bool = self.share.is_remote();
        self.release(PendingSend::FocusTimeout { was_remote })
    }

    /// Capturing input failed.
    pub fn on_capture_error(&mut self) -> (step: ForwardStep)
        requires
            old(self).waiting(),
        ensures
            final(self).sending(step.pending->Some_0),
            final(self).faithful(),
            final(self).stays(*old(self)),
            final(self).did == old(self).did,
            step.suppress is None,
            step.pending == Some((PendingSend::CaptureError { was_remote: old(self).share.remote })),
            step.events@ == released(old(self).share.remote, old(self).share.held_remote_inputs@).sent,
            final(self).guard.suppressed == old(self).guard.suppressed,
            final(self).share.edge == old(self).share.edge,
            final(self).share.emergency_stop_keycode == old(self).share.emergency_stop_keycode,
            !final(self).share.remote,
            final(self).share.held_remote_inputs@.len() == 0,
    {
        let was_remote: bool = self.share.is_remote();
        self.release(PendingSend::CaptureError { was_remote })
    }

    /// The program is shutting down.
    pub fn on_shutdown(&mut self) -> (step: ForwardStep)
        requires
            old(self).waiting(),
        ensures
            final(self).sending(step.pending->Some_0),
            final(self).faithful(),
            final(self).stays(*old(self)),
            final(self).did == old(self).did,
            step.suppress is None,
            step.pending == Some(PendingSend::Shutdown),
            step.events@ == released(old(self).share.remote, old(self).share.held_remote_inputs@).sent,
            final(self).guard.suppressed == old(self).guard.suppressed,
            final(self).share.edge == old(self).share.edge,
            final(self).share.emergency_stop_keycode == old(self).share.emergency_stop_keycode,
            !final(self).share.remote,
            final(self).share.held_remote_inputs@.len() == 0,
    {
        self.release(PendingSend::Shutdown)
    }

    /// Takes the outcome of sending a step's events. Whatever it is, the local
    /// cursor is then suppressed exactly while the peer has the focus, and when
    /// forwarding ends it is not.
    pub fn after_send(
        &mut self,
        pending: PendingSend,
        sent: Result<(), InputSessionError>,
    ) -> (outcome: ForwardOutcome)
        requires
            old(self).sending(pending),
            old(self).faithful(),
            old(self).ended is None,
        ensures
            final(self).faithful(),
            final(self).next_id == old(self).next_id,
            final(self).first_id == old(self).first_id,
            final(self).ended == (if outcome.next == ForwardNext::Continue {
                None
            } else {
                Some(outcome.next)
            }),
            final(self).did@ == (if outcome.next == ForwardNext::Continue {
                then_cursor(old(self).did@, outcome.suppress)
            } else {
                then_cursor(old(self).did@, outcome.suppress).push(ForwardEffect::Closed(pending))
            }),
            final(self).share.edge == old(self).share.edge,
            final(self).share.emergency_stop_keycode == old(self).share.emergency_stop_keycode,
            outcome.next == next_after(pending, sent),
            final(self).settled(),
            outcome.next != ForwardNext::Continue ==> !final(self).guard.suppressed,
            match pending {
                PendingSend::Event { was_remote, is_remote } => if sent is Ok {
                    &&& final(self).share == old(self).share
                    &&& final(self).guard.suppressed == (old(self).guard.suppressed && !(was_remote
                        && !is_remote))
                } else {
                    &&& !final(self).share.remote
                    &&& final(self).share.held_remote_inputs@.len() == 0
                    &&& final(self).guard.suppressed == (old(self).guard.suppressed && !(old(self).share.remote
                        || was_remote))
                },
                PendingSend::Topology { was_remote } => {
                    &&& final(self).share == old(self).share
                    &&& final(self).guard.suppressed == (old(self).guard.suppressed && !was_remote)
                },
                PendingSend::FocusTimeout { was_remote } => {
                    &&& final(self).share == old(self).share
                    &&& final(self).guard.suppressed == (old(self).guard.suppressed && sent is Ok && !was_remote)
                },
                PendingSend::CaptureError { was_remote } => {
                    &&& final(self).share == old(self).share
                    &&& final(self).guard.suppressed == (old(self).guard.suppressed && !was_remote)
                },
                PendingSend::Shutdown => {
                    &&& final(self).share == old(self).share
                    &&& !final(self).guard.suppressed
                },
            },
            outcome.suppress == (if pending == PendingSend::Shutdown || (old(self).guard.suppressed
                && !final(self).guard.suppressed) {
                Some(false)
            } else {
                None
            }),
    {
        let next: ForwardNext = match pending {
            PendingSend::Shutdown => ForwardNext::CloseAndFinish,
            PendingSend::CaptureError { .. } => ForwardNext::CloseAndFail(
                InputSessionError::CaptureFailed,
            ),
            _ => match sent {
                Ok(_) => ForwardNext::Continue,
                Err(error) => ForwardNext::CloseAndFail(error),
            },
        };
        let sent: bool = sent.is_ok();
        let suppress: Option<bool> = match pending {
            PendingSend::Event { was_remote, is_remote } => if sent {
                if was_remote && !is_remote {
                    self.guard.set(false)
                } else {
                    None
                }
            } else {
                let had_focus: bool = self.share.release_remote();
                if had_focus || was_remote {
                    self.guard.set(false)
                } else {
                    None
                }
            },
            PendingSend::Topology { was_remote } => if was_remote {
                self.guard.set(false)
            } else {
                None
            },
            PendingSend::FocusTimeout { was_remote } => if !sent || was_remote {
                self.guard.set(false)
            } else {
                None
            },
            PendingSend::CaptureError { was_remote } => if was_remote {
                self.guard.set(false)
            } else {
                None
            },
            PendingSend::Shutdown => {
                Some(self.guard.restore())
            },
        };
        proof {
            lemma_did_push(self.did@, ForwardEffect::Cursor(false));
            lemma_did_push(then_cursor(self.did@, suppress), ForwardEffect::Closed(pending));
        }
        self.did = Ghost(then_cursor(self.did@, suppress));
        if next != ForwardNext::Continue {
            self.ended = Some(next);
            self.did = Ghost(self.did@.push(ForwardEffect::Closed(pending)));
        }
        ForwardOutcome { suppress, next }
    }
}

/// How the forwarder goes on after a step.
pub open spec fn next_after(
    pending: PendingSend,
    sent: Result<(), InputSessionError>,
) -> ForwardNext {
    match pending {
        PendingSend::Shutdown => ForwardNext::CloseAndFinish,
        PendingSend::CaptureError { .. } => ForwardNext::CloseAndFail(
            InputSessionError::CaptureFailed,
        ),
        _ => match sent {
            Ok(_) => ForwardNext::Continue,
            Err(error) => ForwardNext::CloseAndFail(error),
        },
    }
}

/// However forwarding ended, the local cursor is shown, the connection was closed
/// once and last of all, the messages went out under one identifier after the other
/// from the first one on, and the run counts as free of faults exactly where a
/// shutdown ended it.
pub proof fn law_forwarding_ends_with_the_cursor_shown(forwarder: InputForwarder)
    requires
        forwarder.faithful(),
        forwarder.ended is Some,
    ensures
        !cursor_hidden(forwarder.did@),
        closings(forwarder.did@) == 1,
        forwarder.did@.last() is Closed,
        forwarder.ended == Some(ForwardNext::CloseAndFinish) <==> forwarder.did@.last()
            == ForwardEffect::Closed(PendingSend::Shutdown),
        forall|k: int|
            0 <= k < messages(forwarder.did@).len() ==> (#[trigger] messages(forwarder.did@)[k]).id
                == id_later(forwarder.first_id@, k as nat),
{
}

/// While forwarding goes on, the local cursor is hidden exactly while the peer has
/// the focus, and the connection is open.
pub proof fn law_cursor_follows_the_focus(forwarder: InputForwarder)
    requires
        forwarder.waiting(),
    ensures
        cursor_hidden(forwarder.did@) == forwarder.share.remote,
        closings(forwarder.did@) == 0,
{
}

/// What became of an injected event.
#[derive(Clone, Copy, PartialEq, Eq, Structural, Debug)]
pub enum Injected {
    Done,
    PermissionDenied,
    Failed,
}

/// What the receiver of input waits on.
#[derive(Clone, Copy, PartialEq, Eq, Structural, Debug)]
pub enum InjectNext {
    Continue,
    /// Inject the event.
    Inject(InputEvent),
    /// Let go of everything, close, and end with the fault, if any.
    End(Option<InputSessionError>),
}

/// Injects received input and remembers what it holds down, whether it still
/// waits to be told to stop, whether it was, and what first could not be let go of.
#[derive(Debug)]
pub struct InputInjection {
    pub held: Vec<HeldRemoteInput>,
    pub watches_shutdown: bool,
    pub shutting_down: bool,
    pub release_error: Option<InputSessionError>,
}

/// Why an event was not injected, if it was not. No outcome is one that did not
/// come in time.
pub open spec fn release_fault(outcome: Option<Injected>) -> Option<InputSessionError> {
    match outcome {
        Some(Injected::Done) => None,
        Some(Injected::PermissionDenied) => Some(InputSessionError::PermissionDenied),
        Some(Injected::Failed) => Some(InputSessionError::InjectionFailed),
        None => Some(InputSessionError::ReleaseTimedOut),
    }
}

/// The first fault of some releases.
pub open spec fn first_release_fault(outcomes: Seq<Option<Injected>>) -> Option<InputSessionError>
    decreases outcomes.len(),
{
    if outcomes.len() == 0 {
        None
    } else {
        match first_release_fault(outcomes.drop_last()) {
            Some(error) => Some(error),
            None => release_fault(outcomes.last()),
        }
    }
}

impl InputInjection {
    /// Nothing is held, and nothing has failed.
    pub fn new() -> (injection: Self)
        ensures
            injection.held@.len() == 0,
            injection.watches_shutdown,
            !injection.shutting_down,
            injection.release_error is None,
    {
        InputInjection {
            held: Vec::new(),
            watches_shutdown: true,
            shutting_down: false,
            release_error: None,
        }
    }

    /// Takes what became of the signal to stop: it says so or not, or it can come no
    /// more. Being told to stop is no fault, and then letting go takes limited time.
    pub fn on_shutdown_signal(&mut self, signal: Option<bool>) -> (next: InjectNext)
        ensures
            next == (if signal == Some(true) {
                InjectNext::End(None)
            } else {
                InjectNext::Continue
            }),
            final(self).watches_shutdown == (old(self).watches_shutdown && signal is Some),
            final(self).shutting_down == (old(self).shutting_down || signal == Some(true)),
            final(self).held == old(self).held,
            final(self).release_error == old(self).release_error,
    {
        match signal {
            Some(true) => {
                self.shutting_down = true;
                InjectNext::End(None)
            },
            Some(false) => InjectNext::Continue,
            None => {
                self.watches_shutdown = false;
                InjectNext::Continue
            },
        }
    }

    /// Takes a message: other kinds are skipped, and input that does not decode to an
    /// acceptable event ends the session.
    pub fn on_envelope(&self, envelope: InputEnvelope) -> (next: InjectNext)
        ensures
            next == (if envelope.kind != MessageKind::Input {
                InjectNext::Continue
            } else {
                match decoded(envelope) {
                    Ok(event) => InjectNext::Inject(event),
                    Err(error) => InjectNext::End(Some(error)),
                }
            }),
    {
        if envelope.kind != MessageKind::Input {
            return InjectNext::Continue;
        }
        match decode_input_event(envelope) {
            Ok(event) => InjectNext::Inject(event),
            Err(error) => InjectNext::End(Some(error)),
        }
    }

    /// Takes the outcome of injecting an event: only what was injected counts as
    /// held, a missing permission ends the session, other failures do not.
    pub fn on_injected(&mut self, event: InputEvent, outcome: Injected) -> (next: InjectNext)
        ensures
            final(self).held@ == (if outcome == Injected::Done {
                held_after(old(self).held@, event)
            } else {
                old(self).held@
            }),
            final(self).watches_shutdown == old(self).watches_shutdown,
            final(self).shutting_down == old(self).shutting_down,
            final(self).release_error == old(self).release_error,
            next == (if outcome == Injected::PermissionDenied {
                InjectNext::End(Some(InputSessionError::PermissionDenied))
            } else {
                InjectNext::Continue
            }),
    {
        match outcome {
            Injected::Done => {
                track_held_input(&mut self.held, event);
                InjectNext::Continue
            },
            Injected::PermissionDenied => InjectNext::End(Some(InputSessionError::PermissionDenied)),
            Injected::Failed => InjectNext::Continue,
        }
    }

    /// Takes the end of the connection: a close by the peer is no fault.
    pub fn on_disconnected(&self, closed: bool) -> (next: InjectNext)
        ensures
            next == InjectNext::End(
                if closed {
                    None
                } else {
                    Some(InputSessionError::ConnectionFailed)
                },
            ),
    {
        if closed {
            InjectNext::End(None)
        } else {
            InjectNext::End(Some(InputSessionError::ConnectionFailed))
        }
    }

    /// The events that let go of everything, what was pressed last first.
    pub fn finish(&mut self) -> (events: Vec<InputEvent>)
        ensures
            events@ == releases(old(self).held@),
            final(self).held@.len() == 0,
            final(self).watches_shutdown == old(self).watches_shutdown,
            final(self).shutting_down == old(self).shutting_down,
            final(self).release_error == old(self).release_error,
    {
        drain_releases(&mut self.held)
    }

    /// Takes what became of an event that lets go of something. Only the first
    /// failure is remembered, and none keeps the others from being let go of.
    pub fn on_released(&mut self, outcome: Option<Injected>)
        ensures
            final(self).release_error == (match old(self).release_error {
                Some(error) => Some(error),
                None => release_fault(outcome),
            }),
            final(self).held == old(self).held,
            final(self).watches_shutdown == old(self).watches_shutdown,
            final(self).shutting_down == old(self).shutting_down,
    {
        let fault: Option<InputSessionError> = match outcome {
            Some(Injected::Done) => None,
            Some(Injected::PermissionDenied) => Some(InputSessionError::PermissionDenied),
            Some(Injected::Failed) => Some(InputSessionError::InjectionFailed),
            None => Some(InputSessionError::ReleaseTimedOut),
        };
        if self.release_error.is_none() {
            self.release_error = fault;
        }
    }
}

/// However many releases are reported after the first ones, the error that is kept
/// is the first fault of all of them.
pub proof fn law_the_first_release_fault_is_kept(
    outcomes: Seq<Option<Injected>>,
    next: Option<Injected>,
)
    ensures
        first_release_fault(Seq::empty()) is None,
        first_release_fault(outcomes.push(next)) == (match first_release_fault(outcomes) {
            Some(error) => Some(error),
            None => release_fault(next),
        }),
        first_release_fault(outcomes) is None <==> forall|i: int|
            0 <= i < outcomes.len() ==> #[trigger] outcomes[i] == Some(Injected::Done),
    decreases outcomes.len(),
{
    assert(outcomes.push(next).drop_last() =~= outcomes);
    if outcomes.len() > 0 {
        law_the_first_release_fault_is_kept(outcomes.drop_last(), next);
        assert(outcomes.drop_last().push(outcomes.last()) =~= outcomes);
        assert forall|i: int|
            0 <= i < outcomes.len() - 1 implies #[trigger] outcomes.drop_last()[i] == outcomes[i] by {}
        if first_release_fault(outcomes) is None {
            assert forall|i: int| 0 <= i < outcomes.len() implies #[trigger] outcomes[i] == Some(
                Injected::Done,
            ) by {
                if i < outcomes.len() - 1 {
                    assert(outcomes.drop_last()[i] == outcomes[i]);
                }
            }
        }
    }
}

/// How an input session ended: its own fault comes first, then the first
/// failure to let go of something.
pub fn session_result(
    terminal: Option<InputSessionError>,
    first_release_error: Option<InputSessionError>,
) -> (r: Result<(), InputSessionError>)
    ensures
        r == (match (terminal, first_release_error) {
            (Some(error), _) => Err::<(), InputSessionError>(error),
            (None, Some(error)) => Err::<(), InputSessionError>(error),
            (None, None) => Ok::<(), InputSessionError>(()),
        }),
{
    match (terminal, first_release_error) {
        (Some(error), _) => Err(error),
        (None, Some(error)) => Err(error),
        (None, None) => Ok(()),
    }
}

/// How a task ended during shutdown.
#[derive(Clone, Copy, PartialEq, Eq, Structural, Debug)]
pub enum TaskEnd {
    Completed,
    Cancelled,
    Failed,
    TimedOut,
}

/// How a shutdown goes on.
#[derive(Debug, PartialEq, Eq)]
pub enum ShutdownNext {
    /// Go on with the next task.
    Continue,
    /// Abort these tasks: the shutdown is over, and was not clean.
    AbortAll(Vec<u64>),
}

/// Keeps track of the live input tasks. Which tasks a shutdown answers for, which of
/// them had finished by themselves, and how those ended that were waited for is kept
/// for the proofs alone.
pub struct InputTaskSupervisor {
    pub accepting: bool,
    pub tasks: Vec<u64>,
    pub waiting: Vec<u64>,
    pub awaited: Option<u64>,
    pub clean: bool,
    pub signalled: bool,
    pub started: Ghost<Set<u64>>,
    pub finished: Ghost<Set<u64>>,
    pub ends: Ghost<Seq<(u64, TaskEnd)>>,
    pub aborted: Ghost<Set<u64>>,
}

/// The tasks that have not finished, in order.
pub open spec fn unfinished(tasks: Seq<u64>, finished: Seq<u64>) -> Seq<u64>
    decreases tasks.len(),
{
    if tasks.len() == 0 {
        tasks
    } else if finished.contains(tasks.last()) {
        unfinished(tasks.drop_last(), finished)
    } else {
        unfinished(tasks.drop_last(), finished).push(tasks.last())
    }
}

fn names(finished: &Vec<u64>, task: u64) -> (b: bool)
    ensures
        b == finished@.contains(task),
{
    let mut i: usize = 0;
    while i < finished.len()
        invariant
            i <= finished.len(),
            forall|k: int| 0 <= k < i ==> finished@[k] != task,
        decreases finished.len() - i,
    {
        if finished[i] == task {
            assert(finished@[i as int] == task);
            return true;
        }
        i += 1;
    }
    false
}

/// Whether a task ended in a way.
pub open spec fn ended_as(ends: Seq<(u64, TaskEnd)>, task: u64, end: TaskEnd) -> bool {
    ends.contains((task, end))
}

/// Whether it is known how a task ended.
pub open spec fn ended_at_all(ends: Seq<(u64, TaskEnd)>, task: u64) -> bool {
    exists|end: TaskEnd| #[trigger] ended_as(ends, task, end)
}

proof fn lemma_unfinished(tasks: Seq<u64>, finished: Seq<u64>, task: u64)
    requires
        tasks.contains(task),
        !finished.contains(task),
    ensures
        unfinished(tasks, finished).contains(task),
    decreases tasks.len(),
{
    let at = choose|i: int| 0 <= i < tasks.len() && tasks[i] == task;
    let earlier = unfinished(tasks.drop_last(), finished);
    if at == tasks.len() - 1 {
        assert(unfinished(tasks, finished).last() == task);
    } else {
        assert(tasks.drop_last()[at] == task);
        lemma_unfinished(tasks.drop_last(), finished, task);
        let k = choose|k: int| 0 <= k < earlier.len() && earlier[k] == task;
        assert(unfinished(tasks, finished)[k] == task);
    }
}

proof fn lemma_ends_push(ends: Seq<(u64, TaskEnd)>, task: u64, end: TaskEnd)
    ensures
        ended_as(ends.push((task, end)), task, end),
        forall|t: u64, e: TaskEnd|
            ended_as(ends, t, e) ==> #[trigger] ended_as(ends.push((task, end)), t, e),
        forall|t: u64| ended_at_all(ends, t) ==> #[trigger] ended_at_all(ends.push((task, end)), t),
        forall|t: u64, e: TaskEnd| #[trigger]
            ended_as(ends.push((task, end)), t, e) ==> ended_as(ends, t, e) || (t == task && e
                == end),
{
    let all = ends.push((task, end));
    assert(all[ends.len() as int] == (task, end));
    assert forall|t: u64, e: TaskEnd| ended_as(ends, t, e) implies #[trigger] ended_as(all, t, e) by {
        let k = choose|k: int| 0 <= k < ends.len() && ends[k] == (t, e);
        assert(all[k] == (t, e));
    }
    assert forall|t: u64, e: TaskEnd| #[trigger] ended_as(all, t, e) implies ended_as(ends, t, e)
        || (t == task && e == end) by {
        let k = choose|k: int| 0 <= k < all.len() && all[k] == (t, e);
        if k < ends.len() {
            assert(ends[k] == (t, e));
        }
    }
    assert forall|t: u64| ended_at_all(ends, t) implies #[trigger] ended_at_all(all, t) by {
        let e = choose|e: TaskEnd| #[trigger] ended_as(ends, t, e);
        assert(ended_as(all, t, e));
    }
}

impl InputTaskSupervisor {
    /// Every task that was started is accounted for: it had finished, it is still
    /// registered, its end is awaited or known, or it was aborted. The shutdown is
    /// clean as long as every task that was waited for completed, and tasks are
    /// aborted only where it is not.
    pub open spec fn sound(self) -> bool {
        &&& forall|task: u64| #[trigger]
            self.started@.contains(task) ==> {
                ||| self.finished@.contains(task)
                ||| self.tasks@.contains(task)
                ||| self.waiting@.contains(task)
                ||| self.awaited == Some(task)
                ||| ended_at_all(self.ends@, task)
                ||| self.aborted@.contains(task)
            }
        &&& self.clean <==> (forall|k: int|
            0 <= k < self.ends@.len() ==> (#[trigger] self.ends@[k]).1 == TaskEnd::Completed)
        &&& self.clean ==> self.aborted@ == Set::<u64>::empty()
        &&& forall|task: u64| #[trigger]
            ended_as(self.ends@, task, TaskEnd::TimedOut) ==> self.aborted@.contains(task)
    }

    /// No tasks yet.
    pub fn new() -> (supervisor: Self)
        ensures
            supervisor.sound(),
            supervisor.accepting,
            supervisor.clean,
            !supervisor.signalled,
            supervisor.tasks@.len() == 0,
            supervisor.waiting@.len() == 0,
            supervisor.awaited is None,
            supervisor.started@ == Set::<u64>::empty(),
    {
        InputTaskSupervisor {
            accepting: true,
            tasks: Vec::new(),
            waiting: Vec::new(),
            awaited: None,
            clean: true,
            signalled: false,
            started: Ghost(Set::empty()),
            finished: Ghost(Set::empty()),
            ends: Ghost(Seq::empty()),
            aborted: Ghost(Set::empty()),
        }
    }

    /// Registers a task, forgetting those that have finished. Once shut down,
    /// no task is started.
    pub fn spawn(&mut self, task: u64, finished: &Vec<u64>) -> (started: bool)
        requires
            old(self).sound(),
        ensures
            final(self).sound(),
            started == old(self).accepting,
            final(self).accepting == old(self).accepting,
            final(self).clean == old(self).clean,
            final(self).signalled == old(self).signalled,
            final(self).waiting == old(self).waiting,
            final(self).awaited == old(self).awaited,
            final(self).ends == old(self).ends,
            final(self).aborted == old(self).aborted,
            final(self).started@ == (if started {
                old(self).started@.insert(task)
            } else {
                old(self).started@
            }),
            final(self).finished@ == (if started {
                old(self).finished@.union(finished@.to_set())
            } else {
                old(self).finished@
            }),
            final(self).tasks@ == (if started {
                unfinished(old(self).tasks@, finished@).push(task)
            } else {
                old(self).tasks@
            }),
    {
        if !self.accepting {
            return false;
        }
        let mut kept: Vec<u64> = Vec::new();
        let mut i: usize = 0;
        assert(kept@ =~= unfinished(self.tasks@.take(0), finished@));
        while i < self.tasks.len()
            invariant
                i <= self.tasks.len(),
                *self == *old(self),
                kept@ == unfinished(self.tasks@.take(i as int), finished@),
            decreases self.tasks.len() - i,
        {
            assert(self.tasks@.take(i + 1).drop_last() == self.tasks@.take(i as int));
            if !names(finished, self.tasks[i]) {
                kept.push(self.tasks[i]);
            }
            i += 1;
        }
        assert(self.tasks@.take(self.tasks@.len() as int) == self.tasks@);
        kept.push(task);
        self.tasks = kept;
        self.started = Ghost(self.started@.insert(task));
        self.finished = Ghost(self.finished@.union(finished@.to_set()));
        proof {
            assert(self.tasks@.last() == task);
            assert forall|t: u64| #[trigger] self.started@.contains(t) implies {
                ||| self.finished@.contains(t)
                ||| self.tasks@.contains(t)
                ||| self.waiting@.contains(t)
                ||| self.awaited == Some(t)
                ||| ended_at_all(self.ends@, t)
                ||| self.aborted@.contains(t)
            } by {
                if t != task {
                    assert(old(self).started@.contains(t));
                    if old(self).tasks@.contains(t) && !finished@.contains(t) {
                        lemma_unfinished(old(self).tasks@, finished@, t);
                        let still = unfinished(old(self).tasks@, finished@);
                        let k = choose|k: int| 0 <= k < still.len() && still[k] == t;
                        assert(self.tasks@[k] == t);
                    }
                }
            }
        }
        true
    }

    /// Starts a shutdown: every task is told to end. The shutdown answers for the tasks
    /// that are registered now and for those that will be until it is over.
    pub fn begin_shutdown(&mut self)
        requires
            old(self).awaited is None,
        ensures
            final(self).sound(),
            final(self).signalled,
            final(self).clean,
            final(self).accepting == old(self).accepting,
            final(self).awaited is None,
            final(self).tasks == old(self).tasks,
            final(self).waiting == old(self).waiting,
            final(self).ends@.len() == 0,
            final(self).started@ == old(self).tasks@.to_set().union(old(self).waiting@.to_set()),
            final(self).finished@ == Set::<u64>::empty(),
    {
        self.signalled = true;
        self.clean = true;
        self.started = Ghost(self.tasks@.to_set().union(self.waiting@.to_set()));
        self.finished = Ghost(Set::empty());
        self.ends = Ghost(Seq::empty());
        self.aborted = Ghost(Set::empty());
    }

    /// The next task to wait for: those that were registered, the last one first, then
    /// those that were registered meanwhile. Where there are none left the shutdown
    /// is over, with the given result, and no further task is accepted.
    pub fn next_task(&mut self) -> (r: Result<u64, bool>)
        requires
            old(self).sound(),
            old(self).awaited is None,
        ensures
            final(self).sound(),
            final(self).clean == old(self).clean,
            final(self).signalled == old(self).signalled,
            final(self).started == old(self).started,
            final(self).finished == old(self).finished,
            final(self).ends == old(self).ends,
            final(self).aborted == old(self).aborted,
            ({
                let none_waits = old(self).waiting@.len() == 0;
                let left = if none_waits {
                    old(self).tasks@
                } else {
                    old(self).waiting@
                };
                match r {
                    Err(clean) => {
                        &&& left.len() == 0
                        &&& clean == old(self).clean
                        &&& !final(self).accepting
                        &&& final(self).awaited is None
                        &&& final(self).tasks@.len() == 0
                        &&& final(self).waiting@.len() == 0
                    },
                    Ok(task) => {
                        &&& left.len() > 0
                        &&& task == left.last()
                        &&& final(self).awaited == Some(task)
                        &&& final(self).accepting == old(self).accepting
                        &&& final(self).tasks@ == (if none_waits {
                            Seq::<u64>::empty()
                        } else {
                            old(self).tasks@
                        })
                        &&& final(self).waiting@ == left.drop_last()
                    },
                }
            }),
    {
        if self.waiting.len() == 0 {
            std::mem::swap(&mut self.waiting, &mut self.tasks);
        }
        let ghost left = self.waiting@;
        let ghost registered = self.tasks@;
        match self.waiting.pop() {
            None => {
                self.accepting = false;
                assert(self.sound());
                Err(self.clean)
            },
            Some(task) => {
                self.awaited = Some(task);
                proof {
                    assert forall|t: u64| #[trigger] self.started@.contains(t) implies {
                        ||| self.finished@.contains(t)
                        ||| self.tasks@.contains(t)
                        ||| self.waiting@.contains(t)
                        ||| self.awaited == Some(t)
                        ||| ended_at_all(self.ends@, t)
                        ||| self.aborted@.contains(t)
                    } by {
                        if left.contains(t) && t != task {
                            let k = choose|k: int| 0 <= k < left.len() && left[k] == t;
                            assert(self.waiting@[k] == t);
                        }
                    }
                }
                Ok(task)
            },
        }
    }

    /// Takes the end of the task that was waited for. One that outlasts the deadline
    /// is aborted with all others and ends the shutdown.
    pub fn on_task_end(&mut self, end: TaskEnd) -> (next: ShutdownNext)
        requires
            old(self).sound(),
            old(self).awaited is Some,
        ensures
            final(self).sound(),
            final(self).awaited is None,
            final(self).clean == (old(self).clean && end == TaskEnd::Completed),
            final(self).signalled == old(self).signalled,
            final(self).started == old(self).started,
            final(self).finished == old(self).finished,
            final(self).ends@ == old(self).ends@.push((old(self).awaited->Some_0, end)),
            if end == TaskEnd::TimedOut {
                &&& next matches ShutdownNext::AbortAll(tasks) && tasks@ == seq![
                    old(self).awaited->Some_0,
                ] + old(self).waiting@ + old(self).tasks@
                &&& final(self).aborted@ == old(self).aborted@.union(
                    (seq![old(self).awaited->Some_0] + old(self).waiting@
                        + old(self).tasks@).to_set(),
                )
                &&& !final(self).accepting
                &&& final(self).tasks@.len() == 0
                &&& final(self).waiting@.len() == 0
            } else {
                &&& next == ShutdownNext::Continue
                &&& final(self).accepting == old(self).accepting
                &&& final(self).tasks == old(self).tasks
                &&& final(self).waiting == old(self).waiting
                &&& final(self).aborted == old(self).aborted
            },
    {
        let mut next: ShutdownNext = ShutdownNext::Continue;
        if let Some(task) = self.awaited {
            let ghost ends = self.ends@;
            self.awaited = None;
            self.ends = Ghost(self.ends@.push((task, end)));
            proof {
                lemma_ends_push(ends, task, end);
            }
            match end {
                TaskEnd::Completed => {},
                TaskEnd::TimedOut => {
                    self.clean = false;
                    self.accepting = false;
                    let mut all: Vec<u64> = Vec::new();
                    all.push(task);
                    all.append(&mut self.waiting);
                    all.append(&mut self.tasks);
                    self.aborted = Ghost(self.aborted@.union(all@.to_set()));
                    proof {
                        assert(all@ =~= seq![task] + old(self).waiting@ + old(self).tasks@);
                        assert(all@[0] == task);
                        assert forall|t: u64| #[trigger] self.started@.contains(t) implies {
                            ||| self.finished@.contains(t)
                            ||| self.tasks@.contains(t)
                            ||| self.waiting@.contains(t)
                            ||| self.awaited == Some(t)
                            ||| ended_at_all(self.ends@, t)
                            ||| self.aborted@.contains(t)
                        } by {
                            if old(self).waiting@.contains(t) {
                                let k = choose|k: int|
                                    0 <= k < old(self).waiting@.len() && old(self).waiting@[k] == t;
                                assert(all@[k + 1] == t);
                            }
                            if old(self).tasks@.contains(t) {
                                let k = choose|k: int|
                                    0 <= k < old(self).tasks@.len() && old(self).tasks@[k] == t;
                                assert(all@[k + 1 + old(self).waiting@.len()] == t);
                            }
                            if t == task {
                                assert(ended_as(self.ends@, t, end));
                            }
                        }
                        assert(self.ends@[ends.len() as int].1 == TaskEnd::TimedOut);
                    }
                    next = ShutdownNext::AbortAll(all);
                },
                _ => {
                    self.clean = false;
                    proof {
                        assert(self.ends@[ends.len() as int].1 == end);
                    }
                },
            }
            proof {
                assert forall|t: u64| #[trigger] self.started@.contains(t) implies {
                    ||| self.finished@.contains(t)
                    ||| self.tasks@.contains(t)
                    ||| self.waiting@.contains(t)
                    ||| self.awaited == Some(t)
                    ||| ended_at_all(self.ends@, t)
                    ||| self.aborted@.contains(t)
                } by {
                    if t == task {
                        assert(ended_as(self.ends@, t, end));
                    }
                }
                if self.clean {
                    assert forall|k: int| 0 <= k < self.ends@.len() implies (
                    #[trigger] self.ends@[k]).1 == TaskEnd::Completed by {
                        if k < ends.len() {
                            assert(self.ends@[k] == ends[k]);
                        }
                    }
                } else if end == TaskEnd::Completed {
                    let k = choose|k: int|
                        0 <= k < ends.len() && (#[trigger] ends[k]).1 != TaskEnd::Completed;
                    assert(self.ends@[k] == ends[k]);
                }
            }
        }
        next
    }
}

/// A shutdown that ends clean has seen every task that it answers for either
/// finished or completed, and has aborted none.
pub proof fn law_a_clean_shutdown_completed_every_task(supervisor: InputTaskSupervisor, task: u64)
    requires
        supervisor.sound(),
        supervisor.clean,
        supervisor.tasks@.len() == 0,
        supervisor.waiting@.len() == 0,
        supervisor.awaited is None,
        supervisor.started@.contains(task),
    ensures
        supervisor.finished@.contains(task) || ended_as(
            supervisor.ends@,
            task,
            TaskEnd::Completed,
        ),
        !supervisor.aborted@.contains(task),
{
    if !supervisor.finished@.contains(task) {
        let end = choose|end: TaskEnd| #[trigger] ended_as(supervisor.ends@, task, end);
        let k = choose|k: int|
            0 <= k < supervisor.ends@.len() && supervisor.ends@[k] == (task, end);
        assert(supervisor.ends@[k].1 == TaskEnd::Completed);
    }
}

/// A task that is still running at the deadline makes the shutdown unclean, and it is
/// aborted: every task that the shutdown answers for had finished, has ended, or is
/// among those that were aborted, and none is left running.
pub proof fn law_no_task_outlives_a_shutdown(supervisor: InputTaskSupervisor, task: u64)
    requires
        supervisor.sound(),
        supervisor.tasks@.len() == 0,
        supervisor.waiting@.len() == 0,
        supervisor.awaited is None,
        supervisor.started@.contains(task),
    ensures
        supervisor.finished@.contains(task) || ended_at_all(supervisor.ends@, task)
            || supervisor.aborted@.contains(task),
        ended_as(supervisor.ends@, task, TaskEnd::TimedOut) ==> !supervisor.clean
            && supervisor.aborted@.contains(task),
{
    if ended_as(supervisor.ends@, task, TaskEnd::TimedOut) {
        let k = choose|k: int|
            0 <= k < supervisor.ends@.len() && supervisor.ends@[k] == (task, TaskEnd::TimedOut);
        assert(supervisor.ends@[k].1 != TaskEnd::Completed);
    }
}

/// Forwarding goes on exactly where what was pending reached the peer and is neither
/// the end nor a failed capture; it ends well only where its end was asked for.
pub proof fn law_forwarding_goes_on_with_what_is_sent(
    pending: PendingSend,
    sent: Result<(), InputSessionError>,
)
    ensures
        next_after(pending, sent) == ForwardNext::Continue <==> sent is Ok && !(pending
            is Shutdown) && !(pending is CaptureError),
        next_after(pending, sent) == ForwardNext::CloseAndFinish <==> pending is Shutdown,
        sent is Err && !(pending is Shutdown) && !(pending is CaptureError) ==> next_after(
            pending,
            sent,
        ) == ForwardNext::CloseAndFail(sent->Err_0),
        pending is CaptureError ==> next_after(pending, sent) == ForwardNext::CloseAndFail(
            InputSessionError::CaptureFailed,
        ),
{
}

/// The tasks that are waited for are those that have not finished, in their order.
pub proof fn law_unfinished_tasks_are_waited_for(tasks: Seq<u64>, finished: Seq<u64>)
    ensures
        unfinished(tasks, finished) == tasks.filter(|task: u64| !finished.contains(task)),
    decreases tasks.len(),
{
    reveal(Seq::filter);
    if tasks.len() > 0 {
        law_unfinished_tasks_are_waited_for(tasks.drop_last(), finished);
    }
}

/// A forwarder that stays has sent nothing under a new number, and has neither ended
/// nor begun anew.
pub proof fn law_staying_forwarders_keep_their_numbers(before: InputForwarder, after: InputForwarder)
    ensures
        after.stays(before) <==> {
            &&& after.next_id == before.next_id
            &&& after.ended == before.ended
            &&& after.first_id == before.first_id
        },
{
}

} // verus!
