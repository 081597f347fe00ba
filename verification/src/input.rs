//! Input events: which are acceptable, and which keys and buttons they leave
//! held down. Fractions are carried as the bits of their IEEE 754 double form.

use vstd::prelude::*;

use crate::lanes::MessageKind;

verus! {

/// A pointer button.
#[derive(Clone, Copy, PartialEq, Eq, Structural, Debug)]
pub struct MouseButton(pub u8);

/// An input event. The coordinates of `PointerMove`, `RelativeMove` and `Scroll`
/// are the bits of a double.
#[derive(Clone, Copy, PartialEq, Eq, Structural, Debug)]
pub enum InputEvent {
    PointerMove { x: u64, y: u64 },
    RelativeMove { dx: u64, dy: u64 },
    RawMotion { dx: i32, dy: i32 },
    Scroll { dx: u64, dy: u64 },
    KeyPress(u32),
    KeyRelease(u32),
    ButtonPress(MouseButton),
    ButtonRelease(MouseButton),
}

/// The bits of the double 1.
pub const ONE: u64 = 0x3ff0_0000_0000_0000;

/// The bits of the double 4.
pub const FOUR: u64 = 0x4010_0000_0000_0000;

/// The bits of the double 10000.
pub const TEN_THOUSAND: u64 = 0x40c3_8800_0000_0000;

/// The bits of the double infinity; above it lie those that are no number.
pub const INFINITY: u64 = 0x7ff0_0000_0000_0000;

/// The sign bit of a double.
pub const SIGN: u64 = 0x8000_0000_0000_0000;

/// The bits of a double without its sign. Among them the numbers ascend.
pub open spec fn magnitude(bits: u64) -> int {
    if bits >= SIGN {
        bits - SIGN
    } else {
        bits as int
    }
}

/// Whether a double is a finite number of at most the given magnitude.
pub open spec fn within(bits: u64, bound: u64) -> bool {
    magnitude(bits) <= bound
}

fn is_within(bits: u64, bound: u64) -> (b: bool)
    ensures
        b == within(bits, bound),
{
    if bits >= SIGN {
        bits - SIGN <= bound
    } else {
        bits <= bound
    }
}

/// Whether a double lies between 0 and 1; minus zero does.
pub open spec fn in_unit(bits: u64) -> bool {
    bits <= ONE || bits == SIGN
}

/// Whether an event may cross the connection: pointer positions lie on the
/// screen, motions and scrolling are bounded, and key codes fit sixteen bits.
pub open spec fn acceptable(event: InputEvent) -> bool {
    match event {
        InputEvent::PointerMove { x, y } => in_unit(x) && in_unit(y),
        InputEvent::RelativeMove { dx, dy } => within(dx, FOUR) && within(dy, FOUR),
        InputEvent::RawMotion { dx, dy } => -100_000 <= dx <= 100_000 && -100_000 <= dy <= 100_000,
        InputEvent::Scroll { dx, dy } => within(dx, TEN_THOUSAND) && within(dy, TEN_THOUSAND),
        InputEvent::KeyPress(keycode) => keycode <= 0xffff,
        InputEvent::KeyRelease(keycode) => keycode <= 0xffff,
        InputEvent::ButtonPress(_) => true,
        InputEvent::ButtonRelease(_) => true,
    }
}

/// Why an event or an input session is refused.
#[derive(Clone, Copy, PartialEq, Eq, Structural, Debug)]
pub enum InputSessionError {
    OutOfRange,
    UnexpectedKind(MessageKind),
    Malformed,
    SendTimedOut,
    ReleaseTimedOut,
    PermissionDenied,
    ConnectionFailed,
    CaptureFailed,
    InjectionFailed,
}

/// Checks that an event may cross the connection.
pub fn validate_input_event(event: InputEvent) -> (r: Result<(), InputSessionError>)
    ensures
        r == (if acceptable(event) {
            Ok::<(), InputSessionError>(())
        } else {
            Err::<(), InputSessionError>(InputSessionError::OutOfRange)
        }),
{
    let valid: bool = match event {
        InputEvent::PointerMove { x, y } => (x <= ONE || x == SIGN) && (y <= ONE || y == SIGN),
        InputEvent::RelativeMove { dx, dy } => is_within(dx, FOUR) && is_within(dy, FOUR),
        InputEvent::RawMotion { dx, dy } => -100_000 <= dx && dx <= 100_000 && -100_000 <= dy && dy
            <= 100_000,
        InputEvent::Scroll { dx, dy } => is_within(dx, TEN_THOUSAND) && is_within(dy, TEN_THOUSAND),
        InputEvent::KeyPress(keycode) => keycode <= 0xffff,
        InputEvent::KeyRelease(keycode) => keycode <= 0xffff,
        InputEvent::ButtonPress(_) => true,
        InputEvent::ButtonRelease(_) => true,
    };
    if valid {
        Ok(())
    } else {
        Err(InputSessionError::OutOfRange)
    }
}

/// A message of the input lane. The body is what its bytes decode to, where that is
/// an event.
#[derive(Clone, Copy, PartialEq, Eq, Structural, Debug)]
pub struct InputEnvelope {
    pub id: u64,
    pub version_supported: bool,
    pub kind: MessageKind,
    pub body: Option<InputEvent>,
}

/// The identifier of the next message. Identifiers start over where they end.
pub open spec fn id_after(id: u64) -> u64 {
    if id == u64::MAX {
        0
    } else {
        (id + 1) as u64
    }
}

/// The identifier of the next message.
pub fn next_message_id(id: u64) -> (next: u64)
    ensures
        next == id_after(id),
{
    if id == u64::MAX {
        0
    } else {
        id + 1
    }
}

/// The message that carries an event, where the event may cross the connection.
pub open spec fn encoded(id: u64, event: InputEvent) -> Result<InputEnvelope, InputSessionError> {
    if acceptable(event) {
        Ok(
            InputEnvelope {
                id,
                version_supported: true,
                kind: MessageKind::Input,
                body: Some(event),
            },
        )
    } else {
        Err(InputSessionError::OutOfRange)
    }
}

/// The event that a message carries: only input messages carry one, and only
/// acceptable events pass.
pub open spec fn decoded(envelope: InputEnvelope) -> Result<InputEvent, InputSessionError> {
    if envelope.kind != MessageKind::Input {
        Err(InputSessionError::UnexpectedKind(envelope.kind))
    } else {
        match envelope.body {
            None => Err(InputSessionError::Malformed),
            Some(event) => if acceptable(event) {
                Ok(event)
            } else {
                Err(InputSessionError::OutOfRange)
            },
        }
    }
}

/// Puts an event into a message, unless it must not cross the connection.
pub fn encode_input_event(id: u64, event: InputEvent) -> (r: Result<
    InputEnvelope,
    InputSessionError,
>)
    ensures
        r == encoded(id, event),
{
    match validate_input_event(event) {
        Ok(_) => Ok(
            InputEnvelope {
                id,
                version_supported: true,
                kind: MessageKind::Input,
                body: Some(event),
            },
        ),
        Err(error) => Err(error),
    }
}

/// Reads the event off a message.
pub fn decode_input_event(envelope: InputEnvelope) -> (r: Result<InputEvent, InputSessionError>)
    ensures
        r == decoded(envelope),
{
    if envelope.kind != MessageKind::Input {
        return Err(InputSessionError::UnexpectedKind(envelope.kind));
    }
    match envelope.body {
        None => Err(InputSessionError::Malformed),
        Some(event) => match validate_input_event(event) {
            Ok(_) => Ok(event),
            Err(error) => Err(error),
        },
    }
}

/// What is put into a message is read off it again, under the identifier that was
/// given, and what must not cross the connection is put into none.
pub proof fn law_events_survive_the_envelope(id: u64, event: InputEvent)
    ensures
        match encoded(id, event) {
            Ok(envelope) => acceptable(event) && envelope.id == id && envelope.kind
                == MessageKind::Input && decoded(envelope) == Ok::<InputEvent, InputSessionError>(
                event,
            ),
            Err(error) => !acceptable(event) && error == InputSessionError::OutOfRange,
        },
{
}

/// A message of another kind is refused whatever it holds.
pub proof fn law_other_kinds_carry_no_input(envelope: InputEnvelope)
    requires
        envelope.kind != MessageKind::Input,
    ensures
        decoded(envelope) == Err::<InputEvent, InputSessionError>(
            InputSessionError::UnexpectedKind(envelope.kind),
        ),
{
}

/// A position, a motion or a scroll distance that is no number or infinite is
/// never acceptable.
pub proof fn law_only_finite_numbers_pass(event: InputEvent)
    requires
        acceptable(event),
    ensures
        match event {
            InputEvent::PointerMove { x, y } => magnitude(x) < INFINITY && magnitude(y) < INFINITY,
            InputEvent::RelativeMove { dx, dy } => magnitude(dx) < INFINITY && magnitude(dy)
                < INFINITY,
            InputEvent::Scroll { dx, dy } => magnitude(dx) < INFINITY && magnitude(dy) < INFINITY,
            _ => true,
        },
{
}

/// A key or button that is held down.
#[derive(Clone, Copy, PartialEq, Eq, Structural, Debug)]
pub enum HeldRemoteInput {
    Key(u32),
    Button(MouseButton),
}

/// The event that lets go of a held key or button.
pub open spec fn release_of(held: HeldRemoteInput) -> InputEvent {
    match held {
        HeldRemoteInput::Key(keycode) => InputEvent::KeyRelease(keycode),
        HeldRemoteInput::Button(button) => InputEvent::ButtonRelease(button),
    }
}

impl HeldRemoteInput {
    /// The event that lets go of the key or button.
    pub fn release_event(self) -> (event: InputEvent)
        ensures
            event == release_of(self),
    {
        match self {
            HeldRemoteInput::Key(keycode) => InputEvent::KeyRelease(keycode),
            HeldRemoteInput::Button(button) => InputEvent::ButtonRelease(button),
        }
    }
}

/// What an event presses.
pub open spec fn pressed_by(event: InputEvent) -> Option<HeldRemoteInput> {
    match event {
        InputEvent::KeyPress(keycode) => Some(HeldRemoteInput::Key(keycode)),
        InputEvent::ButtonPress(button) => Some(HeldRemoteInput::Button(button)),
        _ => None,
    }
}

/// What an event lets go of.
pub open spec fn released_by(event: InputEvent) -> Option<HeldRemoteInput> {
    match event {
        InputEvent::KeyRelease(keycode) => Some(HeldRemoteInput::Key(keycode)),
        InputEvent::ButtonRelease(button) => Some(HeldRemoteInput::Button(button)),
        _ => None,
    }
}

/// A list without the last occurrence of a value.
pub open spec fn without_last(
    held: Seq<HeldRemoteInput>,
    input: HeldRemoteInput,
) -> Seq<HeldRemoteInput>
    decreases held.len(),
{
    if held.len() == 0 {
        held
    } else if held.last() == input {
        held.drop_last()
    } else {
        without_last(held.drop_last(), input).push(held.last())
    }
}

/// What is held after an event, in the order in which it was pressed. Pressing
/// again what is held changes nothing.
pub open spec fn held_after(held: Seq<HeldRemoteInput>, event: InputEvent) -> Seq<HeldRemoteInput> {
    match (pressed_by(event), released_by(event)) {
        (Some(input), _) => if held.contains(input) {
            held
        } else {
            held.push(input)
        },
        (None, Some(input)) => without_last(held, input),
        (None, None) => held,
    }
}

proof fn lemma_without_last(
    held: Seq<HeldRemoteInput>,
    input: HeldRemoteInput,
    at: int,
)
    requires
        0 <= at < held.len(),
        held[at] == input,
        forall|k: int| at < k < held.len() ==> held[k] != input,
    ensures
        without_last(held, input) == held.remove(at),
    decreases held.len(),
{
    if at < held.len() - 1 {
        lemma_without_last(held.drop_last(), input, at);
        assert(held.drop_last().remove(at).push(held.last()) =~= held.remove(at));
    } else {
        assert(held.drop_last() =~= held.remove(at));
    }
}

proof fn lemma_without_absent(held: Seq<HeldRemoteInput>, input: HeldRemoteInput)
    requires
        !held.contains(input),
    ensures
        without_last(held, input) == held,
    decreases held.len(),
{
    if held.len() > 0 {
        assert(held.last() == held[held.len() - 1]);
        assert forall|k: int| 0 <= k < held.drop_last().len() implies held.drop_last()[k] != input by {
            assert(held[k] != input);
        }
        lemma_without_absent(held.drop_last(), input);
        assert(held.drop_last().push(held.last()) =~= held);
    }
}

/// Notes what an event presses or lets go of.
pub fn track_held_input(held: &mut Vec<HeldRemoteInput>, event: InputEvent)
    ensures
        final(held)@ == held_after(old(held)@, event),
{
    let (input, pressed): (HeldRemoteInput, bool) = match event {
        InputEvent::KeyPress(keycode) => (HeldRemoteInput::Key(keycode), true),
        InputEvent::KeyRelease(keycode) => (HeldRemoteInput::Key(keycode), false),
        InputEvent::ButtonPress(button) => (HeldRemoteInput::Button(button), true),
        InputEvent::ButtonRelease(button) => (HeldRemoteInput::Button(button), false),
        _ => {
            return ;
        },
    };
    let mut n: usize = held.len();
    while n > 0 && held[n - 1] != input
        invariant
            n <= held.len(),
            held@ == old(held)@,
            forall|k: int| n <= k < held.len() ==> held@[k] != input,
        decreases n,
    {
        n -= 1;
    }
    if pressed {
        if n == 0 {
            assert(!old(held)@.contains(input));
            held.push(input);
        } else {
            assert(old(held)@.contains(input)) by {
                assert(old(held)@[n - 1] == input);
            }
        }
    } else if n > 0 {
        proof {
            lemma_without_last(old(held)@, input, n - 1);
        }
        held.remove(n - 1);
    } else {
        proof {
            lemma_without_absent(old(held)@, input);
        }
    }
}

/// The events that let go of everything, what was pressed last first.
pub open spec fn releases(held: Seq<HeldRemoteInput>) -> Seq<InputEvent> {
    Seq::new(held.len(), |i: int| release_of(held[held.len() - 1 - i]))
}

/// Lets go of everything.
pub fn drain_releases(held: &mut Vec<HeldRemoteInput>) -> (events: Vec<InputEvent>)
    ensures
        events@ == releases(old(held)@),
        final(held)@.len() == 0,
{
    let mut events: Vec<InputEvent> = Vec::new();
    let ghost start = held@;
    while held.len() > 0
        invariant
            held@ == start.take(held@.len() as int),
            held.len() + events.len() == start.len(),
            forall|i: int|
                0 <= i < events@.len() ==> #[trigger] events@[i] == release_of(
                    start[start.len() - 1 - i],
                ),
        decreases held.len(),
    {
        let last: HeldRemoteInput = held[held.len() - 1];
        let _ = held.pop();
        events.push(last.release_event());
    }
    assert(events@ =~= releases(start));
    events
}

proof fn lemma_without_last_keeps(held: Seq<HeldRemoteInput>, input: HeldRemoteInput)
    requires
        held.no_duplicates(),
    ensures
        without_last(held, input).no_duplicates(),
        forall|x: HeldRemoteInput|
            without_last(held, input).contains(x) <==> held.contains(x) && x != input,
    decreases held.len(),
{
    if held.contains(input) {
        let at = choose|i: int| 0 <= i < held.len() && held[i] == input;
        lemma_without_last(held, input, at);
        let rest = held.remove(at);
        assert forall|x: HeldRemoteInput| rest.contains(x) <==> held.contains(x) && x != input by {
            if rest.contains(x) {
                let i = choose|i: int| 0 <= i < rest.len() && rest[i] == x;
                let p = if i < at { i } else { i + 1 };
                assert(held[p] == x);
            }
            if held.contains(x) && x != input {
                let i = choose|i: int| 0 <= i < held.len() && held[i] == x;
                let p = if i < at { i } else { i - 1 };
                assert(rest[p] == x);
            }
        }
        assert forall|i: int, j: int| 0 <= i < rest.len() && 0 <= j < rest.len() && i != j implies rest[i]
            != rest[j] by {
            let p = if i < at { i } else { i + 1 };
            let q = if j < at { j } else { j + 1 };
            assert(rest[i] == held[p] && rest[j] == held[q]);
        }
    } else {
        lemma_without_absent(held, input);
    }
}

/// Nothing is noted twice, and after an event exactly what is still pressed is
/// noted as held.
pub proof fn law_held_inputs_are_what_is_pressed(
    held: Seq<HeldRemoteInput>,
    event: InputEvent,
    x: HeldRemoteInput,
)
    requires
        held.no_duplicates(),
    ensures
        held_after(held, event).no_duplicates(),
        held_after(held, event).contains(x) == (pressed_by(event) == Some(x) || (held.contains(x)
            && released_by(event) != Some(x))),
{
    match (pressed_by(event), released_by(event)) {
        (Some(input), _) => {
            if !held.contains(input) {
                let after = held.push(input);
                assert(after[held.len() as int] == input);
                if held.contains(x) {
                    let i = choose|i: int| 0 <= i < held.len() && held[i] == x;
                    assert(after[i] == x);
                }
                if after.contains(x) && x != input {
                    let i = choose|i: int| 0 <= i < after.len() && after[i] == x;
                    assert(held[i] == x);
                }
            }
        },
        (None, Some(input)) => {
            lemma_without_last_keeps(held, input);
        },
        (None, None) => {},
    }
}

/// Letting go covers everything that is held: after the releases nothing is.
pub proof fn law_releases_cover_everything(held: Seq<HeldRemoteInput>, x: HeldRemoteInput)
    requires
        held.contains(x),
    ensures
        releases(held).contains(release_of(x)),
        releases(held).len() == held.len(),
{
    let i = choose|i: int| 0 <= i < held.len() && held[i] == x;
    assert(releases(held)[held.len() - 1 - i] == release_of(x));
}

/// The side of the screen that leads to the peer.
#[derive(Clone, Copy, PartialEq, Eq, Structural, Debug)]
pub enum HandoffEdge {
    Left,
    Right,
    Top,
    Bottom,
}

/// The bits of the double nearest to one minus 0.995, as doubles subtract.
pub const NEAR_START: u64 = 0x3f74_7ae1_47ae_1480;

/// The bits of the double nearest to 0.995.
pub const NEAR_END: u64 = 0x3fef_d70a_3d70_a3d7;

/// Whether a double is a number of at most the given positive one.
pub open spec fn at_most(bits: u64, bound: u64) -> bool {
    bits <= bound || SIGN <= bits <= SIGN + INFINITY
}

/// Whether a double is a number of at least the given positive one.
pub open spec fn at_least(bits: u64, bound: u64) -> bool {
    bound <= bits <= INFINITY
}

/// Whether a pointer position touches the edge that leads to the peer, within
/// half a percent of the screen.
pub open spec fn touches(edge: HandoffEdge, x: u64, y: u64) -> bool {
    match edge {
        HandoffEdge::Left => at_most(x, NEAR_START),
        HandoffEdge::Right => at_least(x, NEAR_END),
        HandoffEdge::Top => at_most(y, NEAR_START),
        HandoffEdge::Bottom => at_least(y, NEAR_END),
    }
}

/// Whether a pointer position touches the edge that leads to the peer.
pub fn at_handoff_edge(edge: HandoffEdge, x: u64, y: u64) -> (b: bool)
    ensures
        b == touches(edge, x, y),
{
    match edge {
        HandoffEdge::Left => x <= NEAR_START || (SIGN <= x && x <= SIGN + INFINITY),
        HandoffEdge::Right => NEAR_END <= x && x <= INFINITY,
        HandoffEdge::Top => y <= NEAR_START || (SIGN <= y && y <= SIGN + INFINITY),
        HandoffEdge::Bottom => NEAR_END <= y && y <= INFINITY,
    }
}

/// The pixel that the boundary detector is shown: at the edge one just beyond
/// the screen of a thousand by a thousand, elsewhere the pointer's own.
pub fn boundary_sample_for_edge(edge: HandoffEdge, x: u64, y: u64, px: i32, py: i32) -> (r: (
    i32,
    i32,
))
    ensures
        r == (if !touches(edge, x, y) {
            (px, py)
        } else {
            match edge {
                HandoffEdge::Left => (-1i32, py),
                HandoffEdge::Right => (1000i32, py),
                HandoffEdge::Top => (px, -1i32),
                HandoffEdge::Bottom => (px, 1000i32),
            }
        }),
{
    if !at_handoff_edge(edge, x, y) {
        return (px, py);
    }
    match edge {
        HandoffEdge::Left => (-1, py),
        HandoffEdge::Right => (1000, py),
        HandoffEdge::Top => (px, -1),
        HandoffEdge::Bottom => (px, 1000),
    }
}

/// Which directions of input sharing a device takes part in.
#[derive(Clone, Copy, PartialEq, Eq, Structural, Debug)]
pub enum InputRuntimeRole {
    Disabled,
    Source,
    Target,
    Both,
}

/// Which input tasks run.
#[derive(Clone, Copy, PartialEq, Eq, Structural, Debug)]
pub struct InputRuntimePlan {
    pub start_capture_forwarder: bool,
    pub start_inject_receiver: bool,
}

/// Whether a role forwards captured input.
pub open spec fn forwards(role: InputRuntimeRole) -> bool {
    role == InputRuntimeRole::Source || role == InputRuntimeRole::Both
}

/// Whether a role injects received input.
pub open spec fn injects(role: InputRuntimeRole) -> bool {
    role == InputRuntimeRole::Target || role == InputRuntimeRole::Both
}

/// The plan for a role: each direction starts where the role asks for it and the
/// platform can do it.
pub open spec fn runtime_plan(
    role: InputRuntimeRole,
    can_capture_input: bool,
    can_inject_input: bool,
) -> InputRuntimePlan {
    InputRuntimePlan {
        start_capture_forwarder: forwards(role) && can_capture_input,
        start_inject_receiver: injects(role) && can_inject_input,
    }
}

/// Whether the platform grants everything that a role asks for.
pub open spec fn permissions_ready(
    role: InputRuntimeRole,
    can_capture_input: bool,
    can_inject_input: bool,
) -> bool {
    (forwards(role) ==> can_capture_input) && (injects(role) ==> can_inject_input)
}

/// Each direction starts where the role asks for it and the platform can do it.
pub fn plan_runtime(role: InputRuntimeRole, can_capture_input: bool, can_inject_input: bool) -> (plan:
    InputRuntimePlan)
    ensures
        plan == runtime_plan(role, can_capture_input, can_inject_input),
{
    match role {
        InputRuntimeRole::Disabled => InputRuntimePlan {
            start_capture_forwarder: false,
            start_inject_receiver: false,
        },
        InputRuntimeRole::Source => InputRuntimePlan {
            start_capture_forwarder: can_capture_input,
            start_inject_receiver: false,
        },
        InputRuntimeRole::Target => InputRuntimePlan {
            start_capture_forwarder: false,
            start_inject_receiver: can_inject_input,
        },
        InputRuntimeRole::Both => InputRuntimePlan {
            start_capture_forwarder: can_capture_input,
            start_inject_receiver: can_inject_input,
        },
    }
}

/// Whether the platform grants everything that the role asks for.
pub fn input_permissions_ready(
    role: InputRuntimeRole,
    can_capture_input: bool,
    can_inject_input: bool,
) -> (ready: bool)
    ensures
        ready == permissions_ready(role, can_capture_input, can_inject_input),
{
    match role {
        InputRuntimeRole::Disabled => true,
        InputRuntimeRole::Source => can_capture_input,
        InputRuntimeRole::Target => can_inject_input,
        InputRuntimeRole::Both => can_capture_input && can_inject_input,
    }
}

/// Which events may cross the connection, by the numbers they hold: a position lies
/// between nought and one, where minus nought counts, and the size of a motion or of
/// scrolling, which is what the bits say below the sign, has a limit. Every button
/// passes, and every key code of sixteen bits.
pub proof fn law_events_pass_within_their_limits(event: InputEvent)
    ensures
        match event {
            InputEvent::PointerMove { x, y } => acceptable(event) <==> {
                &&& x <= 0x3ff0_0000_0000_0000 || x == 0x8000_0000_0000_0000
                &&& y <= 0x3ff0_0000_0000_0000 || y == 0x8000_0000_0000_0000
            },
            InputEvent::RelativeMove { dx, dy } => acceptable(event) <==> {
                &&& dx % 0x8000_0000_0000_0000 <= 0x4010_0000_0000_0000
                &&& dy % 0x8000_0000_0000_0000 <= 0x4010_0000_0000_0000
            },
            InputEvent::RawMotion { dx, dy } => acceptable(event) <==> {
                &&& -100_000 <= dx <= 100_000
                &&& -100_000 <= dy <= 100_000
            },
            InputEvent::Scroll { dx, dy } => acceptable(event) <==> {
                &&& dx % 0x8000_0000_0000_0000 <= 0x40c3_8800_0000_0000
                &&& dy % 0x8000_0000_0000_0000 <= 0x40c3_8800_0000_0000
            },
            InputEvent::KeyPress(keycode) => acceptable(event) <==> keycode < 65_536,
            InputEvent::KeyRelease(keycode) => acceptable(event) <==> keycode < 65_536,
            InputEvent::ButtonPress(_) => acceptable(event),
            InputEvent::ButtonRelease(_) => acceptable(event),
        },
{
}

/// A press and the release of the same key or button pass or fail together, and a
/// motion passes exactly where the opposite motion does.
pub proof fn law_limits_are_the_same_both_ways(keycode: u32, button: MouseButton, dx: u64, dy: u64)
    requires
        dx < 0x8000_0000_0000_0000,
        dy < 0x8000_0000_0000_0000,
    ensures
        acceptable(InputEvent::KeyPress(keycode)) == acceptable(InputEvent::KeyRelease(keycode)),
        acceptable(InputEvent::ButtonPress(button)) == acceptable(InputEvent::ButtonRelease(button)),
        acceptable(InputEvent::RelativeMove { dx, dy }) == acceptable(
            InputEvent::RelativeMove {
                dx: (dx + 0x8000_0000_0000_0000) as u64,
                dy: (dy + 0x8000_0000_0000_0000) as u64,
            },
        ),
        acceptable(InputEvent::Scroll { dx, dy }) == acceptable(
            InputEvent::Scroll {
                dx: (dx + 0x8000_0000_0000_0000) as u64,
                dy: (dy + 0x8000_0000_0000_0000) as u64,
            },
        ),
{
}

/// An input message gives exactly the event that its body holds, unless there is
/// none or it is out of range; its identifier and version have no say in that.
pub proof fn law_messages_give_their_own_event(envelope: InputEnvelope, event: InputEvent)
    ensures
        decoded(envelope) == Ok::<InputEvent, InputSessionError>(event) <==> {
            &&& envelope.kind == MessageKind::Input
            &&& envelope.body == Some(event)
            &&& acceptable(event)
        },
        envelope.kind == MessageKind::Input && envelope.body is None ==> decoded(envelope) == Err::<
            InputEvent,
            InputSessionError,
        >(InputSessionError::Malformed),
{
}

/// Identifiers count up by one, and start over where they end.
pub proof fn law_identifiers_count_up(id: u64)
    ensures
        id_after(id) as int == (id as int + 1) % 0x1_0000_0000_0000_0000,
{
}

/// Pressing a key or button that is not held puts it behind everything that is, and
/// pressing it again changes nothing.
pub proof fn law_a_press_is_noted_once(held: Seq<HeldRemoteInput>, keycode: u32, button: MouseButton)
    ensures
        held_after(held, InputEvent::KeyPress(keycode)) == (if held.contains(
            HeldRemoteInput::Key(keycode),
        ) {
            held
        } else {
            held.push(HeldRemoteInput::Key(keycode))
        }),
        held_after(held, InputEvent::ButtonPress(button)) == (if held.contains(
            HeldRemoteInput::Button(button),
        ) {
            held
        } else {
            held.push(HeldRemoteInput::Button(button))
        }),
{
}

/// A release strikes the key or button that it names and nothing else, and keeps
/// the order of what is left; where it is not held nothing changes.
pub proof fn law_a_release_strikes_what_it_names(
    held: Seq<HeldRemoteInput>,
    event: InputEvent,
    at: int,
)
    requires
        held.no_duplicates(),
        0 <= at < held.len(),
    ensures
        match held[at] {
            HeldRemoteInput::Key(keycode) => held_after(held, InputEvent::KeyRelease(keycode))
                == held.take(at) + held.skip(at + 1),
            HeldRemoteInput::Button(button) => held_after(held, InputEvent::ButtonRelease(button))
                == held.take(at) + held.skip(at + 1),
        },
        match event {
            InputEvent::KeyRelease(keycode) => !held.contains(HeldRemoteInput::Key(keycode))
                ==> held_after(held, event) == held,
            InputEvent::ButtonRelease(button) => !held.contains(HeldRemoteInput::Button(button))
                ==> held_after(held, event) == held,
            _ => true,
        },
{
    lemma_without_last(held, held[at], at);
    assert(held.remove(at) =~= held.take(at) + held.skip(at + 1));
    match event {
        InputEvent::KeyRelease(keycode) => {
            if !held.contains(HeldRemoteInput::Key(keycode)) {
                lemma_without_absent(held, HeldRemoteInput::Key(keycode));
            }
        },
        InputEvent::ButtonRelease(button) => {
            if !held.contains(HeldRemoteInput::Button(button)) {
                lemma_without_absent(held, HeldRemoteInput::Button(button));
            }
        },
        _ => {},
    }
}

/// Motions and scrolling neither press nor let go of anything.
pub proof fn law_motions_hold_nothing(held: Seq<HeldRemoteInput>, event: InputEvent)
    requires
        event is PointerMove || event is RelativeMove || event is RawMotion || event is Scroll,
    ensures
        held_after(held, event) == held,
{
}

/// Letting go of everything gives one release for each held key or button, the one
/// that names it, beginning with what was pressed last.
pub proof fn law_releases_name_what_is_held(held: Seq<HeldRemoteInput>, i: int)
    requires
        0 <= i < held.len(),
    ensures
        releases(held).len() == held.len(),
        releases(held)[held.len() - 1 - i] == (match held[i] {
            HeldRemoteInput::Key(keycode) => InputEvent::KeyRelease(keycode),
            HeldRemoteInput::Button(button) => InputEvent::ButtonRelease(button),
        }),
{
}

/// Only the coordinate across an edge decides whether it is touched: on the far
/// sides from 0.995 on, infinity included, on the near sides up to one minus that,
/// with everything negative. What is no number touches nothing.
pub proof fn law_edges_are_touched_within_half_a_percent(x: u64, y: u64, z: u64)
    ensures
        touches(HandoffEdge::Right, x, y) <==> 0x3fef_d70a_3d70_a3d7 <= x
            <= 0x7ff0_0000_0000_0000,
        touches(HandoffEdge::Left, x, y) <==> x <= 0x3f74_7ae1_47ae_1480 || 0x8000_0000_0000_0000
            <= x <= 0xfff0_0000_0000_0000,
        touches(HandoffEdge::Bottom, x, y) == touches(HandoffEdge::Right, y, z),
        touches(HandoffEdge::Top, x, y) == touches(HandoffEdge::Left, y, z),
        !(touches(HandoffEdge::Left, x, y) && touches(HandoffEdge::Right, x, y)),
{
}

/// A direction of input runs exactly where the role asks for it and the platform can
/// do it. The platform grants everything exactly where it could start no more if it
/// could do everything.
pub proof fn law_roles_start_their_directions(
    role: InputRuntimeRole,
    can_capture_input: bool,
    can_inject_input: bool,
)
    ensures
        ({
            let plan = runtime_plan(role, can_capture_input, can_inject_input);
            &&& plan.start_capture_forwarder <==> can_capture_input && (role
                == InputRuntimeRole::Source || role == InputRuntimeRole::Both)
            &&& plan.start_inject_receiver <==> can_inject_input && (role
                == InputRuntimeRole::Target || role == InputRuntimeRole::Both)
            &&& permissions_ready(role, can_capture_input, can_inject_input) <==> plan
                == runtime_plan(role, true, true)
        }),
{
}

} // verus!
