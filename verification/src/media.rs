//! Audio devices and capture sources, as the smoke diagnostics use them.

use vstd::prelude::*;

use crate::text::append;
use crate::text::bool_text;
use crate::text::bool_wording;
use crate::text::decimal;
use crate::text::law_decimals_write_their_number;
use crate::text::same_text;
use crate::text::to_chars;

verus! {

/// What an audio device can do.
#[derive(Clone, Copy, PartialEq, Eq, Structural, Debug)]
pub enum AudioDeviceRole {
    Capture,
    Playback,
    Duplex,
}

/// An enumerated audio device.
#[derive(Debug)]
pub struct AudioDevice {
    pub id: String,
    pub label: String,
    pub role: AudioDeviceRole,
    pub is_default: bool,
}

/// The label of a role.
pub open spec fn role_wording(role: AudioDeviceRole) -> Seq<char> {
    match role {
        AudioDeviceRole::Capture => "capture"@,
        AudioDeviceRole::Playback => "playback"@,
        AudioDeviceRole::Duplex => "duplex"@,
    }
}

/// The label of a role.
pub fn audio_role_label(role: AudioDeviceRole) -> (label: &'static str)
    ensures
        label@ == role_wording(role),
{
    match role {
        AudioDeviceRole::Capture => "capture",
        AudioDeviceRole::Playback => "playback",
        AudioDeviceRole::Duplex => "duplex",
    }
}

/// The line of a device.
pub fn audio_device_label(device: &AudioDevice) -> (label: String)
    ensures
        label@ == device.id@ + " role="@ + role_wording(device.role) + " default="@ + bool_wording(
            device.is_default,
        ) + " label="@ + device.label@,
{
    let mut label = device.id.clone();
    append(&mut label, " role=");
    append(&mut label, audio_role_label(device.role));
    append(&mut label, " default=");
    append(&mut label, bool_text(device.is_default));
    append(&mut label, " label=");
    append(&mut label, &device.label);
    label
}

/// What the audio diagnostics try.
#[derive(Debug, Clone, PartialEq, Eq)]
pub enum AudioSmokeAction {
    SetDefault(String),
    CaptureFrame(String),
    Loopback { source: String, sink: String },
}

/// What a device is needed for.
#[derive(Clone, Copy, PartialEq, Eq, Structural, Debug)]
pub enum AudioUse {
    Capturing,
    Playing,
}

/// Whether a role serves a use.
pub open spec fn serves(role: AudioDeviceRole, needed: AudioUse) -> bool {
    match needed {
        AudioUse::Capturing => role != AudioDeviceRole::Playback,
        AudioUse::Playing => role != AudioDeviceRole::Capture,
    }
}

/// Why an action cannot be tried.
#[derive(Debug)]
pub enum AudioError {
    NotEnumerated { target: String },
    WrongRole { id: String, role: AudioDeviceRole, needed: AudioUse },
}

/// The name of a role, as the failure shows it.
pub open spec fn role_name(role: AudioDeviceRole) -> Seq<char> {
    match role {
        AudioDeviceRole::Capture => "Capture"@,
        AudioDeviceRole::Playback => "Playback"@,
        AudioDeviceRole::Duplex => "Duplex"@,
    }
}

/// The roles that serve a use, as the failure shows them.
pub open spec fn roles_needed(needed: AudioUse) -> Seq<char> {
    match needed {
        AudioUse::Capturing => "[Capture, Duplex]"@,
        AudioUse::Playing => "[Playback, Duplex]"@,
    }
}

impl AudioError {
    /// The wording of the failure.
    pub open spec fn wording(self) -> Seq<char> {
        match self {
            AudioError::NotEnumerated { target } => "audio device `"@ + target@
                + "` was not enumerated"@,
            AudioError::WrongRole { id, role, needed } => "audio device `"@ + id@ + "` has role "@
                + role_name(role) + ", expected one of "@ + roles_needed(needed),
        }
    }

    /// The wording of the failure.
    pub fn message(&self) -> (m: String)
        ensures
            m@ == self.wording(),
    {
        match self {
            AudioError::NotEnumerated { target } => {
                let mut m = "audio device `".to_owned();
                append(&mut m, target);
                append(&mut m, "` was not enumerated");
                m
            },
            AudioError::WrongRole { id, role, needed } => {
                let mut m = "audio device `".to_owned();
                append(&mut m, id);
                append(&mut m, "` has role ");
                let name: &str = match role {
                    AudioDeviceRole::Capture => "Capture",
                    AudioDeviceRole::Playback => "Playback",
                    AudioDeviceRole::Duplex => "Duplex",
                };
                append(&mut m, name);
                append(&mut m, ", expected one of ");
                let roles: &str = match needed {
                    AudioUse::Capturing => "[Capture, Duplex]",
                    AudioUse::Playing => "[Playback, Duplex]",
                };
                append(&mut m, roles);
                m
            },
        }
    }
}

/// The first device with an identifier.
pub open spec fn first_device(devices: Seq<AudioDevice>, target: Seq<char>, i: int) -> Option<int>
    decreases devices.len() - i,
{
    if i >= devices.len() {
        None
    } else if devices[i].id@ == target {
        Some(i)
    } else {
        first_device(devices, target, i + 1)
    }
}

/// Finds a device by its identifier.
pub fn find_audio_device(devices: &Vec<AudioDevice>, target: &str) -> (r: Result<usize, AudioError>)
    ensures
        match r {
            Ok(k) => first_device(devices@, target@, 0) == Some(k as int) && k < devices@.len()
                && devices@[k as int].id@ == target@,
            Err(e) => first_device(devices@, target@, 0) is None && e.wording()
                == "audio device `"@ + target@ + "` was not enumerated"@,
        },
{
    let mut i: usize = 0;
    while i < devices.len()
        invariant
            i <= devices.len(),
            first_device(devices@, target@, 0) == first_device(devices@, target@, i as int),
        decreases devices.len() - i,
    {
        if same_text(&devices[i].id, target) {
            return Ok(i);
        }
        i += 1;
    }
    Err(AudioError::NotEnumerated { target: target.to_owned() })
}

/// Checks that a device serves a use.
pub fn ensure_audio_role(device: &AudioDevice, needed: AudioUse) -> (r: Result<(), AudioError>)
    ensures
        match r {
            Ok(_) => serves(device.role, needed),
            Err(e) => !serves(device.role, needed) && e.wording() == "audio device `"@ + device.id@
                + "` has role "@ + role_name(device.role) + ", expected one of "@ + roles_needed(
                needed,
            ),
        },
{
    let ok: bool = match needed {
        AudioUse::Capturing => device.role != AudioDeviceRole::Playback,
        AudioUse::Playing => device.role != AudioDeviceRole::Capture,
    };
    if ok {
        Ok(())
    } else {
        Err(AudioError::WrongRole { id: device.id.clone(), role: device.role, needed })
    }
}

/// The complaint about using a device, if there is one.
pub open spec fn use_complaint(
    devices: Seq<AudioDevice>,
    target: Seq<char>,
    needed: AudioUse,
) -> Option<Seq<char>> {
    match first_device(devices, target, 0) {
        None => Some("audio device `"@ + target + "` was not enumerated"@),
        Some(i) => if serves(devices[i].role, needed) {
            None
        } else {
            Some(
                "audio device `"@ + target + "` has role "@ + role_name(devices[i].role)
                    + ", expected one of "@ + roles_needed(needed),
            )
        },
    }
}

/// The complaint about an action: a loopback looks at its source first.
pub open spec fn action_complaint(
    devices: Seq<AudioDevice>,
    action: Option<AudioSmokeAction>,
) -> Option<Seq<char>> {
    match action {
        None => None,
        Some(AudioSmokeAction::SetDefault(target)) => use_complaint(
            devices,
            target@,
            AudioUse::Playing,
        ),
        Some(AudioSmokeAction::CaptureFrame(target)) => use_complaint(
            devices,
            target@,
            AudioUse::Capturing,
        ),
        Some(AudioSmokeAction::Loopback { source, sink }) => match use_complaint(
            devices,
            source@,
            AudioUse::Capturing,
        ) {
            Some(m) => Some(m),
            None => use_complaint(devices, sink@, AudioUse::Playing),
        },
    }
}

fn check_use(devices: &Vec<AudioDevice>, target: &str, needed: AudioUse) -> (r: Result<
    (),
    AudioError,
>)
    ensures
        match r {
            Ok(_) => use_complaint(devices@, target@, needed) is None,
            Err(e) => use_complaint(devices@, target@, needed) == Some(e.wording()),
        },
{
    match find_audio_device(devices, target) {
        Ok(k) => ensure_audio_role(&devices[k], needed),
        Err(e) => Err(e),
    }
}

/// Checks that an action can be tried with the enumerated devices.
pub fn check_audio_action(devices: &Vec<AudioDevice>, action: &Option<AudioSmokeAction>) -> (r:
    Result<(), AudioError>)
    ensures
        match r {
            Ok(_) => action_complaint(devices@, *action) is None,
            Err(e) => action_complaint(devices@, *action) == Some(e.wording()),
        },
{
    match action {
        None => Ok(()),
        Some(AudioSmokeAction::SetDefault(target)) => check_use(devices, target, AudioUse::Playing),
        Some(AudioSmokeAction::CaptureFrame(target)) => check_use(
            devices,
            target,
            AudioUse::Capturing,
        ),
        Some(AudioSmokeAction::Loopback { source, sink }) => {
            match check_use(devices, source, AudioUse::Capturing) {
                Ok(_) => check_use(devices, sink, AudioUse::Playing),
                Err(e) => Err(e),
            }
        },
    }
}

/// Something whose picture can be captured, with its identifier.
#[derive(Debug)]
pub enum CaptureSource {
    Display { id: String, label: String },
    Window { id: String, title: String },
    Application { id: String, name: String },
}

impl CaptureSource {
    /// The source's identifier.
    pub open spec fn identifier(self) -> Seq<char> {
        match self {
            CaptureSource::Display { id, .. } => id@,
            CaptureSource::Window { id, .. } => id@,
            CaptureSource::Application { id, .. } => id@,
        }
    }
}

/// What a source is called.
pub fn source_label(source: &CaptureSource) -> (label: String)
    ensures
        label@ == (match *source {
            CaptureSource::Display { label, .. } => label@,
            CaptureSource::Window { title, .. } => title@,
            CaptureSource::Application { name, .. } => name@,
        }),
{
    match source {
        CaptureSource::Display { label, .. } => label.clone(),
        CaptureSource::Window { title, .. } => title.clone(),
        CaptureSource::Application { name, .. } => name.clone(),
    }
}

/// The number that a decimal text writes: digits, at most one plus before them,
/// and no more than fits.
pub open spec fn number_u32(s: Seq<char>) -> Option<u32> {
    let digits = if s.len() > 1 && s[0] == '+' {
        s.drop_first()
    } else {
        s
    };
    if digits.len() == 0 || !all_decimal(digits) || decimal_value(digits) > u32::MAX {
        None
    } else {
        Some(decimal_value(digits) as u32)
    }
}

/// Whether a text has decimal digits only.
pub open spec fn all_decimal(s: Seq<char>) -> bool {
    forall|i: int| 0 <= i < s.len() ==> '0' <= #[trigger] s[i] <= '9'
}

/// The value of decimal digits.
pub open spec fn decimal_value(s: Seq<char>) -> nat
    decreases s.len(),
{
    if s.len() == 0 {
        0
    } else {
        decimal_value(s.drop_last()) * 10 + (s.last() as int - '0' as int) as nat
    }
}

proof fn lemma_decimal_grows(s: Seq<char>, k: int)
    requires
        all_decimal(s),
        0 <= k <= s.len(),
    ensures
        decimal_value(s.take(k)) <= decimal_value(s),
    decreases s.len(),
{
    if k < s.len() {
        assert(s.take(k) =~= s.drop_last().take(k));
        assert(all_decimal(s.drop_last())) by {
            assert forall|i: int| 0 <= i < s.drop_last().len() implies '0' <= #[trigger] s.drop_last()[i]
                <= '9' by {
                assert(s.drop_last()[i] == s[i]);
            }
        }
        lemma_decimal_grows(s.drop_last(), k);
        assert(s.last() == s[s.len() - 1]);
    } else {
        assert(s.take(k) =~= s);
    }
}

/// Reads a decimal number from a part of some characters.
fn read_u32(v: &Vec<char>, from: usize, to: usize) -> (r: Option<u32>)
    requires
        from <= to <= v@.len(),
    ensures
        r == number_u32(v@.subrange(from as int, to as int)),
{
    let ghost s = v@.subrange(from as int, to as int);
    let start: usize = if to - from > 1 && v[from] == '+' {
        from + 1
    } else {
        from
    };
    let ghost digits = if s.len() > 1 && s[0] == '+' {
        s.drop_first()
    } else {
        s
    };
    assert(digits =~= v@.subrange(start as int, to as int));
    if start == to {
        return None;
    }
    let mut value: u64 = 0;
    let mut i: usize = start;
    while i < to
        invariant
            start <= i <= to <= v@.len(),
            digits == v@.subrange(start as int, to as int),
            s == v@.subrange(from as int, to as int),
            number_u32(s) == (if digits.len() == 0 || !all_decimal(digits) || decimal_value(digits)
                > u32::MAX {
                None
            } else {
                Some(decimal_value(digits) as u32)
            }),
            all_decimal(digits.take(i - start)),
            value == decimal_value(digits.take(i - start)),
            value <= u32::MAX,
        decreases to - i,
    {
        let c: char = v[i];
        let ghost now = digits.take(i - start + 1);
        assert(digits[i - start] == c);
        if !('0' <= c && c <= '9') {
            assert(!all_decimal(digits));
            return None;
        }
        value = value * 10 + (c as u32 - '0' as u32) as u64;
        proof {
            assert(now.drop_last() =~= digits.take(i - start));
            assert(now.last() == c);
            assert forall|k: int| 0 <= k < now.len() implies '0' <= #[trigger] now[k] <= '9' by {
                if k < i - start {
                    assert(now[k] == digits.take(i - start)[k]);
                }
            }
            assert(value == decimal_value(now));
            if value > u32::MAX && all_decimal(digits) {
                lemma_decimal_grows(digits, i - start + 1);
            }
        }
        if value > u32::MAX as u64 {
            return None;
        }
        i += 1;
    }
    assert(digits.take(to - start) =~= digits);
    Some(value as u32)
}

/// Where the last occurrence of a character is.
pub open spec fn last_of(s: Seq<char>, c: char) -> Option<int>
    decreases s.len(),
{
    if s.len() == 0 {
        None
    } else if s.last() == c {
        Some(s.len() - 1)
    } else {
        last_of(s.drop_last(), c)
    }
}

/// Where the first occurrence of a character from a position on is.
pub open spec fn first_of(s: Seq<char>, c: char, i: int) -> Option<int>
    decreases s.len() - i,
{
    if i >= s.len() {
        None
    } else if s[i] == c {
        Some(i)
    } else {
        first_of(s, c, i + 1)
    }
}

/// The size that an identifier writes behind its last `@`, such as `@1920x1080`.
pub open spec fn size_in(id: Seq<char>) -> Option<(u32, u32)> {
    match last_of(id, '@') {
        None => None,
        Some(at) => match first_of(id, 'x', at + 1) {
            None => None,
            Some(x) => match (
                number_u32(id.subrange(at + 1, x)),
                number_u32(id.subrange(x + 1, id.len() as int)),
            ) {
                (Some(width), Some(height)) => Some((width, height)),
                _ => None,
            },
        },
    }
}

/// The size of a source's picture, where its identifier tells it.
pub fn source_resolution(source: &CaptureSource) -> (size: Option<(u32, u32)>)
    ensures
        size == size_in(source.identifier()),
{
    let v: Vec<char> = match source {
        CaptureSource::Display { id, .. } => to_chars(id),
        CaptureSource::Window { id, .. } => to_chars(id),
        CaptureSource::Application { id, .. } => to_chars(id),
    };
    let ghost id = source.identifier();
    let mut at: usize = v.len();
    assert(id.take(at as int) =~= id);
    while at > 0 && v[at - 1] != '@'
        invariant
            at <= v@.len(),
            v@ == id,
            last_of(id, '@') == last_of(id.take(at as int), '@'),
        decreases at,
    {
        assert(id.take(at as int).drop_last() =~= id.take(at - 1));
        at -= 1;
    }
    if at == 0 {
        return None;
    }
    assert(last_of(id, '@') == Some(at - 1));
    let mut x: usize = at;
    while x < v.len() && v[x] != 'x'
        invariant
            at <= x <= v@.len(),
            v@ == id,
            first_of(id, 'x', at as int) == first_of(id, 'x', x as int),
        decreases v.len() - x,
    {
        x += 1;
    }
    if x == v.len() {
        return None;
    }
    assert(first_of(id, 'x', at as int) == Some(x as int));
    match (read_u32(&v, at, x), read_u32(&v, x + 1, v.len())) {
        (Some(width), Some(height)) => Some((width, height)),
        _ => None,
    }
}

/// The size that a frame of a source is asked in.
pub fn frame_size(source: &CaptureSource) -> (size: (u32, u32))
    ensures
        size == (match size_in(source.identifier()) {
            Some(named) => named,
            None => (1920u32, 1080u32),
        }),
{
    match source_resolution(source) {
        Some(named) => named,
        None => (1920, 1080),
    }
}

/// The last pixel of a stretch, as an offset from its first.
pub open spec fn last_offset(len: u32) -> int {
    if len == 0 {
        0
    } else if len - 1 > i32::MAX {
        i32::MAX as int
    } else {
        len - 1
    }
}

/// The last pixel of a stretch, as an offset from its first.
fn last_pixel(len: u32) -> (offset: i32)
    ensures
        offset == last_offset(len),
{
    if len == 0 {
        0
    } else if len - 1 > 0x7fff_ffff {
        i32::MAX
    } else {
        (len - 1) as i32
    }
}

/// The pointer barrier on the right edge of a zone: the column that it stands in,
/// and the rows that it runs from and to.
pub fn right_edge_barrier(x: i32, y: i32, width: u32, height: u32) -> (barrier: (i32, i32, i32))
    requires
        x + last_offset(width) <= i32::MAX,
        y + last_offset(height) <= i32::MAX,
    ensures
        barrier.0 == x + last_offset(width),
        barrier.1 == y,
        barrier.2 == y + last_offset(height),
{
    (x + last_pixel(width), y, y + last_pixel(height))
}

/// A device is found by its identifier wherever it stands, the first one where several
/// have it; none is found where none has it.
pub proof fn law_devices_are_found_by_their_identifier(
    devices: Seq<AudioDevice>,
    target: Seq<char>,
    k: int,
)
    requires
        0 <= k < devices.len(),
    ensures
        devices[k].id@ == target && (forall|j: int| 0 <= j < k ==> (#[trigger] devices[j]).id@ != target)
            ==> first_device(devices, target, 0) == Some(k),
        (forall|j: int| 0 <= j < devices.len() ==> (#[trigger] devices[j]).id@ != target)
            ==> first_device(devices, target, 0) is None,
{
    lemma_first_device(devices, target, 0);
}

proof fn lemma_first_device(devices: Seq<AudioDevice>, target: Seq<char>, i: int)
    requires
        0 <= i <= devices.len(),
    ensures
        match first_device(devices, target, i) {
            Some(k) => i <= k < devices.len() && devices[k].id@ == target && forall|j: int|
                i <= j < k ==> (#[trigger] devices[j]).id@ != target,
            None => forall|j: int| i <= j < devices.len() ==> (#[trigger] devices[j]).id@ != target,
        },
    decreases devices.len() - i,
{
    if i < devices.len() && devices[i].id@ != target {
        lemma_first_device(devices, target, i + 1);
    }
}

/// A frame can be captured from a device that captures, a default can be set to one
/// that plays, and a loop needs one of each; a device for both serves either way.
/// Nothing else is complained of.
pub proof fn law_devices_serve_their_role(devices: Seq<AudioDevice>, from: int, to: int)
    requires
        0 <= from < devices.len(),
        0 <= to < devices.len(),
        forall|i: int, j: int|
            0 <= i < j < devices.len() ==> (#[trigger] devices[i]).id@ != (#[trigger] devices[j]).id@,
    ensures
        action_complaint(devices, None) is None,
        action_complaint(devices, Some(AudioSmokeAction::CaptureFrame(devices[from].id))) is None
            <==> devices[from].role == AudioDeviceRole::Capture || devices[from].role
            == AudioDeviceRole::Duplex,
        action_complaint(devices, Some(AudioSmokeAction::SetDefault(devices[to].id))) is None
            <==> devices[to].role == AudioDeviceRole::Playback || devices[to].role
            == AudioDeviceRole::Duplex,
        action_complaint(
            devices,
            Some(AudioSmokeAction::Loopback { source: devices[from].id, sink: devices[to].id }),
        ) is None <==> (devices[from].role == AudioDeviceRole::Capture || devices[from].role
            == AudioDeviceRole::Duplex) && (devices[to].role == AudioDeviceRole::Playback
            || devices[to].role == AudioDeviceRole::Duplex),
{
    law_devices_are_found_by_their_identifier(devices, devices[from].id@, from);
    law_devices_are_found_by_their_identifier(devices, devices[to].id@, to);
}

/// A device that is not there cannot be used for anything.
pub proof fn law_unknown_devices_serve_nothing(devices: Seq<AudioDevice>, name: String, other: String)
    requires
        forall|i: int| 0 <= i < devices.len() ==> (#[trigger] devices[i]).id@ != name@,
    ensures
        action_complaint(devices, Some(AudioSmokeAction::CaptureFrame(name))) is Some,
        action_complaint(devices, Some(AudioSmokeAction::SetDefault(name))) is Some,
        action_complaint(devices, Some(AudioSmokeAction::Loopback { source: name, sink: other }))
            is Some,
        action_complaint(devices, Some(AudioSmokeAction::Loopback { source: other, sink: name }))
            is Some,
{
    lemma_first_device(devices, name@, 0);
}

proof fn lemma_values_agree(s: Seq<char>)
    requires
        all_decimal(s),
    ensures
        decimal_value(s) == crate::text::decimal_value(s),
    decreases s.len(),
{
    if s.len() > 0 {
        assert forall|i: int| 0 <= i < s.len() - 1 implies '0' <= #[trigger] s.drop_last()[i] <= '9' by {
            assert(s[i] == s.drop_last()[i]);
        }
        assert('0' <= s[s.len() - 1] <= '9');
        lemma_values_agree(s.drop_last());
    }
}

proof fn lemma_reads_decimal(n: u32)
    ensures
        number_u32(decimal(n as nat)) == Some(n),
{
    law_decimals_write_their_number(n as nat);
    let d = decimal(n as nat);
    assert('0' <= d[0] <= '9');
    lemma_values_agree(d);
}

proof fn lemma_last_of(s: Seq<char>, c: char, k: int)
    requires
        0 <= k < s.len(),
        s[k] == c,
        forall|i: int| k < i < s.len() ==> s[i] != c,
    ensures
        last_of(s, c) == Some(k),
    decreases s.len(),
{
    if k < s.len() - 1 {
        lemma_last_of(s.drop_last(), c, k);
    }
}

proof fn lemma_first_of(s: Seq<char>, c: char, i: int, k: int)
    requires
        0 <= i <= k < s.len(),
        s[k] == c,
        forall|j: int| i <= j < k ==> s[j] != c,
    ensures
        first_of(s, c, i) == Some(k),
    decreases k - i,
{
    if i < k {
        lemma_first_of(s, c, i + 1, k);
    }
}

/// A source whose identifier ends in a width and a height has that size, whatever
/// comes before.
pub proof fn law_sizes_are_read_from_identifiers(head: Seq<char>, width: u32, height: u32)
    ensures
        size_in(head + seq!['@'] + decimal(width as nat) + seq!['x'] + decimal(height as nat))
            == Some((width, height)),
{
    let w = decimal(width as nat);
    let h = decimal(height as nat);
    let id = head + seq!['@'] + w + seq!['x'] + h;
    let at = head.len() as int;
    let x = at + 1 + w.len();
    law_decimals_write_their_number(width as nat);
    law_decimals_write_their_number(height as nat);
    assert(id.subrange(at + 1, x) =~= w);
    assert(id.subrange(x + 1, id.len() as int) =~= h);
    assert forall|i: int| at < i < id.len() implies id[i] != '@' && (i < x ==> id[i] != 'x') by {
        if i < x {
            assert(id[i] == w[i - at - 1]);
        } else if i > x {
            assert(id[i] == h[i - x - 1]);
        }
    }
    lemma_last_of(id, '@', at);
    lemma_first_of(id, 'x', at + 1, x);
    lemma_reads_decimal(width);
    lemma_reads_decimal(height);
}

/// An identifier without the sign before a size tells of none.
pub proof fn law_other_identifiers_tell_no_size(id: Seq<char>)
    requires
        !id.contains('@') || !id.contains('x'),
    ensures
        size_in(id) is None,
{
    lemma_last_is_one(id, '@');
    match last_of(id, '@') {
        Some(at) => {
            assert(id.contains('@'));
            lemma_not_first(id, 'x', at + 1);
        },
        None => {},
    }
}

proof fn lemma_last_is_one(s: Seq<char>, c: char)
    ensures
        last_of(s, c) matches Some(k) ==> 0 <= k < s.len() && s[k] == c,
    decreases s.len(),
{
    if s.len() > 0 {
        lemma_last_is_one(s.drop_last(), c);
    }
}

proof fn lemma_not_first(s: Seq<char>, c: char, i: int)
    requires
        !s.contains(c),
    ensures
        i >= 0 ==> first_of(s, c, i) is None,
    decreases s.len() - i,
{
    if 0 <= i < s.len() {
        assert(s[i] != c);
        lemma_not_first(s, c, i + 1);
    }
}

/// The last pixel of a side lies one before its length, as far as a coordinate
/// reaches; a side without length has its first pixel for the last.
pub proof fn law_the_last_pixel_lies_within(len: u32)
    ensures
        0 < len <= 0x8000_0000 ==> last_offset(len) == len - 1,
        len > 0x8000_0000 ==> last_offset(len) == i32::MAX,
        last_offset(0) == 0,
{
}

} // verus!
