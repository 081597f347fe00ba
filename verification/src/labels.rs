//! How the control panel words what it shows.

use vstd::prelude::*;

use crate::input::HandoffEdge;
use crate::input::InputRuntimeRole;
use crate::text::append;
use crate::text::concat;
use crate::text::decimal;
use crate::text::decimal_text;
use crate::text::digit_char;
use crate::text::from_chars;
use crate::text::hex_digit;
use crate::text::to_chars;

verus! {

/// The label of a role.
pub fn role_label(role: InputRuntimeRole) -> (label: &'static str)
    ensures
        label@ == (match role {
            InputRuntimeRole::Disabled => "Disabled"@,
            InputRuntimeRole::Source => "Source"@,
            InputRuntimeRole::Target => "Target"@,
            InputRuntimeRole::Both => "Source + Target"@,
        }),
{
    match role {
        InputRuntimeRole::Disabled => "Disabled",
        InputRuntimeRole::Source => "Source",
        InputRuntimeRole::Target => "Target",
        InputRuntimeRole::Both => "Source + Target",
    }
}

/// The label of an edge.
pub fn edge_label(edge: HandoffEdge) -> (label: &'static str)
    ensures
        label@ == (match edge {
            HandoffEdge::Left => "Left edge"@,
            HandoffEdge::Right => "Right edge"@,
            HandoffEdge::Top => "Top edge"@,
            HandoffEdge::Bottom => "Bottom edge"@,
        }),
{
    match edge {
        HandoffEdge::Left => "Left edge",
        HandoffEdge::Right => "Right edge",
        HandoffEdge::Top => "Top edge",
        HandoffEdge::Bottom => "Bottom edge",
    }
}

/// The label of the selected peer.
pub fn active_peer_label(active_peer: &Option<String>) -> (label: String)
    ensures
        label@ == (match *active_peer {
            Some(peer) => peer@,
            None => "Auto"@,
        }),
{
    match active_peer {
        Some(peer) => peer.clone(),
        None => "Auto".to_owned(),
    }
}

/// The label of the address to dial.
pub fn connect_addr_label(connect_addr: &Option<String>) -> (label: String)
    ensures
        label@ == (match *connect_addr {
            Some(addr) => addr@,
            None => "Discovery"@,
        }),
{
    match connect_addr {
        Some(addr) => addr.clone(),
        None => "Discovery".to_owned(),
    }
}

/// The label of the emergency key.
pub fn emergency_label(keycode: u32) -> (label: String)
    ensures
        label@ == (if keycode == 41 {
            "Esc"@
        } else {
            "HID "@ + decimal(keycode as nat)
        }),
{
    if keycode == 41 {
        "Esc".to_owned()
    } else {
        concat("HID ", &decimal_text(keycode as u64))
    }
}

/// A text that fits: whole, or cut with dots behind it.
pub open spec fn fitted(text: Seq<char>, max_chars: int) -> Seq<char> {
    if text.len() <= max_chars {
        text
    } else {
        text.take(
            if max_chars >= 3 {
                max_chars - 3
            } else {
                0
            },
        ) + "..."@
    }
}

/// Cuts a text so that it fits.
pub fn truncate_chars(text: &str, max_chars: usize) -> (cut: String)
    ensures
        cut@ == fitted(text@, max_chars as int),
{
    let mut v: Vec<char> = to_chars(text);
    if v.len() <= max_chars {
        return text.to_owned();
    }
    let keep: usize = if max_chars >= 3 {
        max_chars - 3
    } else {
        0
    };
    v.truncate(keep);
    assert(v@ =~= text@.take(keep as int));
    let mut cut = from_chars(&v);
    append(&mut cut, "...");
    cut
}

/// A quotient, rounded to the nearest whole number and to the even one of two
/// that are equally near.
pub open spec fn rounded(n: nat, d: nat) -> nat {
    let q = n / d;
    let r = n % d;
    if 2 * r > d || (2 * r == d && q % 2 == 1) {
        q + 1
    } else {
        q
    }
}

fn rounded_quotient(n: u128, d: u128) -> (q: u128)
    requires
        0 < d <= 0x1_0000_0000_0000_0000,
        n <= 0x100_0000_0000_0000_0000,
    ensures
        q == rounded(n as nat, d as nat),
{
    let q: u128 = n / d;
    let r: u128 = n % d;
    assert(q <= n) by (nonlinear_arith)
        requires
            q == n / d,
            d > 0,
    ;
    if 2 * r > d || (2 * r == d && q % 2 == 1) {
        q + 1
    } else {
        q
    }
}

/// The step between the doubles next to a whole number.
pub open spec fn double_step(n: nat) -> nat
    decreases n,
{
    if n < 0x20_0000_0000_0000 {
        1
    } else {
        2 * double_step(n / 2)
    }
}

/// The double nearest to a whole number.
pub open spec fn nearest_double(n: nat) -> nat {
    rounded(n, double_step(n)) * double_step(n)
}

proof fn lemma_step(n: nat)
    requires
        n <= u64::MAX,
    ensures
        1 <= double_step(n) <= 2048,
    decreases n,
{
    reveal_with_fuel(double_step, 13);
}

fn find_step(n: u64) -> (step: u64)
    ensures
        step == double_step(n as nat),
        1 <= step <= 2048,
    decreases n,
{
    proof {
        lemma_step(n as nat);
    }
    if n < 0x20_0000_0000_0000 {
        1
    } else {
        2 * find_step(n / 2)
    }
}

/// A number of bytes in a unit, with one decimal.
pub open spec fn in_unit(bytes: nat, unit: nat) -> Seq<char> {
    let tenths = rounded(nearest_double(bytes) * 10, unit);
    decimal(tenths / 10).push('.').push(hex_digit((tenths % 10) as int))
}

fn unit_text(bytes: u64, unit: u64) -> (t: String)
    requires
        1024 <= unit <= 0x4000_0000,
    ensures
        t@ == in_unit(bytes as nat, unit as nat),
{
    let step: u64 = find_step(bytes);
    let q: u128 = rounded_quotient(bytes as u128, step as u128);
    assert(bytes as nat / step as nat * step as nat <= bytes) by (nonlinear_arith)
        requires
            step >= 1,
    ;
    assert(q * step <= 0xffff_ffff_ffff_ffff + 2048) by (nonlinear_arith)
        requires
            bytes as nat / step as nat * step as nat <= bytes,
            q <= bytes as nat / step as nat + 1,
            1 <= step <= 2048,
            bytes <= 0xffff_ffff_ffff_ffff,
    ;
    let near: u128 = q * step as u128;
    assert(near == nearest_double(bytes as nat));
    let tenths: u128 = rounded_quotient(near * 10, unit as u128);
    assert(tenths <= 0xffff_ffff_ffff_ffff) by (nonlinear_arith)
        requires
            tenths <= (near * 10) as nat / unit as nat + 1,
            unit >= 1024,
            near * 10 <= 0xa_0000_0000_0000_5000,
    ;
    let mut t = decimal_text((tenths / 10) as u64);
    t.push('.');
    t.push(digit_char((tenths % 10) as u64));
    t
}

/// A size for people: whole bytes, or one decimal of the largest unit that it
/// reaches.
pub open spec fn human(bytes: u64) -> Seq<char> {
    if bytes >= 0x4000_0000 {
        in_unit(bytes as nat, 0x4000_0000) + " GiB"@
    } else if bytes >= 0x10_0000 {
        in_unit(bytes as nat, 0x10_0000) + " MiB"@
    } else if bytes >= 1024 {
        in_unit(bytes as nat, 1024) + " KiB"@
    } else {
        decimal(bytes as nat) + " B"@
    }
}

/// Words a size for people.
pub fn human_bytes(bytes: u64) -> (t: String)
    ensures
        t@ == human(bytes),
{
    if bytes >= 0x4000_0000 {
        concat(&unit_text(bytes, 0x4000_0000), " GiB")
    } else if bytes >= 0x10_0000 {
        concat(&unit_text(bytes, 0x10_0000), " MiB")
    } else if bytes >= 1024 {
        concat(&unit_text(bytes, 1024), " KiB")
    } else {
        concat(&decimal_text(bytes), " B")
    }
}

/// A text that fits is shown as it is; of a longer one the beginning is shown and three
/// dots, together as many characters as allowed where that is three at least.
pub proof fn law_long_texts_end_in_dots(text: Seq<char>, max_chars: nat)
    ensures
        text.len() <= max_chars ==> fitted(text, max_chars as int) == text,
        text.len() > max_chars ==> {
            let shown = fitted(text, max_chars as int);
            let kept = if max_chars >= 3 {
                max_chars - 3
            } else {
                0
            };
            &&& shown.len() == kept + 3
            &&& forall|i: int| 0 <= i < kept ==> #[trigger] shown[i] == text[i]
            &&& forall|i: int| kept <= i < kept + 3 ==> #[trigger] shown[i] == '.'
        },
{
    reveal_strlit("...");
}

/// A quotient is rounded to the nearest whole number, and to the even one of two that
/// are as near.
pub proof fn law_quotients_are_rounded_to_the_nearest(n: nat, d: nat)
    requires
        d > 0,
    ensures
        2 * (rounded(n, d) * d - n) <= d,
        2 * (n - rounded(n, d) * d) <= d,
        2 * (rounded(n, d) * d - n) == d || 2 * (n - rounded(n, d) * d) == d ==> rounded(n, d) % 2
            == 0,
{
    let q = n / d;
    let r = n % d;
    vstd::arithmetic::div_mod::lemma_fundamental_div_mod(n as int, d as int);
    assert(d * q == q * d) by (nonlinear_arith);
    assert((q + 1) * d == q * d + d) by (nonlinear_arith);
    assert(0 <= r < d) by (nonlinear_arith)
        requires
            r == n % d,
            d > 0,
    ;
}

/// Numbers of up to fifty-three bits are kept whole, and a longer one is kept to its
/// first fifty-three bits.
pub proof fn law_short_numbers_are_kept_whole(n: nat)
    ensures
        n < 0x20_0000_0000_0000 ==> nearest_double(n) == n,
        n >= 0x20_0000_0000_0000 ==> double_step(n) == 2 * double_step(n / 2),
        double_step(n) > 0,
        n >= 0x20_0000_0000_0000 ==> 0x10_0000_0000_0000 <= n / double_step(n)
            < 0x20_0000_0000_0000,
    decreases n,
{
    if n < 0x20_0000_0000_0000 {
        let step = double_step(n);
        let whole = rounded(n, step);
        assert(whole == n);
        assert(whole * step == whole) by (nonlinear_arith)
            requires
                step == 1,
        ;
    } else {
        let half = n / 2;
        law_short_numbers_are_kept_whole(half);
        let step = double_step(half);
        vstd::arithmetic::div_mod::lemma_div_denominator(n as int, 2, step as int);
        assert(n / (2 * step) == half / step);
        if half < 0x20_0000_0000_0000 {
            assert(half / 1 == half);
        }
    }
}

/// A size of up to fifty-three bits is shown in the largest unit of which it has one at
/// least, as the nearest number of tenths.
pub proof fn law_sizes_are_shown_in_their_unit(bytes: u64)
    ensures
        bytes < 1_024 ==> human(bytes) == decimal(bytes as nat) + " B"@,
        1_024 <= bytes < 1_048_576 ==> human(bytes) == shown_tenths(
            rounded(bytes as nat * 10, 1_024),
        ) + " KiB"@,
        1_048_576 <= bytes < 1_073_741_824 ==> human(bytes) == shown_tenths(
            rounded(bytes as nat * 10, 1_048_576),
        ) + " MiB"@,
        1_073_741_824 <= bytes < 0x20_0000_0000_0000 ==> human(bytes) == shown_tenths(
            rounded(bytes as nat * 10, 1_073_741_824),
        ) + " GiB"@,
        1_073_741_824 <= bytes ==> human(bytes) == shown_tenths(
            rounded(nearest_double(bytes as nat) * 10, 1_073_741_824),
        ) + " GiB"@,
{
    law_short_numbers_are_kept_whole(bytes as nat);
}

/// A number of tenths, with a dot before the last digit.
pub open spec fn shown_tenths(tenths: nat) -> Seq<char> {
    decimal(tenths / 10) + seq!['.'] + decimal(tenths % 10)
}

} // verus!
