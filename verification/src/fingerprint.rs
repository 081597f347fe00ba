//! Clipboard fingerprints: up to sixteen hexadecimal digits.

use vstd::prelude::*;

use crate::text::hex_digit;
use crate::text::hex_padded;
use crate::text::hex_text;
use crate::text::to_chars;
use crate::text::trim;
use crate::text::trimmed;
use crate::text::white_space;

verus! {

/// The value of a hexadecimal digit.
pub open spec fn digit_value(c: char) -> Option<int> {
    if '0' <= c <= '9' {
        Some(c as int - '0' as int)
    } else if 'a' <= c <= 'f' {
        Some(c as int - 'a' as int + 10)
    } else if 'A' <= c <= 'F' {
        Some(c as int - 'A' as int + 10)
    } else {
        None
    }
}

/// A text without a hexadecimal prefix.
pub open spec fn without_prefix(s: Seq<char>) -> Seq<char> {
    if s.len() >= 2 && s[0] == '0' && (s[1] == 'x' || s[1] == 'X') {
        s.skip(2)
    } else {
        s
    }
}

/// The digits of a fingerprint: no white space around it, no prefix before it.
pub open spec fn digits_of(s: Seq<char>) -> Seq<char> {
    without_prefix(trimmed(s))
}

/// Whether these are one to sixteen hexadecimal digits.
pub open spec fn hex_digits(s: Seq<char>) -> bool {
    1 <= s.len() <= 16 && forall|i: int| 0 <= i < s.len() ==> digit_value(#[trigger] s[i]) is Some
}

/// The number that digits write.
pub open spec fn number_of(s: Seq<char>) -> nat
    decreases s.len(),
{
    if s.len() == 0 {
        0
    } else {
        match digit_value(s.last()) {
            Some(d) => number_of(s.drop_last()) * 16 + d as nat,
            None => 0,
        }
    }
}

/// The fingerprint that a text writes.
pub open spec fn hex_value(s: Seq<char>) -> Option<u64> {
    if hex_digits(digits_of(s)) {
        Some(number_of(digits_of(s)) as u64)
    } else {
        None
    }
}

/// Sixteen to a power.
pub open spec fn sixteen_to(n: nat) -> nat
    decreases n,
{
    if n == 0 {
        1
    } else {
        16 * sixteen_to((n - 1) as nat)
    }
}

proof fn lemma_number_bound(s: Seq<char>)
    requires
        forall|i: int| 0 <= i < s.len() ==> digit_value(#[trigger] s[i]) is Some,
    ensures
        number_of(s) < sixteen_to(s.len()),
    decreases s.len(),
{
    if s.len() > 0 {
        let rest = s.drop_last();
        assert forall|i: int| 0 <= i < rest.len() implies digit_value(#[trigger] rest[i]) is Some by {
            assert(rest[i] == s[i]);
        }
        lemma_number_bound(rest);
        assert(s[s.len() - 1] == s.last());
        assert(digit_value(s.last()) is Some);
    }
}

proof fn lemma_sixteen_digits()
    ensures
        sixteen_to(16) == 0x1_0000_0000_0000_0000,
{
    reveal_with_fuel(sixteen_to, 17);
}

proof fn lemma_sixteen_grows(a: nat, b: nat)
    requires
        a <= b,
    ensures
        sixteen_to(a) <= sixteen_to(b),
    decreases b,
{
    if a < b {
        lemma_sixteen_grows(a, (b - 1) as nat);
        assert(sixteen_to(b) == 16 * sixteen_to((b - 1) as nat));
    }
}

/// Reads a fingerprint.
pub fn parse_fingerprint(s: &str) -> (r: Option<u64>)
    ensures
        r == hex_value(s@),
{
    let text = trim(s);
    let v: Vec<char> = to_chars(&text);
    let n: usize = v.len();
    let start: usize = if n >= 2 && v[0] == '0' && (v[1] == 'x' || v[1] == 'X') {
        2
    } else {
        0
    };
    let ghost digits = digits_of(s@);
    assert(digits =~= v@.skip(start as int));
    if n - start == 0 || n - start > 16 {
        return None;
    }
    let mut value: u64 = 0;
    let mut i: usize = start;
    proof {
        lemma_sixteen_digits();
    }
    while i < n
        invariant
            n == v@.len(),
            start <= i <= n,
            1 <= n - start <= 16,
            digits == digits_of(s@),
            digits == v@.skip(start as int),
            forall|k: int| 0 <= k < i - start ==> digit_value(#[trigger] digits[k]) is Some,
            value == number_of(digits.take(i - start)),
            sixteen_to(16) == 0x1_0000_0000_0000_0000,
        decreases n - i,
    {
        let c: char = v[i];
        let d: u64 = if '0' <= c && c <= '9' {
            (c as u32 - '0' as u32) as u64
        } else if 'a' <= c && c <= 'f' {
            (c as u32 - 'a' as u32) as u64 + 10
        } else if 'A' <= c && c <= 'F' {
            (c as u32 - 'A' as u32) as u64 + 10
        } else {
            assert(digits[i - start] == c);
            assert(!hex_digits(digits));
            return None;
        };
        let ghost now = digits.take(i - start + 1);
        proof {
            assert(digits[i - start] == c);
            assert(now.drop_last() =~= digits.take(i - start));
            assert(now.last() == c);
            assert forall|k: int| 0 <= k < now.len() implies digit_value(#[trigger] now[k]) is Some by {
                assert(now[k] == digits[k]);
            }
            lemma_number_bound(now);
            lemma_sixteen_grows(now.len(), 16);
            assert(number_of(now) == number_of(now.drop_last()) * 16 + d);
        }
        value = value * 16 + d;
        i += 1;
    }
    assert(digits.take(n - start) =~= digits);
    Some(value)
}

/// Why a text is no fingerprint.
#[derive(Clone, Copy, PartialEq, Eq, Structural, Debug)]
pub struct NotAFingerprint;

impl NotAFingerprint {
    /// What the user is told.
    pub fn message(self) -> (m: &'static str)
        ensures
            m@ == "Clipboard fingerprint must be 1 to 16 hexadecimal digits"@,
    {
        "Clipboard fingerprint must be 1 to 16 hexadecimal digits"
    }
}

/// Writes a fingerprint in its one form: sixteen lower-case digits.
pub fn normalize_fingerprint(s: &str) -> (r: Result<String, NotAFingerprint>)
    ensures
        match r {
            Ok(text) => hex_value(s@) is Some && text@ == hex_padded(
                hex_value(s@)->Some_0 as int,
                16,
            ),
            Err(_) => hex_value(s@) is None,
        },
{
    match parse_fingerprint(s) {
        Some(value) => Ok(hex_text(value, 16)),
        None => Err(NotAFingerprint),
    }
}

proof fn lemma_written_digits(n: int, width: nat)
    requires
        0 <= n < sixteen_to(width),
    ensures
        hex_padded(n, width).len() == width,
        forall|i: int|
            0 <= i < width ==> digit_value(#[trigger] hex_padded(n, width)[i]) is Some,
        number_of(hex_padded(n, width)) == n,
    decreases width,
{
    if width > 0 {
        let w = (width - 1) as nat;
        assert(sixteen_to(width) == 16 * sixteen_to(w));
        lemma_written_digits(n / 16, w);
        let s = hex_padded(n, width);
        let front = hex_padded(n / 16, w);
        assert(s.drop_last() =~= front);
        assert(digit_value(hex_digit(n % 16)) == Some(n % 16));
        assert forall|i: int| 0 <= i < width implies digit_value(#[trigger] s[i]) is Some by {
            if i < w {
                assert(s[i] == front[i]);
            }
        }
        assert(s.last() == hex_digit(n % 16));
    }
}

proof fn lemma_digits_are_trimmed(s: Seq<char>)
    requires
        hex_digits(s),
    ensures
        trimmed(s) == s,
        without_prefix(s) == s,
{
    assert(digit_value(s[0]) is Some);
    assert(digit_value(s[s.len() - 1]) is Some);
    assert(s.last() == s[s.len() - 1]);
    assert(!white_space(s[0]));
    assert(!white_space(s.last()));
    if s.len() >= 2 {
        assert(digit_value(s[1]) is Some);
    }
}

/// A normalized fingerprint reads back as the same number, so normalizing it
/// again changes nothing.
pub proof fn law_normalized_fingerprints_read_back(fingerprint: u64)
    ensures
        hex_value(hex_padded(fingerprint as int, 16)) == Some(fingerprint),
{
    lemma_sixteen_digits();
    lemma_written_digits(fingerprint as int, 16);
    lemma_digits_are_trimmed(hex_padded(fingerprint as int, 16));
}

/// A fingerprint has the same number with and without white space around it, with and
/// without its prefix, and in either case of its letters; each digit counts sixteen
/// times what the next one does.
pub proof fn law_fingerprints_are_read_digit_by_digit(digits: Seq<char>, c: char, d: int)
    requires
        hex_digits(digits),
        digits.len() < 16,
        0 <= d < 16,
        c as int == (if d < 10 {
            '0' as int + d
        } else {
            'a' as int + d - 10
        }) || d >= 10 && c as int == 'A' as int + d - 10,
    ensures
        number_of(digits.push(c)) == number_of(digits) * 16 + d,
        number_of(seq![c]) == d,
        hex_digits(digits.push(c)),
        hex_value(digits.push(c)) == Some(number_of(digits.push(c)) as u64),
{
    assert(digits.push(c).drop_last() =~= digits);
    assert(digit_value(c) == Some(d));
    let longer = digits.push(c);
    assert forall|i: int| 0 <= i < longer.len() implies digit_value(#[trigger] longer[i]) is Some by {
        if i < digits.len() {
            assert(longer[i] == digits[i]);
        }
    }
    lemma_digits_are_trimmed(longer);
    assert(seq![c].drop_last() =~= Seq::empty());
    assert(number_of(Seq::<char>::empty()) == 0);
    assert(seq![c].last() == c);
}

/// A prefix does not change the number, and a text is no fingerprint where what is
/// left of it is empty, longer than sixteen characters or holds anything but digits.
pub proof fn law_prefixes_do_not_count(s: Seq<char>)
    ensures
        hex_digits(s) ==> hex_value(seq!['0', 'x'] + s) == hex_value(s),
        hex_digits(s) ==> hex_value(seq!['0', 'X'] + s) == hex_value(s),
        hex_digits(s) <==> 1 <= s.len() <= 16 && forall|i: int|
            0 <= i < s.len() ==> {
                ||| '0' <= #[trigger] s[i] <= '9'
                ||| 'a' <= s[i] <= 'f'
                ||| 'A' <= s[i] <= 'F'
            },
        hex_value(s) is Some <==> hex_digits(trimmed(s)) || (trimmed(s).len() >= 2 && trimmed(s)[0]
            == '0' && (trimmed(s)[1] == 'x' || trimmed(s)[1] == 'X') && hex_digits(
            trimmed(s).skip(2),
        )),
{
    if hex_digits(s) {
        lemma_digits_are_trimmed(s);
        let lower = seq!['0', 'x'] + s;
        let upper = seq!['0', 'X'] + s;
        assert(digit_value(s[s.len() - 1]) is Some);
        assert(lower.last() == s[s.len() - 1] && upper.last() == s[s.len() - 1]);
        assert(!white_space(lower.last()));
        assert(trimmed(lower) == lower && trimmed(upper) == upper);
        assert(lower.skip(2) =~= s && upper.skip(2) =~= s);
    }
    if hex_digits(trimmed(s)) {
        lemma_digits_are_trimmed(trimmed(s));
    }
    if 1 <= s.len() <= 16 && forall|i: int|
        0 <= i < s.len() ==> {
            ||| '0' <= #[trigger] s[i] <= '9'
            ||| 'a' <= s[i] <= 'f'
            ||| 'A' <= s[i] <= 'F'
        } {
        assert(hex_digits(s));
    }
    if hex_digits(s) {
        assert forall|i: int| 0 <= i < s.len() implies {
            ||| '0' <= #[trigger] s[i] <= '9'
            ||| 'a' <= s[i] <= 'f'
            ||| 'A' <= s[i] <= 'F'
        } by {
            assert(digit_value(s[i]) is Some);
        }
    }
}

} // verus!
