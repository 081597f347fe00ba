//! Content digests: comparing them, writing them down and reading them back.

use vstd::prelude::*;
use vstd::string::StringSliceAdditionalSpecFns;
use vstd::utf8::is_ascii_chars;
use vstd::utf8::is_ascii_chars_encode_utf8;

use crate::outside::sha256;
use crate::outside::sha256_of;
use crate::text::digit_char;
use crate::text::hex_digit;
use crate::transfer_error::TransferError;

verus! {

/// Whether two digests are equal.
pub fn same_digest(a: &[u8; 32], b: &[u8; 32]) -> (same: bool)
    ensures
        same == (a@ == b@),
{
    let mut i: usize = 0;
    while i < 32
        invariant
            i <= 32,
            forall|k: int| 0 <= k < i ==> a@[k] == b@[k],
        decreases 32 - i,
    {
        if a[i] != b[i] {
            return false;
        }
        i += 1;
    }
    assert(a@ == b@);
    true
}

/// The two lower-case digits of each byte, in order.
pub open spec fn hex_bytes(bytes: Seq<u8>) -> Seq<char>
    decreases bytes.len(),
{
    if bytes.len() == 0 {
        Seq::empty()
    } else {
        hex_bytes(bytes.drop_last()).push(hex_digit(bytes.last() as int / 16)).push(
            hex_digit(bytes.last() as int % 16),
        )
    }
}

/// Writes a digest as 64 lower-case digits.
pub fn digest_text(digest: &[u8; 32]) -> (text: String)
    ensures
        text@ == hex_bytes(digest@),
{
    let mut text = String::new();
    let mut i: usize = 0;
    assert(text@ == hex_bytes(digest@.take(0)));
    while i < 32
        invariant
            i <= 32,
            text@ == hex_bytes(digest@.take(i as int)),
        decreases 32 - i,
    {
        let byte: u64 = digest[i] as u64;
        text.push(digit_char(byte / 16));
        text.push(digit_char(byte % 16));
        i += 1;
        assert(digest@.take(i as int).drop_last() == digest@.take(i - 1));
    }
    assert(digest@.take(32) == digest@);
    text
}

/// The digest of an encoded manifest, as text.
pub fn manifest_digest(encoded: &[u8]) -> (text: String)
    ensures
        text@ == hex_bytes(sha256_of(encoded@)),
{
    digest_text(&sha256(encoded))
}

/// The value of a hexadecimal digit in either case.
pub open spec fn hex_value(b: u8) -> Option<int> {
    if 0x30 <= b <= 0x39 {
        Some(b - 0x30)
    } else if 0x61 <= b <= 0x66 {
        Some(b - 0x61 + 10)
    } else if 0x41 <= b <= 0x46 {
        Some(b - 0x41 + 10)
    } else {
        None
    }
}

/// The value of a hexadecimal digit in either case.
pub fn hex_value_of(b: u8) -> (v: Option<u8>)
    ensures
        match v {
            Some(n) => hex_value(b) == Some(n as int) && n < 16,
            None => hex_value(b) is None,
        },
{
    if 0x30 <= b && b <= 0x39 {
        Some(b - 0x30)
    } else if 0x61 <= b && b <= 0x66 {
        Some(b - 0x61 + 10)
    } else if 0x41 <= b && b <= 0x46 {
        Some(b - 0x41 + 10)
    } else {
        None
    }
}

/// The value of a two-character hexadecimal number. Its first character may be
/// a plus sign.
pub open spec fn pair_value(high: u8, low: u8) -> Option<int> {
    match (hex_value(high), hex_value(low)) {
        (Some(h), Some(l)) => Some(h * 16 + l),
        (None, Some(l)) => if high == 0x2b {
            Some(l)
        } else {
            None
        },
        _ => None,
    }
}

/// The digest that 64 characters spell.
pub open spec fn digest_spelled_by(bytes: Seq<u8>) -> Result<Seq<u8>, TransferError> {
    if bytes.len() != 64 {
        Err(TransferError::DigestLength)
    } else if exists|i: int| 0 <= i < 32 && #[trigger] pair_value(bytes[2 * i], bytes[2 * i + 1]) is None {
        Err(TransferError::DigestDigits)
    } else {
        Ok(Seq::new(32, |i: int| pair_value(bytes[2 * i], bytes[2 * i + 1])->Some_0 as u8))
    }
}

/// Reads a digest from its 64 hexadecimal digits.
pub fn parse_sha256_hex(value: &str) -> (r: Result<[u8; 32], TransferError>)
    ensures
        match r {
            Ok(digest) => digest_spelled_by(value.spec_bytes()) == Ok::<Seq<u8>, TransferError>(
                digest@,
            ),
            Err(error) => digest_spelled_by(value.spec_bytes()) == Err::<Seq<u8>, TransferError>(
                error,
            ),
        },
{
    let bytes = value.as_bytes();
    if bytes.len() != 64 {
        return Err(TransferError::DigestLength);
    }
    let mut digest: [u8; 32] = [0u8;32];
    let mut i: usize = 0;
    while i < 32
        invariant
            i <= 32,
            bytes@.len() == 64,
            bytes@ == value.spec_bytes(),
            forall|k: int|
                0 <= k < i ==> pair_value(bytes@[2 * k], bytes@[2 * k + 1]) == Some(
                    (#[trigger] digest@[k]) as int,
                ),
        decreases 32 - i,
    {
        let high: u8 = bytes[2 * i];
        let low: u8 = bytes[2 * i + 1];
        let ghost value_here = pair_value(bytes@[2 * i as int], bytes@[2 * i + 1]);
        let byte: u8 = match (hex_value_of(high), hex_value_of(low)) {
            (Some(h), Some(l)) => h * 16 + l,
            (None, Some(l)) => if high == 0x2b {
                l
            } else {
                assert(value_here is None);
                return Err(TransferError::DigestDigits);
            },
            _ => {
                assert(value_here is None);
                return Err(TransferError::DigestDigits);
            },
        };
        digest[i] = byte;
        i += 1;
    }
    assert forall|k: int| 0 <= k < 32 implies #[trigger] pair_value(bytes@[2 * k], bytes@[2 * k + 1])
        is Some by {
        assert(pair_value(bytes@[2 * k], bytes@[2 * k + 1]) == Some(digest@[k] as int));
    }
    assert(digest@ =~= Seq::new(
        32,
        |k: int| pair_value(bytes@[2 * k], bytes@[2 * k + 1])->Some_0 as u8,
    ));
    Ok(digest)
}

proof fn lemma_hex_bytes(bytes: Seq<u8>)
    ensures
        hex_bytes(bytes).len() == 2 * bytes.len(),
        is_ascii_chars(hex_bytes(bytes)),
        forall|i: int|
            0 <= i < bytes.len() ==> hex_bytes(bytes)[2 * i] == hex_digit(
                (#[trigger] bytes[i]) as int / 16,
            ) && hex_bytes(bytes)[2 * i + 1] == hex_digit(bytes[i] as int % 16),
    decreases bytes.len(),
{
    if bytes.len() > 0 {
        let init = bytes.drop_last();
        lemma_hex_bytes(init);
        assert forall|i: int| 0 <= i < bytes.len() implies hex_bytes(bytes)[2 * i] == hex_digit(
            (#[trigger] bytes[i]) as int / 16,
        ) && hex_bytes(bytes)[2 * i + 1] == hex_digit(bytes[i] as int % 16) by {
            if i < init.len() {
                assert(init[i] == bytes[i]);
            }
        }
    }
}

/// Reading back a written digest gives the digest.
pub proof fn law_written_digests_read_back(digest: Seq<u8>)
    requires
        digest.len() == 32,
    ensures
        digest_spelled_by(vstd::utf8::encode_utf8(hex_bytes(digest))) == Ok::<
            Seq<u8>,
            TransferError,
        >(digest),
{
    let text = hex_bytes(digest);
    lemma_hex_bytes(digest);
    is_ascii_chars_encode_utf8(text);
    let bytes = vstd::utf8::encode_utf8(text);
    assert forall|i: int| 0 <= i < 32 implies #[trigger] pair_value(bytes[2 * i], bytes[2 * i + 1])
        == Some(digest[i] as int) by {
        let b = digest[i] as int;
        assert(bytes[2 * i] == hex_digit(b / 16) as u8);
        assert(bytes[2 * i + 1] == hex_digit(b % 16) as u8);
    }
    assert(Seq::new(32, |i: int| pair_value(bytes[2 * i], bytes[2 * i + 1])->Some_0 as u8)
        =~= digest);
}

/// A text spells a digest exactly where it has 64 bytes, each pair of them two
/// hexadecimal digits in either case or a plus sign and one digit, and the digest has
/// the value of each pair in turn.
pub proof fn law_digests_are_read_pair_by_pair(bytes: Seq<u8>, i: int)
    requires
        digest_spelled_by(bytes) is Ok,
        0 <= i < 32,
    ensures
        bytes.len() == 64,
        digest_spelled_by(bytes)->Ok_0.len() == 32,
        ({
            let high = bytes[2 * i] as char;
            let low = bytes[2 * i + 1] as char;
            let worth = |c: char|
                if '0' <= c <= '9' {
                    c as int - '0' as int
                } else if 'a' <= c <= 'f' {
                    c as int - 'a' as int + 10
                } else {
                    c as int - 'A' as int + 10
                };
            digest_spelled_by(bytes)->Ok_0[i] == (if high == '+' {
                worth(low)
            } else {
                worth(high) * 16 + worth(low)
            })
        }),
{
    assert(pair_value(bytes[2 * i], bytes[2 * i + 1]) is Some);
}

/// Only the length and the digits of a text keep it from spelling a digest.
pub proof fn law_hexadecimal_texts_spell_digests(bytes: Seq<u8>)
    requires
        forall|i: int|
            0 <= i < bytes.len() ==> {
                ||| 0x30 <= #[trigger] bytes[i] <= 0x39
                ||| 0x61 <= bytes[i] <= 0x66
                ||| 0x41 <= bytes[i] <= 0x46
            },
    ensures
        digest_spelled_by(bytes) is Ok <==> bytes.len() == 64,
        bytes.len() != 64 ==> digest_spelled_by(bytes) == Err::<Seq<u8>, TransferError>(
            TransferError::DigestLength,
        ),
{
    if bytes.len() == 64 {
        assert forall|i: int| 0 <= i < 32 implies #[trigger] pair_value(bytes[2 * i], bytes[2 * i + 1])
            is Some by {}
    }
}

/// Two bytes that are no number keep the text from spelling a digest.
pub proof fn law_other_characters_spell_no_digest(bytes: Seq<u8>, i: int)
    requires
        bytes.len() == 64,
        0 <= i < 32,
        ({
            let c = bytes[2 * i + 1];
            !(0x30 <= c <= 0x39) && !(0x61 <= c <= 0x66) && !(0x41 <= c <= 0x46)
        }) || ({
            let c = bytes[2 * i];
            !(0x30 <= c <= 0x39) && !(0x61 <= c <= 0x66) && !(0x41 <= c <= 0x46) && c != 0x2b
        }),
    ensures
        digest_spelled_by(bytes) == Err::<Seq<u8>, TransferError>(TransferError::DigestDigits),
{
    assert(pair_value(bytes[2 * i], bytes[2 * i + 1]) is None);
}

/// Each byte is written as two digits, the higher half first, in lower case.
pub proof fn law_digests_are_written_byte_by_byte(bytes: Seq<u8>, i: int)
    requires
        0 <= i < bytes.len(),
    ensures
        hex_bytes(bytes).len() == 2 * bytes.len(),
        hex_bytes(bytes).subrange(2 * i, 2 * i + 2) == crate::text::hex_padded(bytes[i] as int, 2),
{
    lemma_hex_bytes(bytes);
    reveal_with_fuel(crate::text::hex_padded, 3);
    let b = bytes[i] as int;
    assert(b / 16 % 16 == b / 16);
    assert(hex_bytes(bytes).subrange(2 * i, 2 * i + 2) =~= crate::text::hex_padded(b, 2));
}

} // verus!
