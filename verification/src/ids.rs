//! Identifiers of devices and transfers, and the keys behind them.

use vstd::prelude::*;

use vstd::arithmetic::power::pow;
use vstd::string::StringSliceAdditionalSpecFns;

use crate::outside::sha256;
use crate::outside::sha256_of;
use crate::outside::uuid_text;
use crate::text::hyphenated;

verus! {

/// A device's routing identifier. Its sixteen bytes in order are the number's
/// big-endian form, so identifiers compare as their bytes do.
#[derive(Clone, Copy, PartialEq, Eq, Structural, Debug)]
pub struct DeviceId(pub u128);

/// The identifier of one file transfer, laid out as a [`DeviceId`].
#[derive(Clone, Copy, PartialEq, Eq, Structural, Debug)]
pub struct TransferId(pub u128);

impl TransferId {
    /// The hyphenated form of the identifier.
    pub fn text(self) -> (t: String)
        ensures
            t@ == hyphenated(self.0),
    {
        uuid_text(self.0)
    }
}

/// The domain separator of [`stable_device_id`].
pub open spec fn device_id_domain() -> Seq<u8> {
    "nexkvm stable device id v1".spec_bytes()
}

/// The number whose big-endian bytes are given.
pub open spec fn big_endian(bytes: Seq<u8>) -> int
    decreases bytes.len(),
{
    if bytes.len() == 0 {
        0
    } else {
        big_endian(bytes.drop_last()) * 256 + bytes.last() as int
    }
}

/// The first sixteen digest bytes with the bits of an application-defined
/// identifier (version 8, RFC 9562 variant) set.
pub open spec fn device_id_bytes(digest: Seq<u8>) -> Seq<u8> {
    digest.take(16).update(6, (digest[6] & 0x0f) | 0x80).update(8, (digest[8] & 0x3f) | 0x80)
}

/// Appends bytes to a buffer.
pub fn append_bytes(to: &mut Vec<u8>, from: &[u8])
    ensures
        final(to)@ == old(to)@ + from@,
{
    to.extend_from_slice(from);
    assert(to@ =~= old(to)@ + from@);
}

proof fn lemma_big_endian_bound(bytes: Seq<u8>)
    ensures
        0 <= big_endian(bytes) < pow(256, bytes.len()),
    decreases bytes.len(),
{
    reveal_with_fuel(pow, 2);
    if bytes.len() > 0 {
        lemma_big_endian_bound(bytes.drop_last());
        assert(pow(256, bytes.len()) == 256 * pow(256, (bytes.len() - 1) as nat));
    }
}

/// The number whose big-endian bytes are given.
pub fn number_from_bytes(bytes: &Vec<u8>) -> (n: u128)
    requires
        bytes.len() == 16,
    ensures
        n == big_endian(bytes@),
{
    let mut n: u128 = 0;
    let mut i: usize = 0;
    while i < 16
        invariant
            i <= 16,
            bytes.len() == 16,
            n == big_endian(bytes@.take(i as int)),
        decreases 16 - i,
    {
        proof {
            let next = bytes@.take(i + 1);
            assert(next.drop_last() == bytes@.take(i as int));
            lemma_big_endian_bound(bytes@.take(i as int));
            vstd::arithmetic::power::lemma_pow_increases(256, i as nat, 15);
            assert(pow(256, 15) == 0x1_0000000000_0000000000_0000000000int) by {
                reveal_with_fuel(pow, 16);
            }
        }
        n = n * 256 + bytes[i] as u128;
        i += 1;
    }
    assert(bytes@.take(16) == bytes@);
    n
}

/// A device's routing identifier, bound to its public key: the same key always
/// gives the same identifier.
pub fn stable_device_id(public_key: &[u8]) -> (id: DeviceId)
    ensures
        id.0 == big_endian(device_id_bytes(sha256_of(device_id_domain() + public_key@))),
{
    let mut input: Vec<u8> = Vec::new();
    append_bytes(&mut input, "nexkvm stable device id v1".as_bytes());
    append_bytes(&mut input, public_key);
    assert(input@ == device_id_domain() + public_key@);
    let digest: [u8; 32] = sha256(input.as_slice());
    let mut bytes: Vec<u8> = Vec::new();
    let mut i: usize = 0;
    while i < 16
        invariant
            i <= 16,
            bytes@ == digest@.take(i as int),
        decreases 16 - i,
    {
        bytes.push(digest[i]);
        i += 1;
        assert(digest@.take(i as int) == digest@.take(i - 1).push(digest@[i - 1]));
    }
    let version: u8 = (bytes[6] & 0x0f) | 0x80;
    let variant: u8 = (bytes[8] & 0x3f) | 0x80;
    bytes.set(6, version);
    bytes.set(8, variant);
    assert(bytes@ == device_id_bytes(digest@));
    DeviceId(number_from_bytes(&bytes))
}

/// The version and variant bits of a stable identifier do not depend on the key.
pub proof fn law_stable_ids_carry_version_and_variant(digest: Seq<u8>)
    requires
        digest.len() == 32,
    ensures
        device_id_bytes(digest).len() == 16,
        device_id_bytes(digest)[6] & 0xf0 == 0x80,
        device_id_bytes(digest)[8] & 0xc0 == 0x80,
{
    let a = digest[6];
    let b = digest[8];
    assert(((a & 0x0f) | 0x80) & 0xf0 == 0x80) by (bit_vector);
    assert(((b & 0x3f) | 0x80) & 0xc0 == 0x80) by (bit_vector);
}

/// The first byte of a number weighs most: each byte counts as many times as there are
/// numbers with the bytes behind it.
pub proof fn law_first_bytes_weigh_most(first: u8, rest: Seq<u8>)
    ensures
        big_endian(seq![first] + rest) == first * pow(256, rest.len()) + big_endian(rest),
        big_endian(Seq::<u8>::empty()) == 0,
    decreases rest.len(),
{
    let bytes = seq![first] + rest;
    if rest.len() == 0 {
        assert(bytes.drop_last() =~= Seq::<u8>::empty());
        assert(big_endian(bytes.drop_last()) == 0);
        reveal(pow);
    } else {
        law_first_bytes_weigh_most(first, rest.drop_last());
        assert(bytes.drop_last() =~= seq![first] + rest.drop_last());
        reveal(pow);
        let p = pow(256, (rest.len() - 1) as nat);
        assert(pow(256, rest.len()) == 256 * p);
        assert((first * p + big_endian(rest.drop_last())) * 256 == first * (256 * p) + big_endian(
            rest.drop_last(),
        ) * 256) by (nonlinear_arith);
    }
}

/// An identifier keeps the first sixteen bytes of the digest; only four bits of the
/// seventh byte and two bits of the ninth give way to the marks.
pub proof fn law_stable_ids_keep_the_digest(digest: Seq<u8>, i: int)
    requires
        digest.len() == 32,
        0 <= i < 16,
    ensures
        i != 6 && i != 8 ==> device_id_bytes(digest)[i] == digest[i],
        device_id_bytes(digest)[6] & 0x0f == digest[6] & 0x0f,
        device_id_bytes(digest)[8] & 0x3f == digest[8] & 0x3f,
{
    let a = digest[6];
    let b = digest[8];
    assert(((a & 0x0f) | 0x80) & 0x0f == a & 0x0f) by (bit_vector);
    assert(((b & 0x3f) | 0x80) & 0x3f == b & 0x3f) by (bit_vector);
}

} // verus!
