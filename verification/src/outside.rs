//! The calls that leave the crate. Each item here is believed, not proved: its
//! contract states what the documentation or source of the callee says.

use vstd::prelude::*;

use crate::text::hex_digit;
use crate::text::hyphenated;

verus! {

/// Appends one character to the end of the string (`String::push`).
pub assume_specification[ String::push ](s: &mut String, c: char)
    ensures
        final(s)@ == old(s)@.push(c),
;

/// The SHA-256 digest of a byte sequence, as 32 bytes.
pub uninterp spec fn sha256_of(bytes: Seq<u8>) -> Seq<u8>;

/// `sha2::Sha256::digest`: the digest of the whole slice. That it has 32 bytes
/// is the array's length; which bytes they are is left to the name.
#[verifier::external_body]
pub(crate) fn sha256(bytes: &[u8]) -> (digest: [u8; 32])
    ensures
        digest@ == sha256_of(bytes@),
{
    <sha2::Sha256 as sha2::Digest>::digest(bytes).into()
}

/// A running SHA-256 computation.
#[verifier::external_body]
#[derive(Debug)]
pub struct ContentHasher {
    inner: sha2::Sha256,
}

/// The bytes that a running computation has taken in, in their order.
pub uninterp spec fn absorbed(hasher: ContentHasher) -> Seq<u8>;

impl ContentHasher {
    /// `sha2::Sha256::new`: nothing has been taken in.
    #[verifier::external_body]
    pub(crate) fn new() -> (hasher: Self)
        ensures
            absorbed(hasher) == Seq::<u8>::empty(),
    {
        ContentHasher { inner: <sha2::Sha256 as sha2::Digest>::new() }
    }

    /// `sha2::Digest::update`: takes in the bytes behind those that were taken in
    /// before.
    #[verifier::external_body]
    pub(crate) fn update(&mut self, bytes: &[u8])
        ensures
            absorbed(*final(self)) == absorbed(*old(self)) + bytes@,
    {
        sha2::Digest::update(&mut self.inner, bytes);
    }

    /// `sha2::Digest::finalize`: the digest of everything that was taken in, the
    /// same as that of the whole in one slice.
    #[verifier::external_body]
    pub(crate) fn finish(self) -> (digest: [u8; 32])
        ensures
            digest@ == sha256_of(absorbed(self)),
    {
        sha2::Digest::finalize(self.inner).into()
    }
}

/// The identifier that a text spells, if it spells one.
pub uninterp spec fn uuid_spelled_by(text: Seq<char>) -> Option<u128>;

/// `uuid::Uuid::parse_str`, with the identifier as a number. The hyphenated
/// lower-case form of an identifier always parses back to it.
#[verifier::external_body]
pub(crate) fn parse_uuid(text: &str) -> (id: Option<u128>)
    ensures
        id == uuid_spelled_by(text@),
        forall|n: u128| #[trigger] hyphenated(n) == text@ ==> id == Some(n),
{
    uuid::Uuid::parse_str(text).ok().map(|id| id.as_u128())
}

/// `uuid::Uuid`'s `Display`: the hyphenated lower-case form.
#[verifier::external_body]
pub(crate) fn uuid_text(id: u128) -> (text: String)
    ensures
        text@ == hyphenated(id),
{
    uuid::Uuid::from_u128(id).to_string()
}

/// The Unicode lower-case mapping of a text.
pub uninterp spec fn lowercase_of(text: Seq<char>) -> Seq<char>;

/// `str::to_lowercase`, which maps by the Unicode tables of the standard library.
#[verifier::external_body]
pub(crate) fn lowercase(text: &str) -> (lower: String)
    ensures
        lower@ == lowercase_of(text@),
{
    text.to_lowercase()
}

/// The text that a byte sequence decodes to, with every malformed part replaced.
pub uninterp spec fn utf8_lossy_of(bytes: Seq<u8>) -> Seq<char>;

/// `String::from_utf8_lossy`, as an owned text.
#[verifier::external_body]
pub(crate) fn utf8_lossy(bytes: &[u8]) -> (text: String)
    ensures
        text@ == utf8_lossy_of(bytes@),
{
    String::from_utf8_lossy(bytes).into_owned()
}

/// `std::time::SystemTime::now` as whole seconds and nanoseconds since the Unix
/// epoch, or nothing where the clock stands before it. Which time it is depends
/// on the machine; the nanoseconds are below one second.
#[verifier::external_body]
pub(crate) fn clock_since_epoch() -> (now: Option<(u64, u32)>)
    ensures
        now matches Some(t) ==> t.1 < 1_000_000_000,
{
    match std::time::SystemTime::now().duration_since(std::time::UNIX_EPOCH) {
        Ok(elapsed) => Some((elapsed.as_secs(), elapsed.subsec_nanos())),
        Err(_) => None,
    }
}

/// `getrandom::fill`: overwrites the buffer with random bytes. Which bytes come
/// is chance; the call fails where the system has no randomness to give, and then
/// what the buffer holds is open. An empty buffer is filled without asking the
/// system.
#[verifier::external_body]
pub(crate) fn fill_random(buffer: &mut Vec<u8>) -> (filled: bool)
    ensures
        final(buffer)@.len() == old(buffer)@.len(),
        old(buffer)@.len() == 0 ==> filled,
{
    getrandom::fill(buffer.as_mut_slice()).is_ok()
}

/// A character inside a JSON string: quotes, backslashes and what stands before the
/// space are escaped, by a letter where there is one and else by number.
pub open spec fn json_escape(c: char) -> Seq<char> {
    let code = c as int;
    if c == '"' {
        seq!['\\', '"']
    } else if c == '\\' {
        seq!['\\', '\\']
    } else if code == 8 {
        seq!['\\', 'b']
    } else if code == 9 {
        seq!['\\', 't']
    } else if code == 10 {
        seq!['\\', 'n']
    } else if code == 12 {
        seq!['\\', 'f']
    } else if code == 13 {
        seq!['\\', 'r']
    } else if code < 32 {
        seq!['\\', 'u', '0', '0', hex_digit(code / 16), hex_digit(code % 16)]
    } else {
        seq![c]
    }
}

/// The inside of a JSON string.
pub open spec fn json_escaped(text: Seq<char>) -> Seq<char>
    decreases text.len(),
{
    if text.len() == 0 {
        Seq::empty()
    } else {
        json_escaped(text.drop_last()) + json_escape(text.last())
    }
}

/// A text as a JSON string: escaped, and in quotes.
pub open spec fn json_string_of(text: Seq<char>) -> Seq<char> {
    seq!['"'] + json_escaped(text) + seq!['"']
}

/// `serde_json::Value`'s `Display` on a string: its compact form, in which only what
/// JSON forbids inside a string is escaped.
#[verifier::external_body]
pub(crate) fn json_string(text: &str) -> (json: String)
    ensures
        json@ == json_string_of(text@),
{
    serde_json::Value::String(text.to_owned()).to_string()
}

/// A text as `str`'s `Debug` writes it: in quotes, with what would not print escaped.
pub uninterp spec fn quoted_of(text: Seq<char>) -> Seq<char>;

/// What `format!` makes of a `str` for diagnostics. Which characters are escaped, and
/// how, is not stated.
#[verifier::external_body]
pub(crate) fn quoted(text: &str) -> (s: String)
    ensures
        s@ == quoted_of(text@),
{
    format!("{text:?}")
}

} // verus!
