//! What the control panel says of the commands that it runs for pairing.

use vstd::prelude::*;

use crate::notifications::NotificationUrgency;
use crate::outside::utf8_lossy;
use crate::outside::utf8_lossy_of;
use crate::text::control;
use crate::text::plain_prefix;
use crate::text::plain_prefix_text;
use crate::text::same_text;
use crate::text::to_chars;
use crate::text::trim;
use crate::text::trimmed;

verus! {

/// How much of a command's error output is looked at.
pub const MAX_GUI_COMMAND_ERROR_BYTES: usize = 4_096;

/// How much of it is shown.
pub const MAX_GUI_COMMAND_ERROR_CHARS: usize = 512;

/// The start of a byte sequence.
pub open spec fn first_bytes(bytes: Seq<u8>, max: int) -> Seq<u8> {
    bytes.take(
        if bytes.len() <= max {
            bytes.len() as int
        } else {
            max
        },
    )
}

/// What is shown of an error output, given the text that its start decodes to.
pub open spec fn shown_error(decoded: Seq<char>, cut: bool) -> Seq<char> {
    let plain = trimmed(plain_prefix(decoded, MAX_GUI_COMMAND_ERROR_CHARS as int));
    if plain.len() == 0 {
        "Pairing URI command failed without an error message"@
    } else if cut || decoded.len() > MAX_GUI_COMMAND_ERROR_CHARS {
        plain.push('\u{2026}')
    } else {
        plain
    }
}

/// Makes a decoded error output fit to be shown. `cut` says that there was more.
pub fn show_error(decoded: &str, cut: bool) -> (shown: String)
    ensures
        shown@ == shown_error(decoded@, cut),
{
    let mut plain = trim(&plain_prefix_text(decoded, MAX_GUI_COMMAND_ERROR_CHARS));
    if to_chars(&plain).len() == 0 {
        return "Pairing URI command failed without an error message".to_owned();
    }
    if cut || to_chars(decoded).len() > MAX_GUI_COMMAND_ERROR_CHARS {
        plain.push('\u{2026}');
    }
    plain
}

/// Makes a command's error output fit to be shown.
pub fn bounded_command_error(stderr: &[u8]) -> (shown: String)
    ensures
        shown@ == shown_error(
            utf8_lossy_of(first_bytes(stderr@, MAX_GUI_COMMAND_ERROR_BYTES as int)),
            stderr@.len() > MAX_GUI_COMMAND_ERROR_BYTES,
        ),
{
    let cut: bool = stderr.len() > MAX_GUI_COMMAND_ERROR_BYTES;
    let n: usize = if cut {
        MAX_GUI_COMMAND_ERROR_BYTES
    } else {
        stderr.len()
    };
    let mut start: Vec<u8> = Vec::new();
    let mut i: usize = 0;
    while i < n
        invariant
            i <= n <= stderr@.len(),
            start@ == stderr@.take(i as int),
        decreases n - i,
    {
        start.push(stderr[i]);
        i += 1;
        assert(start@ =~= stderr@.take(i as int));
    }
    show_error(&utf8_lossy(start.as_slice()), cut)
}

proof fn lemma_plain_is_printable(decoded: Seq<char>, max: int, i: int)
    requires
        0 <= max,
        0 <= i < trimmed(plain_prefix(decoded, max)).len(),
    ensures
        !control(trimmed(plain_prefix(decoded, max))[i]),
        trimmed(plain_prefix(decoded, max)).len() <= max,
{
    let plain = plain_prefix(decoded, max);
    crate::text::lemma_trimmed_is_part(plain);
    let k = choose|k: int| #[trigger] crate::text::starts_at(plain, trimmed(plain), k);
    assert(trimmed(plain)[i] == plain[k + i]);
    assert(!control(plain[k + i]));
}

/// What is shown of an error output is bounded, whatever the output was.
pub proof fn law_shown_errors_are_bounded(decoded: Seq<char>, cut: bool)
    requires
        trimmed(plain_prefix(decoded, MAX_GUI_COMMAND_ERROR_CHARS as int)).len() > 0,
    ensures
        shown_error(decoded, cut).len() <= MAX_GUI_COMMAND_ERROR_CHARS + 1,
        forall|i: int|
            0 <= i < shown_error(decoded, cut).len() ==> !control(
                #[trigger] shown_error(decoded, cut)[i],
            ),
{
    let max = MAX_GUI_COMMAND_ERROR_CHARS as int;
    lemma_plain_is_printable(decoded, max, 0);
    assert forall|i: int| 0 <= i < shown_error(decoded, cut).len() implies !control(
        #[trigger] shown_error(decoded, cut)[i],
    ) by {
        if i < trimmed(plain_prefix(decoded, max)).len() {
            lemma_plain_is_printable(decoded, max, i);
        }
    }
}

/// What is said of generating a pairing URI.
#[derive(Debug, Clone, PartialEq, Eq)]
pub struct PairingGenerationFeedback {
    pub uri: Option<String>,
    pub urgency: NotificationUrgency,
    pub title: &'static str,
    pub detail: String,
}

impl PairingGenerationFeedback {
    /// Whether the feedback is the one for a command's outcome, given the texts
    /// that its outputs come to.
    pub open spec fn answers(self, success: bool, output: Seq<char>, error: Seq<char>) -> bool {
        let uri = trimmed(output);
        if success && uri.len() > 0 {
            &&& self.uri matches Some(u) && u@ == uri
            &&& self.urgency == NotificationUrgency::Normal
            &&& self.title@ == "Pairing URI generated"@
            &&& self.detail@ == "Pairing URI generated for this Mac"@
        } else {
            &&& self.uri is None
            &&& self.urgency == NotificationUrgency::High
            &&& self.title@ == "Pairing URI failed"@
            &&& self.detail@ == (if success {
                "Pairing URI command returned no URI"@
            } else {
                error
            })
        }
    }
}

/// The feedback for a command whose output was decoded and whose error output was
/// made fit to be shown.
pub fn pairing_feedback(success: bool, output: &str, error: String) -> (feedback:
    PairingGenerationFeedback)
    ensures
        feedback.answers(success, output@, error@),
{
    let uri = trim(output);
    if success && to_chars(&uri).len() > 0 {
        return PairingGenerationFeedback {
            uri: Some(uri),
            urgency: NotificationUrgency::Normal,
            title: "Pairing URI generated",
            detail: "Pairing URI generated for this Mac".to_owned(),
        };
    }
    let detail: String = if success {
        "Pairing URI command returned no URI".to_owned()
    } else {
        error
    };
    PairingGenerationFeedback {
        uri: None,
        urgency: NotificationUrgency::High,
        title: "Pairing URI failed",
        detail,
    }
}

/// The feedback for a command's outcome.
pub fn pairing_generation_feedback(success: bool, stdout: &[u8], stderr: &[u8]) -> (feedback:
    PairingGenerationFeedback)
    ensures
        feedback.answers(
            success,
            utf8_lossy_of(stdout@),
            shown_error(
                utf8_lossy_of(first_bytes(stderr@, MAX_GUI_COMMAND_ERROR_BYTES as int)),
                stderr@.len() > MAX_GUI_COMMAND_ERROR_BYTES,
            ),
        ),
{
    let output = utf8_lossy(stdout);
    let error = bounded_command_error(stderr);
    pairing_feedback(success, &output, error)
}

/// The address that the pairing form starts with: none, so that nobody pairs with
/// one that was guessed.
pub fn local_pairing_addr() -> (addr: String)
    ensures
        addr@.len() == 0,
{
    let addr = String::new();
    assert(addr@ == Seq::<char>::empty());
    addr
}

/// Whether a URI may be accepted: it is the very one whose fingerprint was shown.
pub fn pairing_accept_ready(current_uri: &str, inspected_uri: Option<&str>) -> (ready: bool)
    ensures
        ready == (trimmed(current_uri@).len() > 0 && inspected_uri is Some
            && inspected_uri->Some_0@ == trimmed(current_uri@)),
{
    let uri = trim(current_uri);
    if to_chars(&uri).len() == 0 {
        return false;
    }
    match inspected_uri {
        Some(inspected) => same_text(inspected, &uri),
        None => false,
    }
}

/// An error is shown without the white space round it and with a space for each control
/// character; an ellipsis follows exactly where something was cut, and a blank one is
/// called so.
pub proof fn law_errors_are_shown_as_they_are(decoded: Seq<char>, cut: bool)
    ensures
        ({
            let kept = if decoded.len() <= 512 {
                decoded
            } else {
                decoded.take(512)
            };
            let plain = trimmed(
                Seq::new(
                    kept.len(),
                    |i: int|
                        if control(kept[i]) {
                            ' '
                        } else {
                            kept[i]
                        },
                ),
            );
            &&& plain.len() == 0 ==> shown_error(decoded, cut)
                == "Pairing URI command failed without an error message"@
            &&& plain.len() > 0 && !cut && decoded.len() <= 512 ==> shown_error(decoded, cut)
                == plain
            &&& plain.len() > 0 && (cut || decoded.len() > 512) ==> shown_error(decoded, cut)
                == plain + seq!['\u{2026}']
        }),
{
    let kept = if decoded.len() <= 512 {
        decoded
    } else {
        decoded.take(512)
    };
    assert(plain_prefix(decoded, 512) =~= Seq::new(
        kept.len(),
        |i: int|
            if control(kept[i]) {
                ' '
            } else {
                kept[i]
            },
    ));
    let plain = trimmed(plain_prefix(decoded, 512));
    assert(plain.push('\u{2026}') =~= plain + seq!['\u{2026}']);
}

/// The beginning of the bytes is read, all of them where they are not too many.
pub proof fn law_the_first_bytes_are_read(bytes: Seq<u8>, max: nat)
    ensures
        bytes.len() <= max ==> first_bytes(bytes, max as int) == bytes,
        bytes.len() > max ==> first_bytes(bytes, max as int).len() == max,
        first_bytes(bytes, max as int).is_prefix_of(bytes),
{
    if bytes.len() <= max {
        assert(first_bytes(bytes, max as int) =~= bytes);
    }
}

/// A URI is handed on exactly where the command succeeded and printed one; every other
/// outcome is urgent.
pub proof fn law_printed_uris_are_handed_on(
    feedback: PairingGenerationFeedback,
    success: bool,
    output: Seq<char>,
    error: Seq<char>,
)
    requires
        feedback.answers(success, output, error),
    ensures
        feedback.uri is Some <==> success && trimmed(output).len() > 0,
        feedback.uri is Some ==> feedback.uri->Some_0@ == trimmed(output),
        feedback.urgency == NotificationUrgency::High <==> feedback.uri is None,
        !success ==> feedback.detail@ == error,
{
}

} // verus!
