//! Turning the bytes of a file into text.
//!
//! A byte-order mark decides the encoding where there is one. Without a mark
//! UTF-8, UTF-16 little-endian and UTF-16 big-endian are tried in that order
//! and the first that decodes without a malformed sequence wins. Where none
//! does, the text is the UTF-8 decoding with replacement characters.

use vstd::prelude::*;

verus! {

/// The encodings that the decoder knows.
#[derive(Clone, Copy, Debug, PartialEq, Eq, Structural)]
pub enum TextEncoding {
    Utf8,
    Utf16Le,
    Utf16Be,
}

/// A decoded text, as a value of the model.
pub ghost struct Decoding {
    pub text: Seq<char>,
    pub encoding: TextEncoding,
    pub had_errors: bool,
}

/// A decoded text: the text, the encoding it was read in, and whether
/// malformed sequences were replaced on the way.
#[derive(Debug)]
pub struct Decoded {
    pub text: String,
    pub encoding: TextEncoding,
    pub had_errors: bool,
}

impl View for Decoded {
    type V = Decoding;

    open spec fn view(&self) -> Decoding {
        Decoding { text: self.text@, encoding: self.encoding, had_errors: self.had_errors }
    }
}

/// What is to be done once an encoding was tried on bytes without a mark.
#[derive(Clone, Copy, Debug, PartialEq, Eq, Structural)]
pub enum Step {
    /// The decoding is taken.
    Accept,
    /// This encoding is tried next.
    Probe(TextEncoding),
    /// No encoding is left: the lossy UTF-8 decoding is taken.
    Fallback,
}

/// The text that `encoding_rs` decodes `bytes` to in `encoding`, a mark of
/// that encoding removed, and whether it met a malformed sequence.
pub uninterp spec fn decoded_text(encoding: TextEncoding, bytes: Seq<u8>) -> (Seq<char>, bool);

/// The longest input that is handed to `encoding_rs`. It reserves up to three
/// bytes of output for each byte of input, and a few more, before it decodes:
/// under this bound that size fits the address space.
pub const MAX_INPUT_LEN: usize = usize::MAX / 8;

/// Calls `Encoding::decode_with_bom_removal` of the crate `encoding_rs` on
/// the encoding that stands for `encoding`. The method removes a leading mark
/// of that same encoding and decodes the rest, a replacement character in
/// place of each malformed sequence. The contract names the pair it returns
/// and claims nothing else of it. The method panics where its size
/// calculation overflows, which the bound on the length rules out.
#[verifier::external_body]
fn decode_as(encoding: TextEncoding, bytes: &[u8]) -> (out: (String, bool))
    requires
        bytes@.len() <= MAX_INPUT_LEN,
    ensures
        (out.0@, out.1) == decoded_text(encoding, bytes@),
{
    let codec = match encoding {
        TextEncoding::Utf8 => encoding_rs::UTF_8,
        TextEncoding::Utf16Le => encoding_rs::UTF_16LE,
        TextEncoding::Utf16Be => encoding_rs::UTF_16BE,
    };
    let (text, had_errors) = codec.decode_with_bom_removal(bytes);
    (text.into_owned(), had_errors)
}

/// The encoding whose byte-order mark `bytes` begins with, if any:
/// `EF BB BF` for UTF-8, `FF FE` for UTF-16 little-endian, `FE FF` for UTF-16
/// big-endian.
pub open spec fn bom_of(bytes: Seq<u8>) -> Option<TextEncoding> {
    if bytes.len() >= 3 && bytes[0] == 0xEF && bytes[1] == 0xBB && bytes[2] == 0xBF {
        Some(TextEncoding::Utf8)
    } else if bytes.len() >= 2 && bytes[0] == 0xFF && bytes[1] == 0xFE {
        Some(TextEncoding::Utf16Le)
    } else if bytes.len() >= 2 && bytes[0] == 0xFE && bytes[1] == 0xFF {
        Some(TextEncoding::Utf16Be)
    } else {
        None
    }
}

/// `bytes` decoded in `encoding`, as a decoding.
pub open spec fn decoding_in(encoding: TextEncoding, bytes: Seq<u8>) -> Decoding {
    Decoding {
        text: decoded_text(encoding, bytes).0,
        encoding,
        had_errors: decoded_text(encoding, bytes).1,
    }
}

/// Whether `bytes` decode in `encoding` without a malformed sequence.
pub open spec fn decodes_cleanly(encoding: TextEncoding, bytes: Seq<u8>) -> bool {
    !decoded_text(encoding, bytes).1
}

/// The decoding of `bytes`: by the mark where there is one, else by the first
/// of UTF-8, UTF-16LE and UTF-16BE that decodes cleanly, else lossy UTF-8.
pub open spec fn decoding_of(bytes: Seq<u8>) -> Decoding {
    match bom_of(bytes) {
        Some(encoding) => decoding_in(encoding, bytes),
        None => if decodes_cleanly(TextEncoding::Utf8, bytes) {
            decoding_in(TextEncoding::Utf8, bytes)
        } else if decodes_cleanly(TextEncoding::Utf16Le, bytes) {
            decoding_in(TextEncoding::Utf16Le, bytes)
        } else if decodes_cleanly(TextEncoding::Utf16Be, bytes) {
            decoding_in(TextEncoding::Utf16Be, bytes)
        } else {
            decoding_in(TextEncoding::Utf8, bytes)
        },
    }
}

/// The step that follows a try of `tried` that did or did not meet errors.
pub open spec fn step_after(tried: TextEncoding, had_errors: bool) -> Step {
    if !had_errors {
        Step::Accept
    } else {
        match tried {
            TextEncoding::Utf8 => Step::Probe(TextEncoding::Utf16Le),
            TextEncoding::Utf16Le => Step::Probe(TextEncoding::Utf16Be),
            TextEncoding::Utf16Be => Step::Fallback,
        }
    }
}

/// How many encodings are tried after `encoding`.
pub open spec fn probes_after(encoding: TextEncoding) -> nat {
    match encoding {
        TextEncoding::Utf8 => 2,
        TextEncoding::Utf16Le => 1,
        TextEncoding::Utf16Be => 0,
    }
}

/// Finds the byte-order mark at the start of `bytes`.
pub fn detect_bom(bytes: &[u8]) -> (found: Option<TextEncoding>)
    ensures
        found == bom_of(bytes@),
{
    let n = bytes.len();
    if n >= 3 && bytes[0] == 0xEF && bytes[1] == 0xBB && bytes[2] == 0xBF {
        Some(TextEncoding::Utf8)
    } else if n >= 2 && bytes[0] == 0xFF && bytes[1] == 0xFE {
        Some(TextEncoding::Utf16Le)
    } else if n >= 2 && bytes[0] == 0xFE && bytes[1] == 0xFF {
        Some(TextEncoding::Utf16Be)
    } else {
        None
    }
}

/// Decides what follows a try of `tried` on bytes without a mark: a clean
/// decoding is taken, a failed one leads to the next encoding in line, and
/// after the last to the lossy decoding.
pub fn after_probe(tried: TextEncoding, had_errors: bool) -> (step: Step)
    ensures
        step == step_after(tried, had_errors),
{
    if !had_errors {
        Step::Accept
    } else {
        match tried {
            TextEncoding::Utf8 => Step::Probe(TextEncoding::Utf16Le),
            TextEncoding::Utf16Le => Step::Probe(TextEncoding::Utf16Be),
            TextEncoding::Utf16Be => Step::Fallback,
        }
    }
}

/// Decodes `bytes` in `encoding`.
pub fn decode_in(encoding: TextEncoding, bytes: &[u8]) -> (out: Decoded)
    requires
        bytes@.len() <= MAX_INPUT_LEN,
    ensures
        out@ == decoding_in(encoding, bytes@),
{
    let (text, had_errors) = decode_as(encoding, bytes);
    Decoded { text, encoding, had_errors }
}

/// Decodes the bytes of a file. Always gives a text; `had_errors` tells
/// whether replacement characters stand in for malformed sequences.
pub fn decode_bytes(bytes: &[u8]) -> (out: Decoded)
    requires
        bytes@.len() <= MAX_INPUT_LEN,
    ensures
        out@ == decoding_of(bytes@),
{
    match detect_bom(bytes) {
        Some(encoding) => decode_in(encoding, bytes),
        None => {
            let mut encoding = TextEncoding::Utf8;
            loop
                invariant
                    bytes@.len() <= MAX_INPUT_LEN,
                    bom_of(bytes@) is None,
                    encoding != TextEncoding::Utf8 ==> !decodes_cleanly(
                        TextEncoding::Utf8,
                        bytes@,
                    ),
                    encoding == TextEncoding::Utf16Be ==> !decodes_cleanly(
                        TextEncoding::Utf16Le,
                        bytes@,
                    ),
                decreases probes_after(encoding),
            {
                let tried = decode_in(encoding, bytes);
                match after_probe(encoding, tried.had_errors) {
                    Step::Accept => {
                        return tried;
                    },
                    Step::Probe(next) => {
                        encoding = next;
                    },
                    Step::Fallback => {
                        return decode_in(TextEncoding::Utf8, bytes);
                    },
                }
            }
        },
    }
}

} // verus!
