//! Bytes as text.

use base64::Engine;
use vstd::prelude::*;

verus! {

/// Bytes in standard base64, as the `STANDARD` engine of base64 writes them.
pub uninterp spec fn base64_text(bytes: Seq<u8>) -> Seq<char>;

/// What the `STANDARD` engine of base64 makes of a text: its bytes, or how it describes what is
/// wrong.
pub uninterp spec fn base64_decoded(text: Seq<char>) -> Result<Seq<u8>, Seq<char>>;

/// Whether a text is base64 for exactly these bytes.
pub open spec fn decodes_to(text: Seq<char>, bytes: Seq<u8>) -> bool {
    base64_decoded(text) == Ok::<Seq<u8>, Seq<char>>(bytes)
}

/// `Engine::encode` of base64, with the `STANDARD` engine: a function of the bytes. What it writes
/// is decoded to the same bytes again.
#[verifier::external_body]
pub(crate) fn base64_encode(bytes: &[u8]) -> (text: String)
    ensures
        text@ == base64_text(bytes@),
        decodes_to(text@, bytes@),
{
    base64::engine::general_purpose::STANDARD.encode(bytes)
}

/// `Engine::decode` of base64, with the `STANDARD` engine: a function of the text.
#[verifier::external_body]
pub(crate) fn base64_decode(text: &str) -> (res: Result<Vec<u8>, String>)
    ensures
        match res {
            Ok(bytes) => base64_decoded(text@) == Ok::<Seq<u8>, Seq<char>>(bytes@),
            Err(why) => base64_decoded(text@) == Err::<Seq<u8>, Seq<char>>(why@),
        },
{
    base64::engine::general_purpose::STANDARD.decode(text).map_err(|e| e.to_string())
}

/// The hexadecimal digit for `d`, in lower case.
pub open spec fn hex_char(d: int) -> char {
    if d < 10 {
        (48 + d) as char
    } else {
        (87 + d) as char
    }
}

/// Bytes in hexadecimal, two digits for each.
pub open spec fn hex_text(bytes: Seq<u8>) -> Seq<char> {
    Seq::new(
        2 * bytes.len(),
        |i: int|
            if i % 2 == 0 {
                hex_char(bytes[i / 2] as int / 16)
            } else {
                hex_char(bytes[i / 2] as int % 16)
            },
    )
}

/// `hex::encode`: two digits in lower case for each byte, the upper half first.
#[verifier::external_body]
pub(crate) fn hex_encode(bytes: &[u8]) -> (text: String)
    ensures
        text@ == hex_text(bytes@),
{
    hex::encode(bytes)
}

/// Each byte is written as its high and its low digit: `0` to `9`, then `a` to `f`.
pub proof fn bytes_are_written_in_pairs(bytes: Seq<u8>, i: int)
    requires
        0 <= i < bytes.len(),
    ensures
        hex_text(bytes).len() == 2 * bytes.len(),
        ({
            let high = hex_text(bytes)[2 * i] as int;
            let low = hex_text(bytes)[2 * i + 1] as int;
            let value = |c: int|
                if 48 <= c <= 57 {
                    c - 48
                } else if 97 <= c <= 102 {
                    c - 87
                } else {
                    1000int
                };
            bytes[i] == 16 * value(high) + value(low) && value(low) < 16
        }),
{
    assert((2 * i) / 2 == i);
    assert((2 * i + 1) / 2 == i);
}

} // verus!
