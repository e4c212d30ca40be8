//! Text extraction for character-class arrays. The foreign string extractor
//! fills a caller-sized buffer with one byte per element and a trailing
//! terminator; the library sizes that buffer, strips the terminator, and
//! turns the remaining bytes into owned text. The model covers seven-bit
//! text: each stored byte is the code point of one character.

use vstd::prelude::*;
use vstd::utf8::char_u32_cast;

verus! {

/// Relies on `String::from_utf8`: bytes below 128 are single-byte UTF-8
/// scalars, so the result holds one character per byte, in order, with the
/// byte's value as its code point.
#[verifier::external_body]
fn string_from_ascii(bytes: Vec<u8>) -> (s: String)
    requires
        forall|i: int| 0 <= i < bytes@.len() ==> bytes@[i] < 128,
    ensures
        s@.len() == bytes@.len(),
        forall|i: int| 0 <= i < bytes@.len() ==> s@[i] as u32 == bytes@[i] as u32,
{
    match String::from_utf8(bytes) {
        Ok(s) => s,
        Err(_) => String::new(),
    }
}

/// Turn a buffer as the foreign string extractor leaves it — the text's
/// bytes followed by one terminator byte — into the text: the terminator is
/// stripped, nothing is truncated.
pub fn string_from_host_buffer(buf: Vec<u8>) -> (s: String)
    requires
        buf@.len() >= 1,
        forall|i: int| 0 <= i < buf@.len() - 1 ==> buf@[i] < 128,
    ensures
        s@.len() == buf@.len() - 1,
        forall|i: int| 0 <= i < buf@.len() - 1 ==> s@[i] as u32 == buf@[i] as u32,
{
    let mut b = buf;
    b.pop();
    string_from_ascii(b)
}

/// Law: round-tripping text through byte storage changes nothing. If the
/// bytes hold the characters of `t` code point for code point, and `s`
/// holds the bytes read back the same way, then `s` is `t`: extracting the
/// text of an array built from `t` gives `t` itself.
pub proof fn lemma_text_round_trip(t: Seq<char>, bytes: Seq<u8>, s: Seq<char>)
    requires
        bytes.len() == t.len(),
        forall|i: int| 0 <= i < t.len() ==> bytes[i] as u32 == t[i] as u32,
        s.len() == bytes.len(),
        forall|i: int| 0 <= i < bytes.len() ==> s[i] as u32 == bytes[i] as u32,
    ensures
        s == t,
{
    assert forall|i: int| 0 <= i < t.len() implies s[i] == t[i] by {
        char_u32_cast(s[i], s[i] as u32);
        char_u32_cast(t[i], t[i] as u32);
    }
    assert(s =~= t);
}

} // verus!
