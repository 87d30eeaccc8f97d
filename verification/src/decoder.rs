//! Bytes of a log file to text: UTF-8 first, then UTF-16 little endian,
//! then a lossy UTF-8 reading.

use vstd::prelude::*;
use vstd::string::*;
use vstd::utf8::*;

verus! {

/// The text that `String::from_utf16` builds from a sequence of code units,
/// or `None` where it reports an error.
pub uninterp spec fn utf16_text(units: Seq<u16>) -> Option<Seq<char>>;

/// The text that `String::from_utf8_lossy` builds from a sequence of bytes.
pub uninterp spec fn lossy_utf8_text(bytes: Seq<u8>) -> Seq<char>;

/// The buffer starts with the little-endian byte order mark.
pub open spec fn has_le_bom(bytes: Seq<u8>) -> bool {
    bytes.len() >= 2 && bytes[0] == 0xFF && bytes[1] == 0xFE
}

/// The bytes that are read as UTF-16: the buffer without its byte order mark.
pub open spec fn utf16_payload(bytes: Seq<u8>) -> Seq<u8> {
    if has_le_bom(bytes) {
        bytes.skip(2)
    } else {
        bytes
    }
}

/// The code unit that two bytes form, low byte first.
pub open spec fn le_unit(lo: u8, hi: u8) -> u16 {
    (lo + 256 * hi) as u16
}

/// The code units of a payload, pair by pair; a trailing single byte is left out.
pub open spec fn le_units(payload: Seq<u8>) -> Seq<u16> {
    Seq::new((payload.len() / 2) as nat, |i: int| le_unit(payload[2 * i], payload[2 * i + 1]))
}

/// The text of a buffer.
pub open spec fn decoded_text(bytes: Seq<u8>) -> Seq<char> {
    if valid_utf8(bytes) {
        decode_utf8(bytes)
    } else if utf16_payload(bytes).len() < 2 {
        lossy_utf8_text(bytes)
    } else {
        match utf16_text(le_units(utf16_payload(bytes))) {
            Some(text) => text,
            None => lossy_utf8_text(bytes),
        }
    }
}

/// `std::str::from_utf8`: succeeds exactly on well-formed UTF-8, and the
/// string it gives is the decoding of the bytes.
#[verifier::external_body]
fn utf8_str(bytes: &[u8]) -> (r: Option<&str>)
    ensures
        r is Some <==> valid_utf8(bytes@),
        r is Some ==> r->Some_0@ == decode_utf8(bytes@),
{
    std::str::from_utf8(bytes).ok()
}

/// `String::from_utf16`: the outcome depends on the code units alone.
#[verifier::external_body]
fn utf16_string(units: &[u16]) -> (r: Option<String>)
    ensures
        match r {
            Some(text) => utf16_text(units@) == Some(text@),
            None => utf16_text(units@) is None,
        },
{
    String::from_utf16(units).ok()
}

/// `String::from_utf8_lossy`: the outcome depends on the bytes alone.
#[verifier::external_body]
fn lossy_string(bytes: &[u8]) -> (r: String)
    ensures
        r@ == lossy_utf8_text(bytes@),
{
    String::from_utf8_lossy(bytes).into_owned()
}

/// Reads the buffer as little-endian UTF-16 code units, after skipping a
/// leading byte order mark and ignoring a trailing odd byte.
pub fn utf16_code_units(bytes: &[u8]) -> (units: Vec<u16>)
    ensures
        units@ == le_units(utf16_payload(bytes@)),
{
    let start: usize = if bytes.len() >= 2 && bytes[0] == 0xFF && bytes[1] == 0xFE {
        2
    } else {
        0
    };
    let count: usize = (bytes.len() - start) / 2;
    let ghost payload = utf16_payload(bytes@);
    let mut units: Vec<u16> = Vec::new();
    let mut i: usize = 0;
    while i < count
        invariant
            start <= bytes.len(),
            count == (bytes.len() - start) / 2,
            payload == bytes@.skip(start as int),
            i <= count,
            units@.len() == i,
            forall|k: int| 0 <= k < i ==> units@[k] == le_unit(payload[2 * k], payload[2 * k + 1]),
        decreases count - i,
    {
        let lo: u8 = bytes[start + 2 * i];
        let hi: u8 = bytes[start + 2 * i + 1];
        let unit: u16 = lo as u16 + 256 * (hi as u16);
        units.push(unit);
        i += 1;
    }
    assert(units@ =~= le_units(payload));
    units
}

/// Decodes freshly read bytes. Well-formed UTF-8 is taken as it is.
/// Anything else is read as UTF-16 little endian; where fewer than two bytes
/// are left for that, or the code units are ill-formed, the result is the
/// lossy UTF-8 reading of the whole buffer.
pub fn decode_log_bytes(bytes: &[u8]) -> (text: String)
    ensures
        text@ == decoded_text(bytes@),
        bytes@.len() == 0 ==> text@.len() == 0,
{
    if bytes.len() == 0 {
        proof {
            lemma_empty_is_utf8(bytes@);
        }
        return String::new();
    }
    if let Some(s) = utf8_str(bytes) {
        return String::from_str(s);
    }
    let units = utf16_code_units(bytes);
    if units.len() == 0 {
        return lossy_string(bytes);
    }
    match utf16_string(units.as_slice()) {
        Some(text) => text,
        None => lossy_string(bytes),
    }
}

/// The empty buffer is well-formed UTF-8 and decodes to the empty text.
pub proof fn lemma_empty_is_utf8(bytes: Seq<u8>)
    requires
        bytes.len() == 0,
    ensures
        valid_utf8(bytes),
        decode_utf8(bytes).len() == 0,
        decoded_text(bytes).len() == 0,
{
}

/// Well-formed UTF-8 is returned unchanged: the text is the decoding of the
/// buffer, and the UTF-8 encoding of the text is the buffer again.
pub proof fn lemma_utf8_is_kept(bytes: Seq<u8>)
    requires
        valid_utf8(bytes),
    ensures
        decoded_text(bytes) == decode_utf8(bytes),
        encode_utf8(decoded_text(bytes)) == bytes,
{
    decode_utf8_encode_utf8(bytes);
}

/// A buffer that starts with the byte order mark is not well-formed UTF-8.
pub proof fn lemma_bom_is_not_utf8(bytes: Seq<u8>)
    requires
        has_le_bom(bytes),
    ensures
        !valid_utf8(bytes),
{
}

/// A buffer made of the byte order mark and at least one well-formed UTF-16
/// code unit sequence decodes to the text of those code units, the mark left
/// out.
pub proof fn lemma_utf16_with_bom(bytes: Seq<u8>)
    requires
        has_le_bom(bytes),
        bytes.len() >= 4,
        utf16_text(le_units(bytes.skip(2))) is Some,
    ensures
        decoded_text(bytes) == utf16_text(le_units(bytes.skip(2)))->Some_0,
{
    lemma_bom_is_not_utf8(bytes);
}

/// A single byte at the end of a payload of odd length takes no part in
/// its code units.
pub proof fn lemma_trailing_byte_is_dropped(payload: Seq<u8>)
    requires
        payload.len() % 2 == 1,
    ensures
        le_units(payload) == le_units(payload.drop_last()),
{
    assert(le_units(payload) =~= le_units(payload.drop_last()));
}

} // verus!
