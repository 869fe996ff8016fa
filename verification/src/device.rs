//! Facts about the source device: its path as the disk service reports it,
//! whether it is an optical drive, and its size.
use vstd::prelude::*;
use vstd::string::StringExecFns;
use vstd::utf8::{
    char_is_scalar, decode_utf8, encode_scalar, encode_utf8, encode_utf8_decode_utf8,
    encode_utf8_valid_utf8, has_width_1_encoding, has_width_2_encoding, has_width_3_encoding,
    valid_utf8,
};
use crate::text::{has_prefix, starts_with};

verus! {

/// The bytes end in a nul byte, and that is the only nul among them.
pub open spec fn nul_terminated(bytes: Seq<u8>) -> bool {
    &&& bytes.len() > 0
    &&& bytes.last() == 0u8
    &&& forall|i: int| 0 <= i < bytes.len() - 1 ==> bytes[i] != 0u8
}

/// The text of a nul-terminated byte string, when it is one and its bytes
/// before the nul are valid UTF-8.
pub open spec fn c_string_text(bytes: Seq<u8>) -> Option<Seq<char>> {
    if nul_terminated(bytes) && valid_utf8(bytes.drop_last()) {
        Some(decode_utf8(bytes.drop_last()))
    } else {
        None
    }
}

/// Decodes `bytes` with `std::str::from_utf8`. The contract claims what the
/// standard library documents: the call succeeds exactly when the bytes are
/// valid UTF-8, and then yields the characters they encode.
#[verifier::external_body]
fn utf8_text(bytes: &[u8]) -> (r: Option<&str>)
    ensures
        r is Some <==> valid_utf8(bytes@),
        r matches Some(s) ==> s@ == decode_utf8(bytes@),
{
    std::str::from_utf8(bytes).ok()
}

/// The device path held in `bytes`, a nul-terminated byte string as the disk
/// service hands it out; `None` when the bytes are not one or are not UTF-8.
pub fn device_path_from_bytes(bytes: &[u8]) -> (r: Option<String>)
    ensures
        match c_string_text(bytes@) {
            Some(t) => r matches Some(s) && s@ == t,
            None => r is None,
        },
{
    let n = bytes.len();
    if n == 0 || bytes[n - 1] != 0u8 {
        return None;
    }
    let mut i: usize = 0;
    while i < n - 1
        invariant
            n == bytes@.len(),
            0 < n,
            i <= n - 1,
            forall|j: int| 0 <= j < i ==> bytes@[j] != 0u8,
        decreases n - 1 - i,
    {
        if bytes[i] == 0u8 {
            return None;
        }
        i = i + 1;
    }
    let body = &bytes[0..n - 1];
    assert(body@ == bytes@.drop_last());
    match utf8_text(body) {
        Some(s) => Some(String::from_str(s)),
        None => None,
    }
}

/// The UTF-8 encoding of a character other than the nul character holds no
/// zero byte.
proof fn lemma_scalar_encoding_has_no_zero(c: char)
    requires
        c != '\0',
    ensures
        forall|i: int| 0 <= i < encode_scalar(c as u32).len() ==> #[trigger] encode_scalar(c as u32)[i] != 0u8,
{
    char_is_scalar(c);
    let v = c as u32;
    assert(v != 0);
    if has_width_1_encoding(v) {
        assert((v & 0x7F) as u8 != 0u8) by (bit_vector)
            requires
                0 < v <= 0x7F,
        ;
    } else if has_width_2_encoding(v) {
        assert((0xC0 | ((v >> 6) & 0x1F) as u8) != 0u8) by (bit_vector);
        assert((0x80 | (v & 0x3F) as u8) != 0u8) by (bit_vector);
    } else if has_width_3_encoding(v) {
        assert((0xE0 | ((v >> 12) & 0x0F) as u8) != 0u8) by (bit_vector);
        assert((0x80 | ((v >> 6) & 0x3F) as u8) != 0u8) by (bit_vector);
        assert((0x80 | (v & 0x3F) as u8) != 0u8) by (bit_vector);
    } else {
        assert((0xF0 | ((v >> 18) & 0x7) as u8) != 0u8) by (bit_vector);
        assert((0x80 | ((v >> 12) & 0x3F) as u8) != 0u8) by (bit_vector);
        assert((0x80 | ((v >> 6) & 0x3F) as u8) != 0u8) by (bit_vector);
        assert((0x80 | (v & 0x3F) as u8) != 0u8) by (bit_vector);
    }
}

/// The UTF-8 encoding of a text without nul characters holds no zero byte.
proof fn lemma_encoding_has_no_zero(text: Seq<char>)
    requires
        forall|i: int| 0 <= i < text.len() ==> text[i] != '\0',
    ensures
        forall|i: int| 0 <= i < encode_utf8(text).len() ==> #[trigger] encode_utf8(text)[i] != 0u8,
    decreases text.len(),
{
    if text.len() > 0 {
        let first = encode_scalar(text[0] as u32);
        let rest = text.drop_first();
        lemma_scalar_encoding_has_no_zero(text[0]);
        lemma_encoding_has_no_zero(rest);
        assert(encode_utf8(text) == first + encode_utf8(rest));
        assert forall|i: int| 0 <= i < encode_utf8(text).len() implies encode_utf8(text)[i] != 0u8 by {
            if i < first.len() {
                assert(encode_utf8(text)[i] == first[i]);
            } else {
                assert(encode_utf8(text)[i] == encode_utf8(rest)[i - first.len()]);
            }
        }
    }
}

/// A text without nul characters, encoded in UTF-8 and terminated by a nul
/// byte as the disk service hands out device paths, is read back unchanged.
pub proof fn lemma_c_string_round_trip(text: Seq<char>)
    requires
        forall|i: int| 0 <= i < text.len() ==> text[i] != '\0',
    ensures
        c_string_text(encode_utf8(text).push(0u8)) == Some(text),
{
    let bytes = encode_utf8(text).push(0u8);
    lemma_encoding_has_no_zero(text);
    assert(bytes.drop_last() == encode_utf8(text));
    encode_utf8_valid_utf8(text);
    encode_utf8_decode_utf8(text);
    assert forall|i: int| 0 <= i < bytes.len() - 1 implies bytes[i] != 0u8 by {
        assert(bytes[i] == encode_utf8(text)[i]);
    }
}

/// Whether `device` names an optical drive (`/dev/sr…`).
pub fn is_optical_device(device: &str) -> (r: bool)
    ensures
        r == has_prefix(device@, "/dev/sr"@),
{
    starts_with(device, "/dev/sr")
}

/// Why the size of a device could not be had.
#[derive(Debug, Clone, Copy, PartialEq, Eq)]
pub enum DeviceSizeError {
    /// The size request was refused: the file is not a block device.
    NotABlockDevice,
}

/// Device size in bytes of a block device, from the outcome of the size
/// request made on it (its return value, or the error number it failed
/// with) and the size that the request reported.
///
/// # Errors
///
/// Returns an error if the request did not return 0, which is what happens
/// when the file is not a block device.
pub fn device_size(request: Result<i32, i32>, reported_size: u64) -> (r: Result<u64, DeviceSizeError>)
    ensures
        r == (if request == Ok::<i32, i32>(0i32) {
            Ok::<u64, DeviceSizeError>(reported_size)
        } else {
            Err(DeviceSizeError::NotABlockDevice)
        }),
{
    match request {
        Ok(0) => Ok(reported_size),
        _ => Err(DeviceSizeError::NotABlockDevice),
    }
}

} // verus!
