//! Checksums and text encodings that are computed elsewhere.

use sha2::Digest;
use vstd::prelude::*;
use vstd::utf8::*;

verus! {

/// The CRC-16/XMODEM of some bytes.
pub uninterp spec fn crc16_xmodem(data: Seq<u8>) -> u16;

/// The CRC-32/ISO-HDLC of some bytes.
pub uninterp spec fn crc32_iso_hdlc(data: Seq<u8>) -> u32;

/// The SHA-512 digest of some bytes.
pub uninterp spec fn sha512(data: Seq<u8>) -> Seq<u8>;

/// `crc::Crc::<u16>::checksum` with `CRC_16_XMODEM`.
#[verifier::external_body]
pub(crate) fn xmodem_checksum(data: &[u8]) -> (res: u16)
    ensures
        res == crc16_xmodem(data@),
{
    crc::Crc::<u16>::new(&crc::CRC_16_XMODEM).checksum(data)
}

/// `crc::Crc::<u32>::checksum` with `CRC_32_ISO_HDLC`.
#[verifier::external_body]
pub(crate) fn content_tag_checksum(data: &[u8]) -> (res: u32)
    ensures
        res == crc32_iso_hdlc(data@),
{
    crc::Crc::<u32>::new(&crc::CRC_32_ISO_HDLC).checksum(data)
}

/// `sha2::Sha512::digest`: always 64 bytes.
#[verifier::external_body]
pub(crate) fn sha512_digest(data: &[u8]) -> (res: Vec<u8>)
    ensures
        res@ == sha512(data@),
        res@.len() == 64,
{
    sha2::Sha512::digest(data).to_vec()
}

/// `core::str::from_utf8`: the text that the bytes encode, if they are valid
/// UTF-8.
#[verifier::external_body]
pub(crate) fn utf8_text(bytes: &[u8]) -> (res: Option<String>)
    ensures
        res is Some <==> valid_utf8(bytes@),
        res is Some ==> (res->0)@ == decode_utf8(bytes@),
{
    core::str::from_utf8(bytes).ok().map(|text| text.to_string())
}

/// Whether two byte strings are the same.
pub fn bytes_equal(a: &[u8], b: &[u8]) -> (res: bool)
    ensures
        res == (a@ == b@),
{
    if a.len() != b.len() {
        return false;
    }
    let mut i: usize = 0;
    while i < a.len()
        invariant
            i <= a@.len(),
            a@.len() == b@.len(),
            forall|k: int| 0 <= k < i ==> a@[k] == b@[k],
        decreases a@.len() - i,
    {
        if a[i] != b[i] {
            return false;
        }
        i += 1;
    }
    assert(a@ =~= b@);
    true
}

} // verus!
