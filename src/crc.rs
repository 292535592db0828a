//! CRC-16/XMODEM (polynomial 0x1021, initial value 0, no reflection), as
//! computed by the `crc_any` crate, and the two-byte form it takes on the wire.
use vstd::prelude::*;
use crc_any::CRCu16;

verus! {

/// The CRC-16/XMODEM checksum of a byte sequence.
pub uninterp spec fn crc16_xmodem(data: Seq<u8>) -> u16;

/// Relies on `crc_any::CRCu16::crc16xmodem`, `digest` and `get_crc`: the
/// CRC-16/XMODEM of the bytes, a function of the bytes alone.
#[verifier::external_body]
pub(crate) fn compute_crc(data: &[u8]) -> (r: u16)
    ensures
        r == crc16_xmodem(data@),
{
    let mut sum = CRCu16::crc16xmodem();
    sum.digest(data);
    sum.get_crc()
}

/// The most significant byte of a checksum.
pub open spec fn crc_high(c: u16) -> u8 {
    (c / 256) as u8
}

/// The least significant byte of a checksum.
pub open spec fn crc_low(c: u16) -> u8 {
    (c % 256) as u8
}

/// A checksum as it is written on the wire: big-endian, two bytes.
pub open spec fn crc_bytes(c: u16) -> Seq<u8> {
    seq![crc_high(c), crc_low(c)]
}

/// Whether the two stored bytes `hi`, `lo` (big-endian) hold the checksum `computed`.
pub fn crc_matches(computed: u16, hi: u8, lo: u8) -> (r: bool)
    ensures
        r == (crc_bytes(computed) == seq![hi, lo]),
{
    let r = computed / 256 == hi as u16 && computed % 256 == lo as u16;
    proof {
        if r {
            assert(crc_bytes(computed) =~= seq![hi, lo]);
        }
        if crc_bytes(computed) == seq![hi, lo] {
            assert(crc_bytes(computed)[0] == hi);
            assert(crc_bytes(computed)[1] == lo);
        }
    }
    r
}

} // verus!
