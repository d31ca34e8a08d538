use vstd::prelude::*;

use crate::avcc::be32_value;

verus! {

/// The framing a buffer's first bytes suggest.
pub enum H264Framing {
    AnnexB4,
    AnnexB3,
    Avcc,
    Unknown,
}

/// The framing of `d` as judged from its start: a 4-byte start code, else a
/// 3-byte start code, else a 32-bit big-endian length prefix that is
/// positive and no longer than the bytes after it, else unknown.
pub open spec fn detected_framing(d: Seq<u8>) -> H264Framing {
    if d.len() >= 4 && d[0] == 0 && d[1] == 0 && d[2] == 0 && d[3] == 1 {
        H264Framing::AnnexB4
    } else if d.len() >= 3 && d[0] == 0 && d[1] == 0 && d[2] == 1 {
        H264Framing::AnnexB3
    } else if d.len() >= 4 && be32_value(d[0], d[1], d[2], d[3]) > 0 && be32_value(
        d[0],
        d[1],
        d[2],
        d[3],
    ) <= d.len() - 4 {
        H264Framing::Avcc
    } else {
        H264Framing::Unknown
    }
}

/// What the first bytes decide: a buffer that starts with `00 00 00 01`
/// is Annex B with a 4-byte start code; one of at least three bytes that
/// starts with `00 00 01` is Annex B with a 3-byte start code, whatever
/// follows and however long it is; AVCC needs a positive 32-bit big-endian
/// length prefix no longer than the bytes after it, and neither start code.
pub proof fn lemma_detected_framing(d: Seq<u8>)
    ensures
        d.len() >= 4 && d[0] == 0 && d[1] == 0 && d[2] == 0 && d[3] == 1 ==> detected_framing(
            d,
        ) is AnnexB4,
        d.len() >= 3 && d[0] == 0 && d[1] == 0 && d[2] == 1 ==> detected_framing(d) is AnnexB3,
        detected_framing(d) is Avcc ==> {
            &&& d.len() >= 4
            &&& !(d[0] == 0 && d[1] == 0 && d[2] == 1)
            &&& !(d[0] == 0 && d[1] == 0 && d[2] == 0 && d[3] == 1)
            &&& 0 < (d[0] as int) * 0x1000000 + (d[1] as int) * 0x10000 + (d[2] as int) * 0x100
                + (d[3] as int) <= d.len() - 4
        },
        detected_framing(d) is Unknown ==> !(d.len() >= 3 && d[0] == 0 && d[1] == 0 && d[2] == 1),
{
    if d.len() >= 4 {
        let (b0, b1, b2, b3) = (d[0], d[1], d[2], d[3]);
        assert(be32_value(b0, b1, b2, b3) as int == (b0 as int) * 0x1000000 + (b1 as int)
            * 0x10000 + (b2 as int) * 0x100 + (b3 as int)) by (bit_vector);
    }
}

/// Names the framing of an H.264 buffer from its first bytes.
pub fn _detect_h264_format(data: &[u8]) -> (res: &'static str)
    ensures
        detected_framing(data@) is AnnexB4 ==> res@ == "Annex B (4-byte start code)"@,
        detected_framing(data@) is AnnexB3 ==> res@ == "Annex B (3-byte start code)"@,
        detected_framing(data@) is Avcc ==> res@ == "AVCC (4-byte length prefix)"@,
        detected_framing(data@) is Unknown ==> res@ == "Unknown format."@,
        data@.len() >= 3 && data@[0] == 0 && data@[1] == 0 && data@[2] == 1 ==> res@
            == "Annex B (3-byte start code)"@,
        data@.len() >= 4 && data@[0] == 0 && data@[1] == 0 && data@[2] == 0 && data@[3] == 1
            ==> res@ == "Annex B (4-byte start code)"@,
{
    if data.len() >= 4 && data[0] == 0 && data[1] == 0 && data[2] == 0 && data[3] == 1 {
        return "Annex B (4-byte start code)";
    }
    if data.len() >= 3 && data[0] == 0 && data[1] == 0 && data[2] == 1 {
        return "Annex B (3-byte start code)";
    }
    if data.len() >= 4 {
        let nal_length = ((data[0] as u32) << 24u32) | ((data[1] as u32) << 16u32) | ((
        data[2] as u32) << 8u32) | (data[3] as u32);
        if nal_length > 0 && (nal_length as usize) <= data.len() - 4 {
            return "AVCC (4-byte length prefix)";
        }
    }
    "Unknown format."
}

} // verus!
