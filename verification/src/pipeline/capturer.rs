use vstd::prelude::*;

use super::RawFrame;
use super::RawFrameData;

verus! {

/// Even part of a captured dimension: the value taken to 16 bits, with its
/// lowest bit cleared.
pub open spec fn even_dim(x: i32) -> nat {
    ((x as u16) / 2 * 2) as nat
}

/// A captured dimension is the value taken to 16 bits with only its lowest
/// bit cleared: an even dimension that fits in 16 bits is kept as it is,
/// an odd one loses one.
pub proof fn lemma_even_dim(x: i32)
    ensures
        even_dim(x) == (x as u16) - (x as u16) % 2,
        even_dim(x) % 2 == 0,
        (x as u16) % 2 == 0 ==> even_dim(x) == x as u16,
        0 <= x <= 65535 && x % 2 == 0 ==> even_dim(x) == x,
{
    let v = x as u16;
    if 0 <= x <= 65535 {
        assert(x as u16 == x) by (bit_vector)
            requires
                0 <= x <= 65535,
        ;
    }
}

/// Checks a captured BGRA frame of `width` x `height` pixels (as the capture
/// API reports them) and makes a raw frame of it: each dimension is taken
/// to 16 bits and made even, a frame with an empty dimension or with fewer
/// bytes than `4 * width * height` is dropped, and the bytes beyond that
/// are cut off.
pub fn frame_from_bgra(width: i32, height: i32, data: Vec<u8>, timestamp_ticks: u64) -> (res:
    Option<RawFrame>)
    ensures
        res is None <==> (even_dim(width) == 0 || even_dim(height) == 0 || data@.len() < 4
            * even_dim(width) * even_dim(height)),
        res matches Some(f) ==> {
            &&& f.width == (width as u16) - (width as u16) % 2
            &&& f.height == (height as u16) - (height as u16) % 2
            &&& f.width == even_dim(width)
            &&& f.height == even_dim(height)
            &&& f.timestamp_ticks == timestamp_ticks
            &&& f.bgra() == data@.subrange(0, (4 * even_dim(width) * even_dim(height)) as int)
            &&& f.convertible()
        },
{
    let w16 = #[verifier::truncate] (width as u16);
    let h16 = #[verifier::truncate] (height as u16);
    let w = w16 / 2 * 2;
    let h = h16 / 2 * 2;
    if w == 0 || h == 0 {
        return None;
    }
    proof {
        assert(4 * (w as int) * (h as int) <= 4 * 65535 * 65535) by (nonlinear_arith)
            requires
                w <= 65535,
                h <= 65535,
        ;
    }
    let expected: u64 = 4 * (w as u64) * (h as u64);
    if (data.len() as u64) < expected {
        return None;
    }
    let mut data = data;
    data.truncate(expected as usize);
    let f = RawFrame {
        data: RawFrameData::Owned(data),
        width: w as usize,
        height: h as usize,
        timestamp_ticks,
    };
    proof {
        assert(4 * (w as int) * (h as int) == (w as int) * 4 * (h as int)) by (nonlinear_arith);
    }
    Some(f)
}

} // verus!
