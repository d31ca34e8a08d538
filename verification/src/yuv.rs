use vstd::prelude::*;

verus! {

/// The colour matrix of a YUV conversion.
#[derive(Clone, Copy, Debug, PartialEq, Eq, Structural)]
pub enum YuvMatrix {
    Bt601,
    Bt709,
}

/// The value range of a YUV conversion.
#[derive(Clone, Copy, Debug, PartialEq, Eq, Structural)]
pub enum YuvValueRange {
    /// Limited ("studio") range.
    Tv,
    /// Full range.
    Pc,
}

/// Frames at least this many rows high are converted with the BT.709 matrix.
pub const HD_MIN_HEIGHT: usize = 720;

/// The matrix for a frame `height` rows high: BT.709 for HD frames (720
/// rows or more), BT.601 below.
pub open spec fn matrix_for_height(height: int) -> YuvMatrix {
    if height >= HD_MIN_HEIGHT {
        YuvMatrix::Bt709
    } else {
        YuvMatrix::Bt601
    }
}

/// Every frame 720 rows high or more is converted with BT.709, however
/// tall, and every lower frame with BT.601.
pub proof fn lemma_matrix_threshold(height: int)
    ensures
        height >= 720 ==> matrix_for_height(height) == YuvMatrix::Bt709,
        height < 720 ==> matrix_for_height(height) == YuvMatrix::Bt601,
{
}

/// The matrix used for a frame of the given height: BT.709 for HD frames
/// (720 rows or more), BT.601 below.
pub fn yuv_matrix_for_height(height: usize) -> (res: YuvMatrix)
    ensures
        res == matrix_for_height(height as int),
        height >= 720 ==> res == YuvMatrix::Bt709,
        height < 720 ==> res == YuvMatrix::Bt601,
{
    if height >= HD_MIN_HEIGHT {
        YuvMatrix::Bt709
    } else {
        YuvMatrix::Bt601
    }
}

/// Whether the BGRA-to-YUV 4:2:0 conversion reads and writes only inside
/// the given buffers: each plane holds every row its stride spans, each
/// stride spans a full row of its plane.
pub open spec fn yuv420_conversion_fits(
    y_len: nat,
    y_stride: u32,
    u_len: nat,
    u_stride: u32,
    v_len: nat,
    v_stride: u32,
    bgra_len: nat,
    bgra_stride: u32,
    width: u32,
    height: u32,
) -> bool {
    &&& y_stride >= width
    &&& y_len >= y_stride * height
    &&& u_stride >= (width + 1) / 2
    &&& u_len >= u_stride * ((height + 1) / 2)
    &&& v_stride >= (width + 1) / 2
    &&& v_len >= v_stride * ((height + 1) / 2)
    &&& bgra_stride >= 4 * width
    &&& bgra_len >= bgra_stride * height
}

/// The 8-bit fixed-point weights of red, green and blue in the luma of a
/// conversion (the matrix's Kr, Kg, Kb scaled to the range and to 256,
/// rounded).
pub open spec fn luma_weights(range: YuvValueRange, matrix: YuvMatrix) -> (int, int, int) {
    match (range, matrix) {
        (YuvValueRange::Tv, YuvMatrix::Bt601) => (66, 129, 25),
        (YuvValueRange::Tv, YuvMatrix::Bt709) => (47, 157, 16),
        (YuvValueRange::Pc, YuvMatrix::Bt601) => (77, 150, 29),
        (YuvValueRange::Pc, YuvMatrix::Bt709) => (54, 183, 18),
    }
}

/// The 8-bit fixed-point weights of red, green and blue in the Cb
/// (blue-difference) chroma of a conversion.
pub open spec fn cb_weights(range: YuvValueRange, matrix: YuvMatrix) -> (int, int, int) {
    match (range, matrix) {
        (YuvValueRange::Tv, YuvMatrix::Bt601) => (-38, -74, 112),
        (YuvValueRange::Tv, YuvMatrix::Bt709) => (-26, -87, 112),
        (YuvValueRange::Pc, YuvMatrix::Bt601) => (-43, -85, 128),
        (YuvValueRange::Pc, YuvMatrix::Bt709) => (-29, -99, 128),
    }
}

/// The 8-bit fixed-point weights of red, green and blue in the Cr
/// (red-difference) chroma of a conversion.
pub open spec fn cr_weights(range: YuvValueRange, matrix: YuvMatrix) -> (int, int, int) {
    match (range, matrix) {
        (YuvValueRange::Tv, YuvMatrix::Bt601) => (112, -94, -18),
        (YuvValueRange::Tv, YuvMatrix::Bt709) => (112, -102, -10),
        (YuvValueRange::Pc, YuvMatrix::Bt601) => (128, -107, -21),
        (YuvValueRange::Pc, YuvMatrix::Bt709) => (128, -116, -12),
    }
}

/// `v` limited to `lo..=hi`.
pub open spec fn clamp(v: int, lo: int, hi: int) -> int {
    if v < lo {
        lo
    } else if v > hi {
        hi
    } else {
        v
    }
}

/// A weighted sum of a pixel's red, green and blue, with `offset`, in
/// 8-bit fixed point: the sum plus `offset * 256 + 128`, divided by 256 and
/// rounded down.
pub open spec fn fixed_point(w: (int, int, int), r: u8, g: u8, b: u8, offset: int) -> int {
    (r * w.0 + g * w.1 + b * w.2 + offset * 256 + 128) / 256
}

/// The luma of a pixel with red, green and blue values `r`, `g`, `b`:
/// offset 16 and limited to 16..=235 in limited range, offset 0 and limited
/// to 0..=255 in full range.
pub open spec fn pixel_luma_value(r: u8, g: u8, b: u8, range: YuvValueRange, matrix: YuvMatrix) -> int {
    match range {
        YuvValueRange::Tv => clamp(fixed_point(luma_weights(range, matrix), r, g, b, 16), 16, 235),
        YuvValueRange::Pc => clamp(fixed_point(luma_weights(range, matrix), r, g, b, 0), 0, 255),
    }
}

/// The Cb chroma of one pixel (offset 128), limited to a byte.
pub open spec fn pixel_cb_value(r: u8, g: u8, b: u8, range: YuvValueRange, matrix: YuvMatrix) -> int {
    clamp(fixed_point(cb_weights(range, matrix), r, g, b, 128), 0, 255)
}

/// The Cr chroma of one pixel (offset 128), limited to a byte.
pub open spec fn pixel_cr_value(r: u8, g: u8, b: u8, range: YuvValueRange, matrix: YuvMatrix) -> int {
    clamp(fixed_point(cr_weights(range, matrix), r, g, b, 128), 0, 255)
}

/// `v` is at most one away from the values between `a` and `b`.
pub open spec fn within_one_of(v: int, a: int, b: int) -> bool {
    &&& v >= (if a < b { a } else { b }) - 1
    &&& v <= (if a < b { b } else { a }) + 1
}

/// The byte at column `x` of row `row` of a plane whose rows are `stride`
/// bytes apart.
pub open spec fn plane_at(plane: Seq<u8>, stride: int, x: int, row: int) -> u8 {
    plane[row * stride + x]
}

/// Offset of pixel (`x`, `row`) in a BGRA image whose rows are `stride`
/// bytes apart; its bytes are blue, green, red, alpha (alpha is not used).
pub open spec fn pixel_offset(stride: int, x: int, row: int) -> int {
    row * stride + 4 * x
}

/// The luma of pixel (`x`, `row`) of a BGRA image.
pub open spec fn pixel_luma(
    bgra: Seq<u8>,
    stride: int,
    x: int,
    row: int,
    range: YuvValueRange,
    matrix: YuvMatrix,
) -> int {
    let p = pixel_offset(stride, x, row);
    pixel_luma_value(bgra[p + 2], bgra[p + 1], bgra[p], range, matrix)
}

/// The Cb chroma of pixel (`x`, `row`) of a BGRA image.
pub open spec fn pixel_cb(
    bgra: Seq<u8>,
    stride: int,
    x: int,
    row: int,
    range: YuvValueRange,
    matrix: YuvMatrix,
) -> int {
    let p = pixel_offset(stride, x, row);
    pixel_cb_value(bgra[p + 2], bgra[p + 1], bgra[p], range, matrix)
}

/// The Cr chroma of pixel (`x`, `row`) of a BGRA image.
pub open spec fn pixel_cr(
    bgra: Seq<u8>,
    stride: int,
    x: int,
    row: int,
    range: YuvValueRange,
    matrix: YuvMatrix,
) -> int {
    let p = pixel_offset(stride, x, row);
    pixel_cr_value(bgra[p + 2], bgra[p + 1], bgra[p], range, matrix)
}

/// The planes hold the 4:2:0 conversion of the `width` x `height` BGRA
/// image: each pixel's luma at its column and row of `y`; at column `k` of
/// chroma row `c` of `u` (and `v`) a value at most one away from the Cb
/// (and Cr) of the two pixels of row `2c` at columns `2k` and `2k + 1`.
pub open spec fn yuv420_converted(
    y: Seq<u8>,
    y_stride: int,
    u: Seq<u8>,
    u_stride: int,
    v: Seq<u8>,
    v_stride: int,
    bgra: Seq<u8>,
    bgra_stride: int,
    width: int,
    height: int,
    range: YuvValueRange,
    matrix: YuvMatrix,
) -> bool {
    &&& forall|x: int, row: int|
        0 <= x < width && 0 <= row < height ==> #[trigger] plane_at(y, y_stride, x, row)
            == pixel_luma(bgra, bgra_stride, x, row, range, matrix)
    &&& forall|k: int, c: int|
        0 <= k && 2 * k + 1 < width && 0 <= c && 2 * c < height ==> within_one_of(
            #[trigger] plane_at(u, u_stride, k, c) as int,
            pixel_cb(bgra, bgra_stride, 2 * k, 2 * c, range, matrix),
            pixel_cb(bgra, bgra_stride, 2 * k + 1, 2 * c, range, matrix),
        )
    &&& forall|k: int, c: int|
        0 <= k && 2 * k + 1 < width && 0 <= c && 2 * c < height ==> within_one_of(
            #[trigger] plane_at(v, v_stride, k, c) as int,
            pixel_cr(bgra, bgra_stride, 2 * k, 2 * c, range, matrix),
            pixel_cr(bgra, bgra_stride, 2 * k + 1, 2 * c, range, matrix),
        )
}

/// Calls `yuvutils_rs::bgra_to_yuv420`, which writes the YUV 4:2:0 planes
/// of a BGRA image into `y`, `u` and `v`. The contract claims that the
/// planes keep their lengths (the function writes through slices) and that
/// they hold the conversion `yuv420_converted` states. Luma is the same on
/// the scalar, SSE and AVX2 paths and is stated exactly. Chroma is stated
/// to within one: the crate picks a path by the CPU features it detects at
/// run time, and the SIMD paths convert each pixel of a pair and then
/// average (rounding up), while the scalar path averages the pair's colours
/// (rounding up) and converts, limiting the result to 16..=240 in limited
/// range. So a chroma byte is not stated to lie in 16..=240: for BT.709 in
/// limited range the SIMD paths give 15 for a pair of yellow pixels. The
/// function does no bounds checks of its own, so `requires` keeps every
/// access inside the buffers.
#[verifier::external_body]
fn bgra_to_yuv420_planes(
    y: &mut Vec<u8>,
    y_stride: u32,
    u: &mut Vec<u8>,
    u_stride: u32,
    v: &mut Vec<u8>,
    v_stride: u32,
    bgra: &[u8],
    bgra_stride: u32,
    width: u32,
    height: u32,
    range: YuvValueRange,
    matrix: YuvMatrix,
)
    requires
        yuv420_conversion_fits(
            old(y)@.len(),
            y_stride,
            old(u)@.len(),
            u_stride,
            old(v)@.len(),
            v_stride,
            bgra@.len(),
            bgra_stride,
            width,
            height,
        ),
    ensures
        final(y)@.len() == old(y)@.len(),
        final(u)@.len() == old(u)@.len(),
        final(v)@.len() == old(v)@.len(),
        yuv420_converted(
            final(y)@,
            y_stride as int,
            final(u)@,
            u_stride as int,
            final(v)@,
            v_stride as int,
            bgra@,
            bgra_stride as int,
            width as int,
            height as int,
            range,
            matrix,
        ),
{
    let range = match range {
        YuvValueRange::Tv => yuvutils_rs::YuvRange::TV,
        YuvValueRange::Pc => yuvutils_rs::YuvRange::Full,
    };
    let matrix = match matrix {
        YuvMatrix::Bt601 => yuvutils_rs::YuvStandardMatrix::Bt601,
        YuvMatrix::Bt709 => yuvutils_rs::YuvStandardMatrix::Bt709,
    };
    yuvutils_rs::bgra_to_yuv420(
        y, y_stride, u, u_stride, v, v_stride, bgra, bgra_stride, width, height, range, matrix,
    );
}

/// The abstract state of a YUV buffer: its planes and dimensions.
pub struct YuvView {
    pub y: Seq<u8>,
    pub u: Seq<u8>,
    pub v: Seq<u8>,
    pub width: nat,
    pub height: nat,
}

/// Size of the luma plane and of each chroma plane of a `width` x `height`
/// 4:2:0 frame.
pub open spec fn plane_sizes(width: nat, height: nat) -> (nat, nat) {
    (width * height, width * height / 4)
}

/// A planar YUV 4:2:0 frame buffer that is converted into in place.
pub struct YUVBuffer {
    y: Vec<u8>,
    u: Vec<u8>,
    v: Vec<u8>,
    width: usize,
    height: usize,
}

impl View for YUVBuffer {
    type V = YuvView;

    closed spec fn view(&self) -> YuvView {
        YuvView {
            y: self.y@,
            u: self.u@,
            v: self.v@,
            width: self.width as nat,
            height: self.height as nat,
        }
    }
}

/// Luma and chroma plane sizes for a frame.
pub fn get_y_and_uv_size(width: usize, height: usize) -> (res: (usize, usize))
    requires
        width * height <= usize::MAX,
    ensures
        res.0 == plane_sizes(width as nat, height as nat).0,
        res.1 == plane_sizes(width as nat, height as nat).1,
{
    let y_size = width * height;
    let uv_size = y_size / 4;
    (y_size, uv_size)
}

impl YUVBuffer {
    /// Planes sized for the buffer's dimensions.
    pub open spec fn wf(&self) -> bool {
        &&& self@.y.len() == plane_sizes(self@.width, self@.height).0
        &&& self@.u.len() == plane_sizes(self@.width, self@.height).1
        &&& self@.v.len() == plane_sizes(self@.width, self@.height).1
        &&& self@.width * self@.height <= usize::MAX
    }

    /// The planes hold the limited-range 4:2:0 conversion (as
    /// `yuv420_converted` states it) of the BGRA image `bgra`, rows
    /// `bgra_stride` bytes apart, at the buffer's dimensions and strides, with
    /// the matrix `matrix_for_height` picks for its height.
    pub open spec fn holds_conversion_of(&self, bgra: Seq<u8>, bgra_stride: int) -> bool {
        yuv420_converted(
            self@.y,
            self@.width as int,
            self@.u,
            self@.width as int / 2,
            self@.v,
            self@.width as int / 2,
            bgra,
            bgra_stride,
            self@.width as int,
            self@.height as int,
            YuvValueRange::Tv,
            matrix_for_height(self@.height as int),
        )
    }

    /// A zeroed buffer for a `width` x `height` frame.
    pub fn new(width: usize, height: usize) -> (res: Self)
        requires
            width * height <= usize::MAX,
        ensures
            res.wf(),
            res@.width == width,
            res@.height == height,
            res@.y == Seq::new(plane_sizes(width as nat, height as nat).0, |i: int| 0u8),
            res@.u == Seq::new(plane_sizes(width as nat, height as nat).1, |i: int| 0u8),
            res@.v == Seq::new(plane_sizes(width as nat, height as nat).1, |i: int| 0u8),
    {
        let (y_size, uv_size) = get_y_and_uv_size(width, height);
        let y = vec![0u8; y_size];
        let u = vec![0u8; uv_size];
        let v = vec![0u8; uv_size];
        let res = YUVBuffer { y, u, v, width, height };
        assert(res@.y =~= Seq::new(y_size as nat, |i: int| 0u8));
        assert(res@.u =~= Seq::new(uv_size as nat, |i: int| 0u8));
        assert(res@.v =~= Seq::new(uv_size as nat, |i: int| 0u8));
        res
    }

    /// Converts a BGRA image with rows `bgra_stride` bytes apart into the
    /// buffer's planes (limited range; BT.709 for frames of 720 rows or
    /// more, BT.601 below). Does nothing for an empty frame.
    pub fn from_bgra(&mut self, bgra: &[u8], bgra_stride: usize)
        requires
            old(self).wf(),
            old(self)@.width == 0 || old(self)@.height == 0 || {
                &&& old(self)@.width % 2 == 0
                &&& old(self)@.height % 2 == 0
                &&& old(self)@.width * 4 <= u32::MAX
                &&& old(self)@.height <= u32::MAX
                &&& bgra_stride <= u32::MAX
                &&& bgra_stride >= 4 * old(self)@.width
                &&& bgra@.len() >= bgra_stride * old(self)@.height
            },
        ensures
            final(self).wf(),
            final(self)@.width == old(self)@.width,
            final(self)@.height == old(self)@.height,
            old(self)@.width == 0 || old(self)@.height == 0 ==> final(self)@ == old(self)@,
            final(self).holds_conversion_of(bgra@, bgra_stride as int),
    {
        if self.width == 0 || self.height == 0 {
            return ;
        }
        let matrix = yuv_matrix_for_height(self.height);
        let (y_stride, u_stride, v_stride) = self.strides();
        let w = self.width;
        let h = self.height;
        proof {
            let wq = (w / 2) as int;
            let hq = (h / 2) as int;
            assert(w == 2 * wq);
            assert(h == 2 * hq);
            assert(w * h == 4 * (wq * hq)) by (nonlinear_arith)
                requires
                    w == 2 * wq,
                    h == 2 * hq,
            ;
            assert((w + 1) / 2 == wq);
            assert((h + 1) / 2 == hq);
            assert(bgra_stride * h >= 0) by (nonlinear_arith);
        }
        bgra_to_yuv420_planes(
            &mut self.y,
            y_stride as u32,
            &mut self.u,
            u_stride as u32,
            &mut self.v,
            v_stride as u32,
            bgra,
            bgra_stride as u32,
            w as u32,
            h as u32,
            YuvValueRange::Tv,
            matrix,
        );
    }

    /// Makes the buffer fit a `width` x `height` frame; planes keep their
    /// leading bytes, grow with zeros or are cut. Nothing changes when the
    /// dimensions are already those.
    pub fn resize(&mut self, width: usize, height: usize)
        requires
            old(self).wf(),
            width * height <= usize::MAX,
        ensures
            final(self).wf(),
            final(self)@.width == width,
            final(self)@.height == height,
            old(self)@.width == width && old(self)@.height == height ==> final(self)@ == old(self)@,
            resized(old(self)@.y, final(self)@.y, plane_sizes(width as nat, height as nat).0),
            resized(old(self)@.u, final(self)@.u, plane_sizes(width as nat, height as nat).1),
            resized(old(self)@.v, final(self)@.v, plane_sizes(width as nat, height as nat).1),
    {
        if self.width == width && self.height == height {
            return ;
        }
        self.width = width;
        self.height = height;
        let (y_size, uv_size) = get_y_and_uv_size(width, height);
        self.y.resize(y_size, 0);
        self.u.resize(uv_size, 0);
        self.v.resize(uv_size, 0);
        proof {
            lemma_resize_zero(old(self)@.y, self@.y, y_size as nat);
            lemma_resize_zero(old(self)@.u, self@.u, uv_size as nat);
            lemma_resize_zero(old(self)@.v, self@.v, uv_size as nat);
        }
    }

    /// Width and height of the frame.
    pub fn dimensions(&self) -> (res: (usize, usize))
        ensures
            res.0 == self@.width,
            res.1 == self@.height,
    {
        (self.width, self.height)
    }

    /// The luma plane.
    pub fn y(&self) -> (res: &[u8])
        ensures
            res@ == self@.y,
    {
        self.y.as_slice()
    }

    /// The blue-difference chroma plane.
    pub fn u(&self) -> (res: &[u8])
        ensures
            res@ == self@.u,
    {
        self.u.as_slice()
    }

    /// The red-difference chroma plane.
    pub fn v(&self) -> (res: &[u8])
        ensures
            res@ == self@.v,
    {
        self.v.as_slice()
    }

    /// Row strides of the planes: the width for luma, half of it for chroma.
    pub fn strides(&self) -> (res: (usize, usize, usize))
        ensures
            res.0 == self@.width,
            res.1 == self@.width / 2,
            res.2 == self@.width / 2,
    {
        (self.width, self.width / 2, self.width / 2)
    }
}

impl Default for YUVBuffer {
    /// An empty buffer for a 0 x 0 frame.
    fn default() -> (res: Self)
        ensures
            res.wf(),
            res@.width == 0,
            res@.height == 0,
    {
        YUVBuffer::new(0, 0)
    }
}

/// `new` is `old` resized to `n` bytes: the common prefix is kept and the
/// bytes added are zero.
pub open spec fn resized(old: Seq<u8>, new: Seq<u8>, n: nat) -> bool {
    &&& new.len() == n
    &&& forall|i: int| 0 <= i < n ==> #[trigger] new[i] == (if i < old.len() { old[i] } else { 0u8 })
}

proof fn lemma_resize_zero(old: Seq<u8>, new: Seq<u8>, n: nat)
    requires
        n <= old.len() ==> new == old.subrange(0, n as int),
        n > old.len() ==> {
            &&& new.len() == n
            &&& new.subrange(0, old.len() as int) == old
            &&& forall|i| #![all_triggers] old.len() <= i < n ==> cloned::<u8>(0u8, new[i])
        },
    ensures
        resized(old, new, n),
{
    if n > old.len() {
        assert forall|i: int| 0 <= i < n implies #[trigger] new[i] == (if i < old.len() {
            old[i]
        } else {
            0u8
        }) by {
            if i < old.len() {
                assert(new.subrange(0, old.len() as int)[i] == new[i]);
            } else {
                assert(cloned::<u8>(0u8, new[i]));
            }
        }
    }
}

} // verus!
