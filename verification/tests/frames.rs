use recorder::pipeline::capturer::frame_from_bgra;
use recorder::pipeline::RawFrame;
use recorder::pipeline::RawFrameData;
use recorder::yuv::yuv_matrix_for_height;
use recorder::yuv::YUVBuffer;
use recorder::yuv::YuvMatrix;

#[test]
fn new_buffer_has_420_plane_sizes() {
    let b = YUVBuffer::new(4, 2);
    assert_eq!(b.dimensions(), (4, 2));
    assert_eq!(b.y().len(), 8);
    assert_eq!(b.u().len(), 2);
    assert_eq!(b.v().len(), 2);
    assert!(b.y().iter().all(|&x| x == 0));
    assert_eq!(b.strides(), (4, 2, 2));
}

#[test]
fn default_buffer_is_empty() {
    let b = YUVBuffer::default();
    assert_eq!(b.dimensions(), (0, 0));
    assert!(b.y().is_empty());
}

#[test]
fn resize_grows_and_shrinks_planes() {
    let mut b = YUVBuffer::new(2, 2);
    b.resize(4, 4);
    assert_eq!(b.dimensions(), (4, 4));
    assert_eq!((b.y().len(), b.u().len(), b.v().len()), (16, 4, 4));
    b.resize(2, 2);
    assert_eq!((b.y().len(), b.u().len(), b.v().len()), (4, 1, 1));
}

#[test]
fn matrix_depends_on_height() {
    assert_eq!(yuv_matrix_for_height(719), YuvMatrix::Bt601);
    assert_eq!(yuv_matrix_for_height(720), YuvMatrix::Bt709);
    assert_eq!(yuv_matrix_for_height(1080), YuvMatrix::Bt709);
}

#[test]
fn from_bgra_converts_white_and_black() {
    let mut b = YUVBuffer::new(4, 2);
    let mut bgra = vec![255u8; 4 * 4 * 2];
    for px in 0..4 {
        for c in 0..4 {
            bgra[32 / 2 + px * 4 + c] = if c == 3 { 255 } else { 0 };
        }
    }
    b.from_bgra(&bgra, 16);
    assert_eq!(&b.y()[0..4], &[235, 235, 235, 235]);
    assert_eq!(&b.y()[4..8], &[16, 16, 16, 16]);
    assert_eq!(b.u(), &[128, 128]);
    assert_eq!(b.v(), &[128, 128]);
}

#[test]
fn from_bgra_on_empty_frame_does_nothing() {
    let mut b = YUVBuffer::new(0, 4);
    b.from_bgra(&[], 0);
    assert_eq!(b.dimensions(), (0, 4));
}

#[test]
fn raw_frame_converts_into_resized_buffer() {
    let frame = RawFrame {
        data: RawFrameData::Owned(vec![255u8; 2 * 2 * 4]),
        width: 2,
        height: 2,
        timestamp_ticks: 7,
    };
    let mut b = YUVBuffer::default();
    frame.convert_to_yuv(&mut b);
    assert_eq!(b.dimensions(), (2, 2));
    assert_eq!(b.y(), &[235, 235, 235, 235]);
}

#[test]
fn capture_frame_is_made_even_and_cut() {
    let f = frame_from_bgra(5, 3, vec![1u8; 40], 99).unwrap();
    assert_eq!((f.width, f.height, f.timestamp_ticks), (4, 2, 99));
    let mut b = YUVBuffer::default();
    f.convert_to_yuv(&mut b);
    assert_eq!(b.dimensions(), (4, 2));
}

#[test]
fn capture_frame_with_empty_dimension_is_dropped() {
    assert!(frame_from_bgra(1, 8, vec![0u8; 64], 0).is_none());
    assert!(frame_from_bgra(8, 0, vec![0u8; 64], 0).is_none());
}

#[test]
fn capture_frame_with_too_few_bytes_is_dropped() {
    assert!(frame_from_bgra(4, 2, vec![0u8; 31], 0).is_none());
    assert!(frame_from_bgra(4, 2, vec![0u8; 32], 0).is_some());
}

#[test]
fn capture_dimensions_are_taken_to_16_bits() {
    // 65538 as u16 == 2
    let f = frame_from_bgra(65538, 2, vec![0u8; 16], 0).unwrap();
    assert_eq!((f.width, f.height), (2, 2));
}

#[test]
fn from_bgra_uses_bt601_below_720_rows_and_bt709_from_there() {
    let red = [0u8, 0, 255, 255];
    let mut small = YUVBuffer::new(2, 2);
    small.from_bgra(&red.repeat(4), 8);
    assert_eq!(small.y(), &[82, 82, 82, 82]);
    let mut hd = YUVBuffer::new(2, 720);
    hd.from_bgra(&red.repeat(2 * 720), 8);
    assert!(hd.y().iter().all(|&l| l == 63));
}

#[test]
fn from_bgra_black_frame_is_16_and_128() {
    let mut b = YUVBuffer::new(2, 2);
    b.from_bgra(&[0, 0, 0, 255, 0, 0, 0, 255, 0, 0, 0, 255, 0, 0, 0, 255], 8);
    assert_eq!(b.y(), &[16, 16, 16, 16]);
    assert_eq!(b.u(), &[128]);
    assert_eq!(b.v(), &[128]);
}

#[test]
fn from_bgra_chroma_of_uniform_pairs() {
    // Pure blue in BT.601 limited range: Cb = (112*255 + 32896) >> 8 = 240,
    // Cr = (-18*255 + 32896) >> 8 = 110.
    let blue = [255u8, 0, 0, 255];
    let mut b = YUVBuffer::new(2, 2);
    b.from_bgra(&blue.repeat(4), 8);
    assert_eq!(b.u(), &[240]);
    assert_eq!(b.v(), &[110]);
    // Luma: (25*255 + 4224) >> 8 = 41.
    assert_eq!(b.y(), &[41, 41, 41, 41]);
}

#[test]
fn from_bgra_luma_formula_on_wide_rows() {
    let (w, h) = (64usize, 2usize);
    let mut bgra = Vec::new();
    for row in 0..h {
        for x in 0..w {
            let (bl, g, r) = ((x * 3 + row) as u8, (x * 7) as u8, (255 - x * 2) as u8);
            bgra.extend_from_slice(&[bl, g, r, 255]);
        }
    }
    let mut b = YUVBuffer::new(w, h);
    b.from_bgra(&bgra, 4 * w);
    for row in 0..h {
        for x in 0..w {
            let p = row * 4 * w + 4 * x;
            let (bl, g, r) = (bgra[p] as i32, bgra[p + 1] as i32, bgra[p + 2] as i32);
            let expected = ((66 * r + 129 * g + 25 * bl + 16 * 256 + 128) >> 8).clamp(16, 235);
            assert_eq!(b.y()[row * w + x] as i32, expected);
        }
    }
    for k in 0..w / 2 {
        let cb = |x: usize| {
            let p = 4 * x;
            let (bl, g, r) = (bgra[p] as i32, bgra[p + 1] as i32, bgra[p + 2] as i32);
            ((-38 * r - 74 * g + 112 * bl + 128 * 256 + 128) >> 8).clamp(0, 255)
        };
        let (a, c) = (cb(2 * k), cb(2 * k + 1));
        let u = b.u()[k] as i32;
        assert!(u >= a.min(c) - 1 && u <= a.max(c) + 1);
    }
}
