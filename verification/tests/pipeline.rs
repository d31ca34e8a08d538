use recorder::avcc::AvccConverter;
use recorder::pipeline::capturer::frame_from_bgra;
use recorder::pipeline::encoder::frame_from_bitstream;
use recorder::pipeline::encoder::OpenH264Encoder;
use recorder::pipeline::writer::WriterAction;
use recorder::pipeline::writer::WriterState;
use recorder::pipeline::EncodedFrame;
use recorder::pipeline::RawFrame;
use recorder::pipeline::RawFrameData;
use recorder::pipeline::RecordConfig;
use recorder::pipeline::Resolution;
use recorder::utils::_detect_h264_format;

fn frame(ts: u64, sps: Option<Vec<u8>>, pps: Option<Vec<u8>>) -> EncodedFrame {
    EncodedFrame {
        data: vec![0, 0, 0, 1, 0x65],
        width: 1920,
        height: 1080,
        timestamp_ticks: ts,
        is_keyframe: sps.is_some(),
        sps,
        pps,
    }
}

#[test]
fn writer_skips_until_parameter_sets_arrive() {
    let mut w = WriterState::new(30);
    assert_eq!(w.fallback_duration, 3000);
    assert!(matches!(w.accept_frame(frame(10, None, None)), WriterAction::Skip));
    assert!(matches!(w.accept_frame(frame(20, Some(vec![0x67]), None)), WriterAction::Skip));
    assert!(!w.track_added);
    assert_eq!(w.last_frame_ticks, 0);
}

#[test]
fn writer_adds_track_once_and_times_samples() {
    let mut w = WriterState::new(60);
    match w.accept_frame(frame(4500, Some(vec![0x67, 1]), Some(vec![0x68, 2]))) {
        WriterAction::Write { track: Some(t), sample } => {
            assert_eq!((t.width, t.height), (1920, 1080));
            assert_eq!(t.sps, vec![0x67, 1]);
            assert_eq!(t.pps, vec![0x68, 2]);
            assert_eq!(sample.start_time, 4500);
            assert_eq!(sample.duration, 1500);
            assert_eq!(sample.rendering_offset, 0);
            assert!(sample.is_sync);
            assert_eq!(sample.bytes, vec![0, 0, 0, 1, 0x65]);
        }
        _ => panic!("expected a track and a sample"),
    }
    match w.accept_frame(frame(7000, None, None)) {
        WriterAction::Write { track: None, sample } => {
            assert_eq!(sample.duration, 2500);
            assert!(!sample.is_sync);
        }
        _ => panic!("expected a sample"),
    }
    match w.accept_frame(frame(6000, Some(vec![0x67]), Some(vec![0x68]))) {
        WriterAction::Write { track: None, sample } => {
            assert_eq!(sample.duration, 1500);
            assert_eq!(sample.start_time, 6000);
        }
        _ => panic!("expected a sample without a new track"),
    }
    assert_eq!(w.last_frame_ticks, 6000);
}

#[test]
fn writer_first_sample_at_zero_uses_fallback() {
    let mut w = WriterState::new(25);
    w.accept_frame(frame(0, Some(vec![0x67]), Some(vec![0x68])));
    match w.accept_frame(frame(3600, None, None)) {
        WriterAction::Write { sample, .. } => assert_eq!(sample.duration, 3600),
        _ => panic!("expected a sample"),
    }
}

#[test]
fn writer_truncates_track_size_to_16_bits() {
    let mut w = WriterState::new(30);
    let mut f = frame(1, Some(vec![0x67]), Some(vec![0x68]));
    f.width = 65536 + 640;
    match w.accept_frame(f) {
        WriterAction::Write { track: Some(t), .. } => assert_eq!(t.width, 640),
        _ => panic!("expected a track"),
    }
}

#[test]
fn bitstream_without_slices_gives_no_frame_but_keeps_parameter_sets() {
    let mut c = AvccConverter::new();
    let r = frame_from_bitstream(&mut c, &[0, 0, 0, 1, 0x67, 5, 0, 0, 0, 1, 0x68, 6], 2, 2, 0, true);
    assert!(r.is_none());
    let f = frame_from_bitstream(&mut c, &[0, 0, 0, 1, 0x65, 1], 2, 2, 9, false).unwrap();
    assert_eq!(f.data, vec![0, 0, 0, 2, 0x65, 1]);
    assert_eq!(f.sps, Some(vec![0x67, 5]));
    assert_eq!(f.pps, Some(vec![0x68, 6]));
    assert_eq!((f.width, f.height, f.timestamp_ticks, f.is_keyframe), (2, 2, 9, false));
    assert_eq!(c.take_sps(), None);
}

#[test]
fn openh264_encodes_first_frame_as_keyframe_with_parameter_sets() {
    let encoder = openh264::encoder::Encoder::new().unwrap();
    let mut enc = OpenH264Encoder::new(encoder);
    let raw = frame_from_bgra(64, 64, vec![128u8; 64 * 64 * 4], 1234).unwrap();
    let f = enc.encode(raw).unwrap();
    assert_eq!((f.width, f.height, f.timestamp_ticks), (64, 64, 1234));
    assert!(f.is_keyframe);
    assert!(f.sps.is_some());
    assert!(f.pps.is_some());
    assert!(!f.data.is_empty());
    assert_eq!(_detect_h264_format(&f.data), "AVCC (4-byte length prefix)");
    let raw2 = frame_from_bgra(64, 64, vec![100u8; 64 * 64 * 4], 4234).unwrap();
    if let Some(f2) = enc.encode(raw2) {
        assert_eq!(f2.timestamp_ticks, 4234);
        assert!(!f2.data.is_empty());
    }
}

#[test]
fn encoder_drops_empty_frame() {
    let encoder = openh264::encoder::Encoder::new().unwrap();
    let mut enc = OpenH264Encoder::new(encoder);
    assert!(enc.encode(RawFrame {
        data: RawFrameData::Owned(Vec::new()),
        width: 0,
        height: 0,
        timestamp_ticks: 5,
    }).is_none());
}

#[test]
fn record_config_presets() {
    let c = RecordConfig::_720p30("a".to_string());
    assert_eq!((c.fps, c.resolution, c.filename.as_str()), (30, Resolution::_720p, "a"));
    let c = RecordConfig::_720p60("b".to_string());
    assert_eq!((c.fps, c.resolution), (60, Resolution::_720p));
    let c = RecordConfig::_1080p30("c".to_string());
    assert_eq!((c.fps, c.resolution), (30, Resolution::_1080p));
    let c = RecordConfig::_1080p60("d".to_string());
    assert_eq!((c.fps, c.resolution), (60, Resolution::_1080p));
}
