use recorder::avcc::AvccConverter;
use recorder::utils::_detect_h264_format;

fn converted(raw: &[u8]) -> (Vec<u8>, Option<Vec<u8>>, Option<Vec<u8>>) {
    let mut c = AvccConverter::new();
    c.convert(raw);
    let data = c.take_avcc_data();
    (data, c.take_sps(), c.take_pps())
}

#[test]
fn convert_splits_parameter_sets_from_slices() {
    let raw = [
        0, 0, 0, 1, 0x67, 1, 2, 0, 0, 0, 1, 0x68, 3, 0, 0, 1, 0x65, 9, 9, 9,
    ];
    let (data, sps, pps) = converted(&raw);
    assert_eq!(data, vec![0, 0, 0, 4, 0x65, 9, 9, 9]);
    assert_eq!(sps, Some(vec![0x67, 1, 2]));
    assert_eq!(pps, Some(vec![0x68, 3]));
}

#[test]
fn convert_without_start_code_takes_whole_buffer() {
    let (data, sps, pps) = converted(&[0x41, 5, 6]);
    assert_eq!(data, vec![0, 0, 0, 3, 0x41, 5, 6]);
    assert_eq!(sps, None);
    assert_eq!(pps, None);
}

#[test]
fn convert_empty_input_gives_no_data() {
    let (data, sps, pps) = converted(&[]);
    assert!(data.is_empty());
    assert_eq!(sps, None);
    assert_eq!(pps, None);
}

#[test]
fn convert_only_start_codes_gives_no_data() {
    let (data, _, _) = converted(&[0, 0, 0, 1, 0, 0, 1]);
    assert!(data.is_empty());
}

#[test]
fn convert_keeps_trailing_zero_of_a_unit() {
    let (data, _, _) = converted(&[0x41, 0, 0, 0, 0, 1, 0x42]);
    assert_eq!(data, vec![0, 0, 0, 2, 0x41, 0, 0, 0, 0, 1, 0x42]);
}

#[test]
fn convert_three_byte_codes_between_slices() {
    let (data, _, _) = converted(&[0, 0, 1, 0x41, 7, 0, 0, 1, 0x01, 8, 8]);
    assert_eq!(data, vec![0, 0, 0, 2, 0x41, 7, 0, 0, 0, 3, 0x01, 8, 8]);
}

#[test]
fn convert_nal_type_uses_low_five_bits() {
    // 0x27 & 0x1f == 7 (sps), 0x28 & 0x1f == 8 (pps), 0xe5 & 0x1f == 5
    let (data, sps, pps) = converted(&[0, 0, 0, 1, 0x27, 0, 0, 0, 1, 0x28, 0, 0, 0, 1, 0xe5]);
    assert_eq!(data, vec![0, 0, 0, 1, 0xe5]);
    assert_eq!(sps, Some(vec![0x27]));
    assert_eq!(pps, Some(vec![0x28]));
}

#[test]
fn convert_last_parameter_set_wins() {
    let (_, sps, _) = converted(&[0, 0, 1, 0x67, 1, 0, 0, 1, 0x67, 2]);
    assert_eq!(sps, Some(vec![0x67, 2]));
}

#[test]
fn convert_replaces_previous_data_and_keeps_parameter_sets() {
    let mut c = AvccConverter::new();
    c.convert(&[0, 0, 0, 1, 0x67, 1, 0, 0, 0, 1, 0x41, 1]);
    c.convert(&[0, 0, 0, 1, 0x41, 2, 2]);
    assert_eq!(c.take_avcc_data(), vec![0, 0, 0, 3, 0x41, 2, 2]);
    assert_eq!(c.take_sps(), Some(vec![0x67, 1]));
    assert_eq!(c.take_sps(), None);
    assert_eq!(c.take_pps(), None);
}

#[test]
fn take_avcc_data_leaves_empty_buffer() {
    let mut c = AvccConverter::new();
    c.convert(&[0x41, 1]);
    assert_eq!(c.take_avcc_data(), vec![0, 0, 0, 2, 0x41, 1]);
    assert!(c.take_avcc_data().is_empty());
}

#[test]
fn convert_large_unit_length_prefix() {
    let mut raw = vec![0u8, 0, 0, 1, 0x41];
    raw.extend(std::iter::repeat(7u8).take(299));
    let (data, _, _) = converted(&raw);
    assert_eq!(&data[0..4], &[0, 0, 1, 44]);
    assert_eq!(data.len(), 304);
}

#[test]
fn annex_b_stream_reads_back_as_its_units() {
    let units: Vec<Vec<u8>> = vec![vec![0x41, 0, 2], vec![0x65, 3, 3, 3], vec![0x01]];
    let mut raw = Vec::new();
    for u in &units {
        raw.extend_from_slice(&[0, 0, 0, 1]);
        raw.extend_from_slice(u);
    }
    let (data, _, _) = converted(&raw);
    let mut expected = Vec::new();
    for u in &units {
        expected.extend_from_slice(&(u.len() as u32).to_be_bytes());
        expected.extend_from_slice(u);
    }
    assert_eq!(data, expected);
}

#[test]
fn detect_annex_b_four_byte() {
    assert_eq!(_detect_h264_format(&[0, 0, 0, 1, 0x67]), "Annex B (4-byte start code)");
}

#[test]
fn detect_annex_b_three_byte() {
    assert_eq!(_detect_h264_format(&[0, 0, 1, 0x67]), "Annex B (3-byte start code)");
}

#[test]
fn detect_avcc() {
    assert_eq!(_detect_h264_format(&[0, 0, 0, 2, 0x41, 1]), "AVCC (4-byte length prefix)");
    let (data, _, _) = converted(&[0, 0, 0, 1, 0x65, 1, 2, 3]);
    assert_eq!(_detect_h264_format(&data), "AVCC (4-byte length prefix)");
}

#[test]
fn detect_unknown() {
    assert_eq!(_detect_h264_format(&[]), "Unknown format.");
    assert_eq!(_detect_h264_format(&[0, 0]), "Unknown format.");
    assert_eq!(_detect_h264_format(&[0, 0, 0, 0, 9]), "Unknown format.");
    assert_eq!(_detect_h264_format(&[0, 0, 0, 3, 0x41, 1]), "Unknown format.");
}

#[test]
fn mixed_start_codes_read_back_as_units() {
    let raw = [0, 0, 1, 0x67, 9, 0, 0, 0, 1, 0x41, 0, 5, 0, 0, 1, 0x65, 7];
    let (data, sps, _) = converted(&raw);
    assert_eq!(data, vec![0, 0, 0, 3, 0x41, 0, 5, 0, 0, 0, 2, 0x65, 7]);
    assert_eq!(sps, Some(vec![0x67, 9]));
}

#[test]
fn process_nal_cases() {
    let mut c = AvccConverter::new();
    c.process_nal(&[]);
    assert!(c.avcc_data.is_empty());
    c.process_nal(&[0x27, 1]);
    assert_eq!(c.sps, Some(vec![0x27, 1]));
    c.process_nal(&[0x68, 2]);
    assert_eq!(c.pps, Some(vec![0x68, 2]));
    c.process_nal(&[0x41, 3, 4]);
    assert_eq!(c.avcc_data, vec![0, 0, 0, 3, 0x41, 3, 4]);
    assert!(c.avcc_data.len() == 7 && c.sps.is_some());
}
