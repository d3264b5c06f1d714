use frigate_zmq_detector::binary32::{is_less, truncate_to};
use frigate_zmq_detector::detection::{
    assemble_detections, f32_slice_to_le_bytes, zero_detections, DETECTION_FIELDS,
    EXPECTED_OUTPUT_BYTES, MAX_DETECTIONS, MIN_SCORE_BITS,
};

const SAMPLES: [f32; 24] = [
    0.0,
    -0.0,
    1.0,
    -1.0,
    0.4,
    0.39999998,
    0.40000004,
    0.5,
    0.99999994,
    1.5,
    19.0,
    19.999998,
    20.0,
    21.5,
    1.0e-45,
    -1.0e-45,
    1.1754944e-38,
    16777216.0,
    4294967296.0,
    f32::MAX,
    f32::MIN,
    f32::INFINITY,
    f32::NEG_INFINITY,
    f32::NAN,
];

fn bits(values: &[f32]) -> Vec<u32> {
    values.iter().map(|v| v.to_bits()).collect()
}

fn floats(bytes: &[u8]) -> Vec<f32> {
    bytes
        .chunks(4)
        .map(|c| f32::from_le_bytes([c[0], c[1], c[2], c[3]]))
        .collect()
}

#[test]
fn less_agrees_with_the_machine() {
    for a in SAMPLES {
        for b in SAMPLES {
            assert_eq!(is_less(a.to_bits(), b.to_bits()), a < b, "{a} < {b}");
        }
    }
}

#[test]
fn truncation_agrees_with_the_machine() {
    for a in SAMPLES {
        assert_eq!(
            truncate_to(a.to_bits(), MAX_DETECTIONS as u32) as usize,
            (a as usize).min(MAX_DETECTIONS),
            "{a}"
        );
    }
}

#[test]
fn min_score_is_two_fifths() {
    assert_eq!(f32::from_bits(MIN_SCORE_BITS), 0.4);
}

#[test]
fn bytes_are_little_endian() {
    assert_eq!(
        f32_slice_to_le_bytes(&bits(&[1.0, -2.5])),
        vec![0x00, 0x00, 0x80, 0x3f, 0x00, 0x00, 0x20, 0xc0]
    );
    assert_eq!(f32_slice_to_le_bytes(&[]), Vec::<u8>::new());
}

#[test]
fn two_detections_fill_two_rows() {
    let boxes = bits(&[0.1, 0.2, 0.3, 0.4, 0.5, 0.6, 0.7, 0.8, 0.9, 0.9, 0.9, 0.9]);
    let classes = bits(&[17.0, 3.0, 5.0]);
    let scores = bits(&[0.9, 0.4, 0.99]);
    let buffer = assemble_detections(&boxes, &classes, &scores, &bits(&[2.0]));
    assert_eq!(buffer.len(), EXPECTED_OUTPUT_BYTES);
    let table = floats(&buffer);
    assert_eq!(table.len(), MAX_DETECTIONS * DETECTION_FIELDS);
    assert_eq!(&table[0..6], &[17.0, 0.9, 0.1, 0.2, 0.3, 0.4]);
    assert_eq!(&table[6..12], &[3.0, 0.4, 0.5, 0.6, 0.7, 0.8]);
    assert!(table[12..].iter().all(|v| v.to_bits() == 0));
}

#[test]
fn a_low_score_ends_the_detections() {
    let boxes = bits(&[0.5; 12]);
    let classes = bits(&[1.0, 2.0, 3.0]);
    let scores = bits(&[0.8, 0.39, 0.9]);
    let table = floats(&assemble_detections(
        &boxes,
        &classes,
        &scores,
        &bits(&[3.0]),
    ));
    assert_eq!(&table[0..2], &[1.0, 0.8]);
    assert!(table[6..].iter().all(|v| *v == 0.0));
}

#[test]
fn a_nan_score_is_reported() {
    let table = floats(&assemble_detections(
        &bits(&[0.5; 4]),
        &bits(&[7.0]),
        &bits(&[f32::NAN]),
        &bits(&[1.0]),
    ));
    assert_eq!(table[0], 7.0);
    assert!(table[1].is_nan());
}

#[test]
fn short_tensors_read_as_zero() {
    let table = floats(&assemble_detections(
        &bits(&[0.25]),
        &[],
        &bits(&[0.75, 0.5]),
        &bits(&[5.0]),
    ));
    assert_eq!(&table[0..6], &[0.0, 0.75, 0.25, 0.0, 0.0, 0.0]);
    assert_eq!(&table[6..12], &[0.0, 0.5, 0.0, 0.0, 0.0, 0.0]);
    assert!(table[12..].iter().all(|v| *v == 0.0));
}

#[test]
fn at_most_twenty_detections() {
    let boxes = bits(&[0.5; 100]);
    let classes = bits(&[9.0; 25]);
    let scores = bits(&[0.9; 25]);
    let table = floats(&assemble_detections(
        &boxes,
        &classes,
        &scores,
        &bits(&[25.0]),
    ));
    assert_eq!(table.len(), 120);
    assert!(table.chunks(6).all(|row| row[0] == 9.0 && row[5] == 0.5));
}

#[test]
fn nothing_announced_gives_zeros() {
    let scores = bits(&[0.9; 4]);
    for count in [vec![], vec![0.0], vec![0.9], vec![-3.0], vec![f32::NAN]] {
        let buffer = assemble_detections(&bits(&[0.5; 16]), &scores, &scores, &bits(&count));
        assert_eq!(buffer, zero_detections(), "{count:?}");
    }
    assert_eq!(zero_detections(), vec![0u8; 480]);
}
