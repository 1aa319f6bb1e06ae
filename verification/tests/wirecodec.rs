use stroke_engine::wire::decode_wire;
use stroke_engine::wire::serialize_points;

fn bits(values: &[f32]) -> Vec<u32> {
    values.iter().map(|v| v.to_bits()).collect()
}

#[test]
fn wire_layout_single_sample() {
    let points = bits(&[1.0, 2.0, 0.5]);
    let bytes = serialize_points(&points);
    assert_eq!(bytes.len(), 16);
    assert_eq!(&bytes[0..4], &[1, 0, 0, 0]);
    assert_eq!(&bytes[4..8], &1.0f32.to_le_bytes());
    assert_eq!(&bytes[8..12], &2.0f32.to_le_bytes());
    assert_eq!(&bytes[12..16], &0.5f32.to_le_bytes());
}

#[test]
fn wire_header_counts_samples() {
    let points = bits(&[0.0, 0.0, 0.0, 1.0, 1.0, 1.0, 2.0, 2.0, 2.0]);
    let bytes = serialize_points(&points);
    assert_eq!(bytes.len(), 4 + 12 * 3);
    assert_eq!(&bytes[0..4], &[3, 0, 0, 0]);
}

#[test]
fn identity_wire_buffer_for_small_input() {
    let points = bits(&[4.25, -8.5, 0.75]);
    let bytes = serialize_points(&points);
    assert_eq!(&bytes[0..4], &[1, 0, 0, 0]);
    assert_eq!(&bytes[4..8], &4.25f32.to_le_bytes());
    assert_eq!(&bytes[8..12], &(-8.5f32).to_le_bytes());
    assert_eq!(&bytes[12..16], &0.75f32.to_le_bytes());
    assert_eq!(decode_wire(&bytes), Some(points));
}

#[test]
fn round_trip_two_samples() {
    let points = bits(&[0.0, 0.0, 0.0, 10.0, 0.0, 1.0]);
    let bytes = serialize_points(&points);
    assert_eq!(decode_wire(&bytes), Some(points));
}

#[test]
fn decode_rejects_truncated_buffer() {
    let points = bits(&[1.0, 2.0, 0.5, 3.0, 4.0, 0.25]);
    let mut bytes = serialize_points(&points);
    bytes.pop();
    assert_eq!(decode_wire(&bytes), None);
}

#[test]
fn decode_rejects_short_header() {
    assert_eq!(decode_wire(&vec![]), None);
    assert_eq!(decode_wire(&vec![1, 0, 0]), None);
}

#[test]
fn decode_rejects_header_length_mismatch() {
    assert_eq!(decode_wire(&vec![1, 0, 0, 0]), None);
    assert_eq!(decode_wire(&vec![2, 0, 0, 0, 0, 0, 0, 0, 0, 0, 0, 0, 0, 0, 0, 0]), None);
}

#[test]
fn decode_accepts_empty_stroke_buffer() {
    assert_eq!(decode_wire(&vec![0, 0, 0, 0]), Some(vec![]));
}
