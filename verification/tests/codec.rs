//! Tensor codec behaviour: little-endian 32-bit round trips.
use mlinference::codec::{bytes_to_floats, floats_to_bytes};

#[test]
fn round_trip_floats() {
    let vals: Vec<f32> = vec![1.0, 2.5, -3.75, 0.0, f32::MIN_POSITIVE, 12345.678, -0.0];
    let words: Vec<u32> = vals.iter().map(|f| f.to_bits()).collect();
    let bytes = floats_to_bytes(&words);
    assert_eq!(bytes.len(), 4 * words.len());
    let back = bytes_to_floats(&bytes).unwrap();
    assert_eq!(words, back);
    let vals_back: Vec<f32> = back.iter().map(|w| f32::from_bits(*w)).collect();
    assert_eq!(vals, vals_back);
}

#[test]
fn round_trip_empty() {
    let bytes = floats_to_bytes(&[]);
    assert!(bytes.is_empty());
    assert_eq!(bytes_to_floats(&bytes).unwrap(), Vec::<u32>::new());
}

#[test]
fn bytes_to_floats_rejects_ragged_buffer() {
    assert!(bytes_to_floats(&[0, 1, 2]).is_err());
    assert!(bytes_to_floats(&[0, 1, 2, 3, 4]).is_err());
    assert!(bytes_to_floats(&[0, 1, 2, 3]).is_ok());
}

#[test]
fn floats_to_bytes_is_little_endian() {
    let one: u32 = 1.0f32.to_bits();
    assert_eq!(floats_to_bytes(&[one]), vec![0, 0, 128, 63]);
    assert_eq!(floats_to_bytes(&[0x0403_0201]), vec![1, 2, 3, 4]);
}

#[test]
fn bytes_to_floats_reads_words_in_order() {
    let buf = vec![1, 2, 3, 4, 5, 6, 7, 8];
    assert_eq!(bytes_to_floats(&buf).unwrap(), vec![0x0403_0201, 0x0807_0605]);
}
