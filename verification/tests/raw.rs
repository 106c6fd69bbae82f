use petalo::io::raw::{decode, encode, position};
use petalo::{BoxDim, Index};

#[test]
fn image_round_trip_is_bit_exact() {
    let values: Vec<f32> =
        vec![0.0, -0.0, 1.0, -1.5, 3.4e38, 1.0e-45, f32::MIN_POSITIVE, 0.1, 511.0, f32::INFINITY];
    let words: Vec<u32> = values.iter().map(|v| v.to_bits()).collect();
    let bytes = encode(&words);
    assert_eq!(bytes.len(), 4 * values.len());
    let read = decode(&bytes).unwrap();
    assert_eq!(read, words);
    let back: Vec<f32> = read.iter().map(|w| f32::from_bits(*w)).collect();
    for (a, b) in values.iter().zip(back.iter()) {
        assert_eq!(a.to_bits(), b.to_bits());
    }
}

#[test]
fn image_bytes_are_little_endian() {
    // 1.0 is 0x3f80_0000.
    assert_eq!(encode(&vec![1.0f32.to_bits()]), vec![0x00, 0x00, 0x80, 0x3f]);
    assert_eq!(encode(&vec![0x0403_0201, 0x0807_0605]), vec![1, 2, 3, 4, 5, 6, 7, 8]);
    assert_eq!(decode(&vec![1, 2, 3, 4, 5, 6, 7, 8]), Some(vec![0x0403_0201, 0x0807_0605]));
    assert_eq!(encode(&vec![]), Vec::<u8>::new());
    assert_eq!(decode(&vec![]), Some(vec![]));
}

#[test]
fn broken_image_is_refused() {
    assert_eq!(decode(&vec![1]), None);
    assert_eq!(decode(&vec![1, 2, 3, 4, 5, 6, 7]), None);
}

#[test]
fn x_counts_slowest() {
    let n = BoxDim::new(3, 4, 5);
    assert_eq!(position(&n, &Index::new(0, 0, 0)), 0);
    assert_eq!(position(&n, &Index::new(0, 0, 1)), 1);
    assert_eq!(position(&n, &Index::new(0, 1, 0)), 5);
    assert_eq!(position(&n, &Index::new(1, 0, 0)), 20);
    assert_eq!(position(&n, &Index::new(2, 3, 4)), 59);
}
