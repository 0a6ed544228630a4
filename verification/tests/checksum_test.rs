use pingrs::checksum::{calculate, sum_fits, verify};

#[test]
fn test_checksum_even_bytes() {
    let data = vec![
        0x08, 0x00, // type 8, code 0
        0x00, 0x00, // checksum 0 before computing it
        0x00, 0x01, // identifier 1
        0x00, 0x01, // sequence 1
    ];

    let checksum = calculate(&data);
    assert_ne!(checksum, 0);

    let mut data_with_checksum = data.clone();
    data_with_checksum[2] = (checksum >> 8) as u8;
    data_with_checksum[3] = (checksum & 0xff) as u8;

    assert!(verify(&data_with_checksum));
}

#[test]
fn test_checksum_odd_bytes() {
    let data = vec![0x45, 0x00, 0x00, 0x1c, 0x00];
    let checksum = calculate(&data);
    assert_ne!(checksum, 0);
}

#[test]
fn test_verify_invalid_checksum() {
    let data = vec![
        0x08, 0x00, // type 8, code 0
        0xFF, 0xFF, // wrong checksum
        0x00, 0x01, // identifier 1
        0x00, 0x01, // sequence 1
    ];

    assert!(!verify(&data));
}

#[test]
fn checksum_exact_values() {
    // 0x0800 + 0x0000 + 0x0001 + 0x0001 = 0x0802, complemented.
    assert_eq!(calculate(&[0x08, 0x00, 0x00, 0x00, 0x00, 0x01, 0x00, 0x01]), 0xf7fd);
    // A lone last byte is the high half of a word: 0x4500 + 0x001c + 0x0000.
    assert_eq!(calculate(&[0x45, 0x00, 0x00, 0x1c, 0x00]), !0x451cu16);
    // The empty input sums to zero.
    assert_eq!(calculate(&[]), 0xffff);
    // End-around carry: 0xffff + 0x0001 = 0x1_0000 folds to 0x0001.
    assert_eq!(calculate(&[0xff, 0xff, 0x00, 0x01]), 0xfffe);
    // Sums congruent to zero fold to 0xffff, never to zero.
    assert_eq!(calculate(&[0xff, 0xff]), 0x0000);
    assert_eq!(calculate(&[0xff, 0xfe, 0x00, 0x01]), 0x0000);
}

#[test]
fn checksum_field_law_on_odd_length() {
    // Writing the checksum into a zeroed field at an even offset makes the
    // data verify, whatever its length.
    let mut data = vec![0x12, 0x34, 0x00, 0x00, 0xab, 0xcd, 0xef];
    let c = calculate(&data);
    data[2] = (c >> 8) as u8;
    data[3] = (c & 0xff) as u8;
    assert!(verify(&data));
    assert_eq!(calculate(&data), 0);
}

#[test]
fn sum_fits_limits() {
    assert!(sum_fits(&[]));
    assert!(sum_fits(&vec![0xff; 65536]));
    // 65537 words of 0xffff sum to exactly u32::MAX.
    assert!(sum_fits(&vec![0xff; 131074]));
    assert!(!sum_fits(&vec![0xff; 131076]));
    // Zeros never overflow, whatever the length.
    assert!(sum_fits(&vec![0x00; 300000]));
}

#[test]
fn odd_length_equals_zero_padding() {
    let odd = [0x45, 0x00, 0x00, 0x1c, 0x77];
    let padded = [0x45, 0x00, 0x00, 0x1c, 0x77, 0x00];
    assert_eq!(calculate(&odd), calculate(&padded));
}

#[test]
fn zero_checksum_means_all_ones_sum() {
    // 0x1234 + 0xedcb = 0xffff: a nonzero multiple of 0xffff.
    assert!(verify(&[0x12, 0x34, 0xed, 0xcb]));
    // 0xffff + 0xffff = 0x1fffe folds to 0xffff as well.
    assert!(verify(&[0xff, 0xff, 0xff, 0xff]));
    // A zero sum does not verify.
    assert!(!verify(&[0x00, 0x00]));
    assert!(!verify(&[]));
}
