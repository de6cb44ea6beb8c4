use exepatch::engine::{apply_batch, or16_at, replace, write_at, PatchError};

#[test]
fn replace_should_succeed() {
    let mut data: Vec<u8> = vec![1, 2, 3, 4, 5, 6, 7, 8, 9, 10];
    let find: Vec<u8> = vec![3, 4, 5, 6];
    let repl: Vec<u8> = vec![6, 5, 4, 3];
    let return_val = replace(&mut data, &find, &repl);
    assert_eq!(data, [1u8, 2, 6, 5, 4, 3, 7, 8, 9, 10]);
    assert!(return_val);
}

#[test]
fn replace_should_fail() {
    let mut data: Vec<u8> = vec![1, 2, 3, 4, 5, 6, 7, 8, 9, 10];
    let find: Vec<u8> = vec![6, 6, 6, 6];
    let repl: Vec<u8> = vec![6, 5, 4, 3];
    let return_val = replace(&mut data, &find, &repl);
    assert!(!return_val);
}

#[test]
fn replace_shouldnt_panic() {
    let mut data: Vec<u8> = vec![1, 2];
    let find: Vec<u8> = vec![3, 4, 5, 6];
    let repl: Vec<u8> = vec![6, 5, 4, 3];
    let return_val = replace(&mut data, &find, &repl);
    assert!(!return_val);
}

#[test]
fn replace_missing_pattern_leaves_image_unmodified() {
    let mut data: Vec<u8> = vec![1, 2, 3, 4, 5, 6, 7, 8, 9, 10];
    let find: Vec<u8> = vec![6, 6, 6, 6];
    let repl: Vec<u8> = vec![6, 5, 4, 3];
    assert!(!replace(&mut data, &find, &repl));
    assert_eq!(data, [1u8, 2, 3, 4, 5, 6, 7, 8, 9, 10]);
}

#[test]
fn replace_short_image_leaves_image_unmodified() {
    let mut data: Vec<u8> = vec![1, 2];
    let find: Vec<u8> = vec![3, 4, 5, 6];
    let repl: Vec<u8> = vec![6, 5, 4, 3];
    assert!(!replace(&mut data, &find, &repl));
    assert_eq!(data, [1u8, 2]);
}

#[test]
fn replace_picks_highest_offset_occurrence() {
    let mut data: Vec<u8> = vec![0, 7, 7, 0, 7, 7, 0];
    let find: Vec<u8> = vec![7, 7];
    let repl: Vec<u8> = vec![8, 9];
    assert!(replace(&mut data, &find, &repl));
    assert_eq!(data, [0u8, 7, 7, 0, 8, 9, 0]);
}

#[test]
fn replace_shorter_replacement_keeps_match_tail() {
    let mut data: Vec<u8> = vec![1, 2, 3, 4, 5, 6, 7, 8, 9, 10];
    let find: Vec<u8> = vec![3, 4, 5, 6];
    let repl: Vec<u8> = vec![9, 9];
    assert!(replace(&mut data, &find, &repl));
    assert_eq!(data, [1u8, 2, 9, 9, 5, 6, 7, 8, 9, 10]);
}

#[test]
fn write_at_overwrites_exact_range() {
    let mut image: Vec<u8> = vec![10, 11, 12, 13, 14];
    let bytes: Vec<u8> = vec![20, 21];
    assert_eq!(write_at(&mut image, 1, &bytes), Ok(()));
    assert_eq!(image, [10u8, 20, 21, 13, 14]);
}

#[test]
fn write_at_whole_image() {
    let mut image: Vec<u8> = vec![1, 2, 3];
    let bytes: Vec<u8> = vec![4, 5, 6];
    assert_eq!(write_at(&mut image, 0, &bytes), Ok(()));
    assert_eq!(image, [4u8, 5, 6]);
}

#[test]
fn write_at_out_of_range_leaves_image_unmodified() {
    let mut image: Vec<u8> = vec![10, 11, 12, 13, 14];
    let bytes: Vec<u8> = vec![20, 21];
    assert_eq!(write_at(&mut image, 4, &bytes), Err(PatchError::OutOfRange));
    assert_eq!(image, [10u8, 11, 12, 13, 14]);
}

#[test]
fn write_at_empty_bytes_is_a_no_op() {
    let mut image: Vec<u8> = vec![10, 11];
    let bytes: Vec<u8> = Vec::new();
    assert_eq!(write_at(&mut image, 2, &bytes), Ok(()));
    assert_eq!(image, [10u8, 11]);
}

#[test]
fn or16_sets_bit_in_little_endian_field() {
    let mut image: Vec<u8> = vec![0x00, 0x00];
    assert_eq!(or16_at(&mut image, 0, 0x0020), Ok(()));
    assert_eq!(image, [0x20u8, 0x00]);
    let field = u16::from_le_bytes([image[0], image[1]]);
    assert_eq!(field, 0x0020);
}

#[test]
fn or16_is_idempotent() {
    let mut image: Vec<u8> = vec![0x00, 0x00];
    assert_eq!(or16_at(&mut image, 0, 0x0020), Ok(()));
    assert_eq!(or16_at(&mut image, 0, 0x0020), Ok(()));
    assert_eq!(image, [0x20u8, 0x00]);
}

#[test]
fn or16_preserves_other_bits() {
    let mut image: Vec<u8> = vec![0xff, 0x0f, 0x03];
    assert_eq!(or16_at(&mut image, 1, 0x8020), Ok(()));
    assert_eq!(image, [0xffu8, 0x2f, 0x83]);
}

#[test]
fn or16_out_of_range_leaves_image_unmodified() {
    let mut image: Vec<u8> = vec![0x00];
    assert_eq!(or16_at(&mut image, 0, 0x0020), Err(PatchError::OutOfRange));
    assert_eq!(image, [0x00u8]);
}

#[test]
fn batch_applies_every_range() {
    let mut image: Vec<u8> = vec![0; 10];
    let writes: Vec<(usize, Vec<u8>)> = vec![(0, vec![1, 1]), (4, vec![2]), (8, vec![3, 3])];
    assert_eq!(apply_batch(&mut image, &writes), Ok(()));
    assert_eq!(image, [1u8, 1, 0, 0, 2, 0, 0, 0, 3, 3]);
}

#[test]
fn batch_with_one_bad_range_applies_nothing() {
    let mut image: Vec<u8> = vec![0; 10];
    let writes: Vec<(usize, Vec<u8>)> = vec![
        (0, vec![1, 1]),
        (9, vec![2, 2]),
        (2, vec![3]),
        (4, vec![4]),
        (6, vec![5]),
    ];
    assert_eq!(apply_batch(&mut image, &writes), Err(PatchError::OutOfRange));
    assert_eq!(image, vec![0u8; 10]);
}

#[test]
fn batch_roundtrip_restores_original_image() {
    let original: Vec<u8> = vec![1, 2, 3, 4, 5, 6, 7, 8, 9, 10];
    let mut image = original.clone();
    let writes: Vec<(usize, Vec<u8>)> = vec![(2, vec![90, 91]), (5, vec![70]), (7, vec![60, 61])];
    let mut inverse: Vec<(usize, Vec<u8>)> = Vec::new();
    for (offset, bytes) in writes.iter() {
        inverse.insert(0, (*offset, image[*offset..*offset + bytes.len()].to_vec()));
        assert_eq!(write_at(&mut image, *offset, bytes), Ok(()));
    }
    assert_ne!(image, original);
    for (offset, bytes) in inverse.iter() {
        assert_eq!(write_at(&mut image, *offset, bytes), Ok(()));
    }
    assert_eq!(image, original);
}

#[test]
fn replace_empty_pattern_leaves_image_unchanged() {
    let mut data: Vec<u8> = vec![1, 2];
    let find: Vec<u8> = Vec::new();
    let repl: Vec<u8> = Vec::new();
    assert!(replace(&mut data, &find, &repl));
    assert_eq!(data, [1u8, 2]);
}
