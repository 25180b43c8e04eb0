use hp::header_block::block_is_safe;

#[test]
fn empty_block_is_safe() {
    assert!(block_is_safe(&[]));
}

#[test]
fn indexed_fields_are_safe() {
    assert!(block_is_safe(&[0x82]));
    assert!(block_is_safe(&[0x82, 0x84, 0x88]));
}

#[test]
fn size_update_that_fits_its_prefix_is_safe() {
    assert!(block_is_safe(&[0x20]));
    assert!(block_is_safe(&[0x3E]));
    assert!(block_is_safe(&[0x20, 0x82]));
}

#[test]
fn size_update_without_its_last_byte_is_not_safe() {
    assert!(!block_is_safe(&[0x3F]));
    assert!(!block_is_safe(&[0x3F, 0x80]));
    assert!(!block_is_safe(&[0x3F, 0xFF, 0xFF, 0xFF]));
    assert!(!block_is_safe(&[0x82, 0x3F]));
}

#[test]
fn size_update_with_continuation_is_safe_once_it_ends() {
    assert!(block_is_safe(&[0x3F, 0x00]));
    assert!(block_is_safe(&[0x3F, 0x80, 0x01]));
    assert!(block_is_safe(&[0x3F, 0x80, 0x80, 0x80, 0x00]));
}

#[test]
fn size_update_of_more_than_five_bytes_is_not_safe() {
    assert!(!block_is_safe(&[0x3F, 0x80, 0x80, 0x80, 0x80]));
    assert!(!block_is_safe(&[0x3F, 0x80, 0x80, 0x80, 0x80, 0x00]));
}

#[test]
fn question_mark_inside_a_string_is_no_size_update() {
    assert!(block_is_safe(&[0x40, 0x01, b'a', 0x01, 0x3F]));
    assert!(block_is_safe(&[0x00, 0x01, 0x3F, 0x01, 0x3F]));
    assert!(block_is_safe(&[0x10, 0x01, 0x3F, 0x01, 0x3F]));
    assert!(block_is_safe(&[0x41, 0x02, 0x3F, 0x3F]));
}

#[test]
fn size_update_behind_a_literal_is_found() {
    assert!(!block_is_safe(&[0x40, 0x01, b'a', 0x01, b'b', 0x3F]));
    assert!(!block_is_safe(&[0x41, 0x01, b'b', 0x3F]));
    assert!(block_is_safe(&[0x41, 0x01, b'b', 0x3F, 0x05]));
}

#[test]
fn walk_ends_where_a_field_cannot_be_read() {
    assert!(block_is_safe(&[0xFF]));
    assert!(block_is_safe(&[0x40, 0x05, b'a']));
    assert!(block_is_safe(&[0x40, 0x01, b'a', 0x7F]));
    assert!(block_is_safe(&[0x40]));
}

#[test]
fn decoder_takes_every_safe_block_of_two_bytes() {
    for first in 0..=255u8 {
        let one = [first];
        if block_is_safe(&one) {
            let _ = hpack::Decoder::new().decode(&one);
        }
        for second in 0..=255u8 {
            let two = [first, second];
            if block_is_safe(&two) {
                let _ = hpack::Decoder::new().decode(&two);
            }
        }
    }
}

#[test]
fn decoder_takes_safe_blocks_that_start_with_a_long_size_update() {
    for second in [0x00u8, 0x7F, 0x80, 0xFF] {
        for third in [0x00u8, 0x3F, 0x7F, 0x80, 0xFF] {
            for fourth in [0x00u8, 0x3F, 0x80, 0xFF] {
                for fifth in [0x00u8, 0x3F, 0x80, 0xFF] {
                    for sixth in [0x00u8, 0x3F, 0x82] {
                        let block = [0x3F, second, third, fourth, fifth, sixth];
                        for len in 0..=block.len() {
                            if block_is_safe(&block[..len]) {
                                let _ = hpack::Decoder::new().decode(&block[..len]);
                            }
                        }
                    }
                }
            }
        }
    }
}
