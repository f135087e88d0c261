use fpga_programmer::bitstream::{char_remap, decode_bitstream};
use fpga_programmer::device_error::DeviceError;

#[test]
fn underscore_flush_and_whitespace_cutoff() {
    // "AB_CD" flushes twice (underscore, then line end); "12 ignored" is
    // cut short at the space but still flushes the accumulated nibbles.
    let lines: Vec<Vec<u8>> = vec![b"AB_CD".to_vec(), b"12 ignored".to_vec()];
    let words = decode_bitstream(&lines).unwrap();
    assert_eq!(words, vec![0x00ab, 0x00cd, 0x0012]);
}

#[test]
fn char_remap_digits() {
    assert_eq!(char_remap(&b'0'), Some(0));
    assert_eq!(char_remap(&b'9'), Some(9));
    assert_eq!(char_remap(&b'A'), Some(10));
    assert_eq!(char_remap(&b'F'), Some(15));
    assert_eq!(char_remap(&b'a'), Some(10));
    assert_eq!(char_remap(&b'f'), Some(15));
    assert_eq!(char_remap(&b'G'), None);
    assert_eq!(char_remap(&b'g'), None);
    assert_eq!(char_remap(&b'_'), None);
    assert_eq!(char_remap(&b'/'), None);
    assert_eq!(char_remap(&b':'), None);
}

#[test]
fn invalid_character_fails_decoding() {
    let lines: Vec<Vec<u8>> = vec![b"AB".to_vec(), b"1G".to_vec()];
    let err = decode_bitstream(&lines).unwrap_err();
    assert!(matches!(err, DeviceError::OtherError(_)));
    assert_eq!(err.detail().unwrap(), "Invalid character in bitfile");
}

#[test]
fn blank_lines_are_skipped() {
    let lines: Vec<Vec<u8>> = vec![
        b"".to_vec(),
        b"   ".to_vec(),
        b"\t".to_vec(),
        b"FF".to_vec(),
        b"  \t ".to_vec(),
    ];
    let words = decode_bitstream(&lines).unwrap();
    assert_eq!(words, vec![0x00ff]);
}

#[test]
fn surrounding_whitespace_is_trimmed() {
    let lines: Vec<Vec<u8>> = vec![b"  AB  ".to_vec(), b"\tCD\r".to_vec()];
    let words = decode_bitstream(&lines).unwrap();
    assert_eq!(words, vec![0x00ab, 0x00cd]);
}

#[test]
fn trailing_underscore_flushes_a_zero_word() {
    // The underscore flushes 0xAB; the line end flushes the reset
    // accumulator as a zero word.
    let lines: Vec<Vec<u8>> = vec![b"AB_".to_vec()];
    let words = decode_bitstream(&lines).unwrap();
    assert_eq!(words, vec![0x00ab, 0x0000]);
}

#[test]
fn lone_underscore_yields_two_zero_words() {
    let lines: Vec<Vec<u8>> = vec![b"_".to_vec()];
    let words = decode_bitstream(&lines).unwrap();
    assert_eq!(words, vec![0x0000, 0x0000]);
}

#[test]
fn accumulator_overflow_discards_high_bits() {
    // Five nibbles: the first is shifted out past 16 bits.
    let lines: Vec<Vec<u8>> = vec![b"12345".to_vec()];
    let words = decode_bitstream(&lines).unwrap();
    assert_eq!(words, vec![0x2345]);
}

#[test]
fn empty_file_decodes_to_nothing() {
    let lines: Vec<Vec<u8>> = Vec::new();
    let words = decode_bitstream(&lines).unwrap();
    assert_eq!(words, Vec::<u16>::new());
}

#[test]
fn words_come_in_file_order() {
    let lines: Vec<Vec<u8>> = vec![b"1_2_3".to_vec(), b"4".to_vec(), b"5_6".to_vec()];
    let words = decode_bitstream(&lines).unwrap();
    assert_eq!(words, vec![1, 2, 3, 4, 5, 6]);
}
