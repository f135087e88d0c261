use fpga_programmer::cipher::decode_encrypt_table;
use fpga_programmer::session::DeviceSession;

#[test]
fn decode_table_concrete() {
    let mut table: Vec<u16> = vec![0x1234, 0x0005, 0x00ff, 0x8000];
    decode_encrypt_table(&mut table);
    assert_eq!(table[0], 0xedcb); // !0x1234
    assert_eq!(table[1], 0x0005 ^ 0xedcb);
    assert_eq!(table[2], 0x00ff ^ 0x0005 ^ 0xedcb);
    assert_eq!(table[3], 0x8000 ^ 0x00ff ^ 0x0005 ^ 0xedcb);
}

#[test]
fn decode_table_all_zero() {
    // An all-zero raw table decodes to all ones: word 0 is complemented
    // and every later word XORs with the previous decoded word.
    let mut table: Vec<u16> = vec![0u16; 32];
    decode_encrypt_table(&mut table);
    assert!(table.iter().all(|&w| w == 0xffff));
}

#[test]
fn decode_table_twice_is_not_identity() {
    // The transform is one-way unscrambling, not an involution.
    let original: Vec<u16> = (0..32u16).map(|i| i.wrapping_mul(0x1357).wrapping_add(7)).collect();
    let mut table = original.clone();
    decode_encrypt_table(&mut table);
    decode_encrypt_table(&mut table);
    assert_ne!(table, original);
    // Word 1 of the double transform is the complement of the original.
    assert_eq!(table[1], !original[1]);
}

#[test]
fn encode_decode_roundtrip_with_equal_keys() {
    // When the decode key equals the encode key and the cursors start at
    // the same position, Decode(Encode(seq)) == seq.
    let mut session = DeviceSession::new();
    let key: Vec<u16> = (0..16u16).map(|i| 0x0101u16.wrapping_mul(i) ^ 0xa5a5).collect();
    let mut table = key.clone();
    table.extend_from_slice(&key);
    session.encrypt_table = table;
    session.encode_index = 0;
    session.decode_index = 0;

    let data: Vec<u16> = (0..40u16).map(|i| i.wrapping_mul(0x0beb).wrapping_add(3)).collect();
    let mut buffer = data.clone();
    session.encrypt(&mut buffer);
    assert_ne!(buffer, data);
    session.decrypt(&mut buffer);
    assert_eq!(buffer, data);
}

#[test]
fn cursor_advances_modulo_sixteen() {
    let mut session = DeviceSession::new();
    assert_eq!(session.encode_index, 0);

    // After exactly 16 words the cursor returns to its starting value.
    let mut buffer = vec![0u16; 16];
    session.encrypt(&mut buffer);
    assert_eq!(session.encode_index, 0);

    // After n words it equals n mod 16.
    let mut buffer = vec![0u16; 21];
    session.encrypt(&mut buffer);
    assert_eq!(session.encode_index, 21 % 16);

    // The decode cursor is independent and follows the same rule.
    let mut buffer = vec![0u16; 7];
    session.decrypt(&mut buffer);
    assert_eq!(session.decode_index, 7);
    assert_eq!(session.encode_index, 21 % 16);

    let mut buffer = vec![0u16; 9];
    session.decrypt(&mut buffer);
    assert_eq!(session.decode_index, 0);
}

#[test]
fn cursor_persists_across_calls() {
    // Encoding a sequence in two calls gives the same bytes as in one.
    let mut one = DeviceSession::new();
    let mut two = DeviceSession::new();
    let table: Vec<u16> = (0..32u16).map(|i| i.wrapping_mul(0x2345).wrapping_add(1)).collect();
    one.encrypt_table = table.clone();
    two.encrypt_table = table;

    let data: Vec<u16> = (0..10u16).collect();
    let mut whole = data.clone();
    one.encrypt(&mut whole);

    let mut head: Vec<u16> = data[..4].to_vec();
    let mut tail: Vec<u16> = data[4..].to_vec();
    two.encrypt(&mut head);
    two.encrypt(&mut tail);
    head.extend_from_slice(&tail);
    assert_eq!(head, whole);
    assert_eq!(one.encode_index, two.encode_index);
}
