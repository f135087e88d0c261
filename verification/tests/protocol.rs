use fpga_programmer::device_error::DeviceError;
use fpga_programmer::endpoint::EndPoint;
use fpga_programmer::session::{
    activate_programmer_command, active_command, read_cfg_command, read_key_table_command,
    sync_ready, sync_request,
};
use fpga_programmer::wire::{le_bytes_to_words, words_to_le_bytes};

#[test]
fn command_bytes() {
    assert_eq!(sync_request(), vec![0x00]);
    assert_eq!(active_command(), vec![0x01, 0x00]);
    assert_eq!(read_cfg_command(), vec![0x01, 0x01]);
    assert_eq!(activate_programmer_command(), vec![0x01, 0x02]);
    assert_eq!(read_key_table_command(), vec![0x01, 0x0f]);
}

#[test]
fn sync_ready_on_any_nonzero_status() {
    assert!(!sync_ready(0));
    assert!(sync_ready(1));
    assert!(sync_ready(0x80));
    assert!(sync_ready(0xff));
}

#[test]
fn endpoint_addresses() {
    assert_eq!(EndPoint::EP2.address(), 0x02);
    assert_eq!(EndPoint::EP4.address(), 0x04);
    assert_eq!(EndPoint::EP6.address(), 0x86);
    assert_eq!(EndPoint::EP8.address(), 0x88);
}

#[test]
fn endpoint_directions() {
    assert!(!EndPoint::EP2.is_input());
    assert!(!EndPoint::EP4.is_input());
    assert!(EndPoint::EP6.is_input());
    assert!(EndPoint::EP8.is_input());
}

#[test]
fn words_serialise_low_byte_first() {
    let words: Vec<u16> = vec![0x1234, 0x00ff, 0xab00];
    let bytes = words_to_le_bytes(&words);
    assert_eq!(bytes, vec![0x34, 0x12, 0xff, 0x00, 0x00, 0xab]);
}

#[test]
fn bytes_parse_back_to_words() {
    let bytes: Vec<u8> = vec![0x34, 0x12, 0xff, 0x00, 0x00, 0xab];
    let words = le_bytes_to_words(&bytes);
    assert_eq!(words, vec![0x1234, 0x00ff, 0xab00]);
}

#[test]
fn word_byte_roundtrip() {
    let words: Vec<u16> = (0..300u16).map(|i| i.wrapping_mul(0x4243)).collect();
    let bytes = words_to_le_bytes(&words);
    assert_eq!(bytes.len(), 2 * words.len());
    assert_eq!(le_bytes_to_words(&bytes), words);
}

#[test]
fn error_descriptions() {
    assert_eq!(DeviceError::OpenError.description(), "Device Open error");
    assert_eq!(
        DeviceError::ReadError(String::from("x")).description(),
        "Device read error"
    );
    assert_eq!(
        DeviceError::WriteError(String::from("x")).description(),
        "Device write error"
    );
    assert_eq!(
        DeviceError::CloseError(String::from("x")).description(),
        "Device close error"
    );
    assert_eq!(
        DeviceError::OtherError(String::from("x")).description(),
        "Device other error"
    );
}

#[test]
fn error_details() {
    assert!(DeviceError::OpenError.detail().is_none());
    let err = DeviceError::ReadError(String::from("USB read error"));
    assert_eq!(err.detail().unwrap(), "USB read error");
}
