use minifilter_com::command::{
    build_get_ops_msg, build_irp_msg, build_kill_msg, build_set_pid_msg,
    string_to_commessage_buffer, ComMessage, ComMessageType, BUF_PATH_LEN, COM_MESSAGE_SIZE,
};

#[test]
fn message_type_codes_match_driver_contract() {
    assert_eq!(ComMessageType::MessageAddScanDirectory.code(), 0);
    assert_eq!(ComMessageType::MessageRemScanDirectory.code(), 1);
    assert_eq!(ComMessageType::MessageGetOps.code(), 2);
    assert_eq!(ComMessageType::MessageSetPid.code(), 3);
    assert_eq!(ComMessageType::MessageKillGid.code(), 4);
}

#[test]
fn encode_layout_fixed_offsets() {
    let m = build_irp_msg(ComMessageType::MessageAddScanDirectory, 0x01020304, 0x1122334455667788, "AB")
        .expect("short path must fit");
    let bytes = m.encode();
    assert_eq!(bytes.len(), COM_MESSAGE_SIZE);
    // message type, little-endian, at offset 0
    assert_eq!(&bytes[0..4], &[0, 0, 0, 0]);
    // pid at offset 4
    assert_eq!(&bytes[4..8], &[0x04, 0x03, 0x02, 0x01]);
    // gid at offset 8
    assert_eq!(&bytes[8..16], &[0x88, 0x77, 0x66, 0x55, 0x44, 0x33, 0x22, 0x11]);
    // path at offset 16: 'A', 'B', terminator, zero fill
    assert_eq!(&bytes[16..24], &[0x41, 0, 0x42, 0, 0, 0, 0, 0]);
    assert!(bytes[24..].iter().all(|&b| b == 0));
}

#[test]
fn encode_then_decode_recovers_all_fields() {
    let m = build_irp_msg(ComMessageType::MessageKillGid, 4242, 987654321, "C:\\tmp\\x")
        .expect("short path must fit");
    let bytes = m.encode();
    let back = ComMessage::decode(&bytes).expect("decode of a full-size buffer must succeed");
    assert_eq!(back.mtype, m.mtype);
    assert_eq!(back.pid, m.pid);
    assert_eq!(back.gid, m.gid);
    assert_eq!(back.path, m.path);
}

#[test]
fn decode_refuses_wrong_size() {
    assert!(ComMessage::decode(&[0u8; 100]).is_none());
    assert!(ComMessage::decode(&[0u8; 1057]).is_none());
    assert!(ComMessage::decode(&[]).is_none());
}

#[test]
fn path_of_maximum_length_encodes_without_truncation() {
    // 519 code units plus the terminator exactly fill the 520-unit buffer.
    let path = "a".repeat(BUF_PATH_LEN - 1);
    let buf = string_to_commessage_buffer(&path).expect("maximum-length path must fit");
    assert_eq!(buf.len(), BUF_PATH_LEN);
    assert!(buf[..BUF_PATH_LEN - 1].iter().all(|&u| u == 0x61));
    assert_eq!(buf[BUF_PATH_LEN - 1], 0);
}

#[test]
fn path_one_unit_too_long_fails_fast() {
    let path = "a".repeat(BUF_PATH_LEN);
    assert!(string_to_commessage_buffer(&path).is_none());
    assert!(build_irp_msg(ComMessageType::MessageAddScanDirectory, 1, 1, &path).is_none());
}

#[test]
fn surrogate_pairs_count_as_two_units_for_capacity() {
    // 260 astral characters encode to 520 units: one too many with terminator.
    let path = "\u{1D11E}".repeat(260);
    assert!(string_to_commessage_buffer(&path).is_none());
    let path = "\u{1D11E}".repeat(259);
    let buf = string_to_commessage_buffer(&path).expect("518 units plus terminator must fit");
    assert_eq!(buf[0], 0xD834);
    assert_eq!(buf[1], 0xDD1E);
    assert_eq!(buf[518], 0);
}

#[test]
fn interior_nul_is_refused() {
    assert!(string_to_commessage_buffer("a\0b").is_none());
}

#[test]
fn set_pid_message_carries_the_device_path() {
    let m = build_set_pid_msg(777);
    assert_eq!(m.mtype, 3);
    assert_eq!(m.pid, 777);
    assert_eq!(m.gid, 0);
    let expect: Vec<u16> = "\\Device\\harddiskVolume".encode_utf16().collect();
    assert_eq!(&m.path[..expect.len()], &expect[..]);
    assert!(m.path[expect.len()..].iter().all(|&u| u == 0));
}

#[test]
fn get_ops_message_zeroes_unused_fields() {
    let m = build_get_ops_msg(555);
    assert_eq!(m.mtype, 2);
    assert_eq!(m.pid, 555);
    assert_eq!(m.gid, 0);
    assert_eq!(m.path.len(), BUF_PATH_LEN);
    assert!(m.path.iter().all(|&u| u == 0));
}

#[test]
fn kill_message_carries_only_the_gid() {
    let m = build_kill_msg(12345);
    assert_eq!(m.mtype, 4);
    assert_eq!(m.pid, 0);
    assert_eq!(m.gid, 12345);
    assert!(m.path.iter().all(|&u| u == 0));
    let bytes = m.encode();
    assert_eq!(&bytes[0..4], &[4, 0, 0, 0]);
    assert_eq!(&bytes[8..16], &[0x39, 0x30, 0, 0, 0, 0, 0, 0]);
}
