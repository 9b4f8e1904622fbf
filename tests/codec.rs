use sculptor_core::codec::{ChangeEvent, FormatError};

#[test]
fn encode_puts_tag_then_big_endian_id() {
    let e = ChangeEvent::AvatarChanged { subject: 0x0102030405060708090a0b0c0d0e0f10 };
    let frame = e.encode();
    assert_eq!(frame, vec![2, 1, 2, 3, 4, 5, 6, 7, 8, 9, 10, 11, 12, 13, 14, 15, 16]);
}

#[test]
fn decode_reads_back_encoded_event() {
    for subject in [0u128, 1, 255, 256, u128::MAX, 0xdeadbeef_u128 << 64] {
        let e = ChangeEvent::AvatarChanged { subject };
        assert_eq!(ChangeEvent::decode(&e.encode()), Ok(e));
        assert_eq!(e.subject(), subject);
    }
}

#[test]
fn decode_rejects_empty_frame() {
    assert_eq!(ChangeEvent::decode(&[]), Err(FormatError::Empty));
}

#[test]
fn decode_rejects_unknown_kind() {
    let mut frame = vec![7u8];
    frame.extend_from_slice(&[0u8; 16]);
    assert_eq!(ChangeEvent::decode(&frame), Err(FormatError::UnknownKind { tag: 7 }));
}

#[test]
fn decode_rejects_wrong_payload_length() {
    assert_eq!(
        ChangeEvent::decode(&[2, 1, 2, 3]),
        Err(FormatError::BadLength { expected: 17, found: 4 })
    );
    let mut long = ChangeEvent::AvatarChanged { subject: 9 }.encode();
    long.push(0);
    assert_eq!(
        ChangeEvent::decode(&long),
        Err(FormatError::BadLength { expected: 17, found: 18 })
    );
}
