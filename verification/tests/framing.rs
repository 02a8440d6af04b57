use miner_core::framing::{DecodeError, Header, MessageType};

const ALL: [(MessageType, u8); 14] = [
    (MessageType::SetupMiningConnection, 0x00),
    (MessageType::SetupMiningConnectionSuccess, 0x01),
    (MessageType::SetupMiningConnectionError, 0x02),
    (MessageType::OpenChannel, 0x03),
    (MessageType::OpenChannelSuccess, 0x04),
    (MessageType::OpenChannelError, 0x05),
    (MessageType::UpdateChannel, 0x06),
    (MessageType::UpdateChannelError, 0x07),
    (MessageType::NewMiningJob, 0x08),
    (MessageType::SetTarget, 0x09),
    (MessageType::SetNewPrevHash, 0x0a),
    (MessageType::SubmitShares, 0x0b),
    (MessageType::SubmitSharesSuccess, 0x0c),
    (MessageType::SubmitSharesError, 0x0d),
];

#[test]
fn test_header_pack() {
    let expected_bytes = [0x00u8, 0xcc, 0xbb, 0xaa];
    let header = Header::new(MessageType::SetupMiningConnection, 0xaabbcc);
    let header_bytes = header.pack();
    assert_eq!(
        expected_bytes, header_bytes,
        "Packing test header failed, message being \
         serialized: {:#08x?}",
        header
    );
}

/// This test relies on the fact that there is at least one message type identifier (0xff) is
/// not used in the protocol.
#[test]
fn test_unknown_message_type() {
    let broken_header = [0xffu8, 0xaa, 0xbb, 0xcc];
    let header = Header::unpack_from_slice(&broken_header);
    assert!(
        header.is_err(),
        "Unpacking should have failed to non-existing header type, \
         parsed: {:#04x?}, sliced view {:#04x?}",
        header,
        broken_header
    );
}

#[test]
fn unknown_message_type_is_named() {
    assert_eq!(
        Header::unpack_from_slice(&[0xff, 0xaa, 0xbb, 0xcc]),
        Err(DecodeError::UnknownMessageType)
    );
    assert_eq!(Header::unpack(&[0x0e, 0, 0, 0]), Err(DecodeError::UnknownMessageType));
}

#[test]
fn identifiers_are_those_of_the_protocol() {
    for (message, byte) in ALL {
        assert_eq!(message.to_primitive(), byte);
        assert_eq!(MessageType::from_primitive(byte), Some(message));
    }
    for byte in 0x0eu8..=0xff {
        assert_eq!(MessageType::from_primitive(byte), None);
    }
}

#[test]
fn unpack_reads_the_length_low_byte_first() {
    let header = Header::unpack(&[0x0b, 0x01, 0x02, 0x03]).unwrap();
    assert_eq!(header.msg_type(), MessageType::SubmitShares);
    assert_eq!(header.msg_length(), 0x030201);
}

#[test]
fn unpack_gives_back_what_was_packed() {
    for (message, _) in ALL {
        for length in [0usize, 1, 0xff, 0x100, 0xffff, 0x1_0000, 0xaabbcc, 0xff_ffff] {
            let header = Header::new(message, length);
            assert_eq!(Header::unpack(&header.pack()), Ok(header));
            assert_eq!(Header::unpack_from_slice(&header.pack()), Ok(header));
        }
    }
}

#[test]
fn pack_gives_back_what_was_unpacked() {
    for (_, byte) in ALL {
        for rest in [[0u8, 0, 0], [0xff, 0xff, 0xff], [0x12, 0x34, 0x56], [0, 0, 1]] {
            let bytes = [byte, rest[0], rest[1], rest[2]];
            assert_eq!(Header::unpack(&bytes).unwrap().pack(), bytes);
        }
    }
}

#[test]
fn longest_message_fits() {
    let header = Header::new(MessageType::NewMiningJob, Header::MAX_LENGTH);
    assert_eq!(header.pack(), [0x08, 0xff, 0xff, 0xff]);
    assert_eq!(header.msg_length(), 0xff_ffff);
    assert_eq!(Header::try_new(MessageType::NewMiningJob, 0xff_ffff), Some(header));
    assert_eq!(Header::try_new(MessageType::OpenChannel, 0), Some(Header::new(MessageType::OpenChannel, 0)));
}

#[test]
fn too_long_message_is_rejected() {
    assert_eq!(Header::try_new(MessageType::NewMiningJob, 0x100_0000), None);
    assert_eq!(Header::try_new(MessageType::SetTarget, usize::MAX), None);
}

#[test]
fn slice_has_to_hold_a_header_exactly() {
    assert_eq!(Header::SIZE, 4);
    assert_eq!(Header::unpack_from_slice(&[]), Err(DecodeError::ShortBuffer));
    assert_eq!(Header::unpack_from_slice(&[0x00, 0x01, 0x02]), Err(DecodeError::ShortBuffer));
    assert_eq!(
        Header::unpack_from_slice(&[0x00, 0x01, 0x02, 0x03, 0x04]),
        Err(DecodeError::LengthOverflow)
    );
    assert_eq!(
        Header::unpack_from_slice(&[0x00, 0x01, 0x02, 0x03]),
        Ok(Header::new(MessageType::SetupMiningConnection, 0x030201))
    );
}
