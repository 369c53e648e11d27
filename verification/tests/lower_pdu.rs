use btmesh::buffer::ByteVec;
use btmesh::common::{Aid, Ctl, InsufficientBuffer, ParseError};
use btmesh::lower::{
    LowerAccess, LowerAccessMessage, LowerControl, LowerControlMessage, LowerPDU, Opcode, SzMic,
};
use btmesh::network::CleartextNetworkPDU;

fn bytes<const N: usize>(data: &[u8]) -> ByteVec<N> {
    ByteVec::from_slice(data).unwrap()
}

fn emitted(pdu: &LowerPDU) -> Vec<u8> {
    let mut xmit: ByteVec<16> = ByteVec::new();
    pdu.emit(&mut xmit).unwrap();
    xmit.as_slice().to_vec()
}

#[test]
fn opcode_parse_known_values() {
    assert_eq!(Opcode::parse(0x00), Some(Opcode::SegmentedAcknowledgement));
    assert_eq!(Opcode::parse(0x03), Some(Opcode::FriendRequest));
    assert_eq!(Opcode::parse(0x0A), Some(Opcode::Heatbeat));
    assert_eq!(Opcode::parse(0x0B), None);
    assert_eq!(Opcode::parse(0x7F), None);
}

#[test]
fn szmic_parse_any_bit() {
    assert!(matches!(SzMic::parse(0), SzMic::Bit32));
    assert!(matches!(SzMic::parse(0x80), SzMic::Bit64));
    assert!(matches!(SzMic::parse(1), SzMic::Bit64));
}

#[test]
fn parse_unsegmented_access() {
    let data = [0b0100_0101, 0xAA, 0xBB, 0xCC];
    let pdu = LowerPDU::old_parse(false, &data).unwrap();
    let expected = LowerPDU::Access(LowerAccess {
        akf: true,
        aid: Aid(5),
        message: LowerAccessMessage::Unsegmented(bytes(&[0xAA, 0xBB, 0xCC])),
    });
    assert_eq!(pdu, expected);
    assert_eq!(emitted(&pdu), data.to_vec());
}

#[test]
fn parse_segmented_access() {
    // SEG=1 AKF=0 AID=0x21; SZMIC=1 SeqZero=0x1ABC SegO=3 SegN=7
    let seq_zero: u16 = 0x1ABC;
    let b1 = 0x80 | ((seq_zero >> 6) as u8);
    let b2 = ((seq_zero & 0x3f) as u8) << 2;
    let b3 = (3u8 << 5) | 7;
    let data = [0x80 | 0x21, b1, b2, b3, 1, 2, 3];
    let pdu = LowerPDU::old_parse(false, &data).unwrap();
    let expected = LowerPDU::Access(LowerAccess {
        akf: false,
        aid: Aid(0x21),
        message: LowerAccessMessage::Segmented {
            szmic: SzMic::Bit64,
            seq_zero,
            seg_o: 3,
            seg_n: 7,
            segment_m: bytes(&[1, 2, 3]),
        },
    });
    assert_eq!(pdu, expected);
    assert_eq!(emitted(&pdu), data.to_vec());
}

#[test]
fn parse_unsegmented_control() {
    let data = [0x04, 9, 8, 7];
    let pdu = LowerPDU::old_parse(true, &data).unwrap();
    let expected = LowerPDU::Control(LowerControl {
        opcode: Opcode::FriendOffer,
        message: LowerControlMessage::Unsegmented { parameters: bytes(&[9, 8, 7]) },
    });
    assert_eq!(pdu, expected);
    assert_eq!(emitted(&pdu), data.to_vec());
}

#[test]
fn parse_segmented_control_ignores_rfu_bit() {
    let data = [0x80 | 0x02, 0x80 | 0x01, 0b0000_0110, 0b1110_0001, 0x55];
    let pdu = LowerPDU::old_parse(true, &data).unwrap();
    let expected = LowerPDU::Control(LowerControl {
        opcode: Opcode::FriendUpdate,
        message: LowerControlMessage::Segmented {
            seq_zero: (1 << 6) | 1,
            seg_o: (2 << 3) | 7,
            seg_n: 1,
            segment_m: bytes(&[0x55]),
        },
    });
    assert_eq!(pdu, expected);
}

#[test]
fn parse_errors() {
    assert_eq!(LowerPDU::old_parse(false, &[]), Err(ParseError::InvalidLength));
    assert_eq!(LowerPDU::old_parse(true, &[0x01]), Err(ParseError::InvalidLength));
    assert_eq!(LowerPDU::old_parse(true, &[0x0B, 0]), Err(ParseError::InvalidValue));
    // an unknown opcode is reported before an oversized payload
    assert_eq!(LowerPDU::old_parse(true, &[0x7F; 20]), Err(ParseError::InvalidValue));
    assert_eq!(LowerPDU::old_parse(true, &[0x01; 13]), Err(ParseError::InsufficientBuffer));
    assert!(LowerPDU::old_parse(true, &[0x01; 12]).is_ok());
    assert_eq!(LowerPDU::old_parse(false, &[0x01; 17]), Err(ParseError::InsufficientBuffer));
    assert!(LowerPDU::old_parse(false, &[0x01; 16]).is_ok());
    assert_eq!(LowerPDU::old_parse(false, &[0x80; 17]), Err(ParseError::InsufficientBuffer));
    assert!(LowerPDU::old_parse(false, &[0x80; 16]).is_ok());
    assert_eq!(LowerPDU::old_parse(true, &[0x81; 13]), Err(ParseError::InsufficientBuffer));
    assert!(LowerPDU::old_parse(true, &[0x81; 12]).is_ok());
}

#[test]
fn parse_reads_ctl_of_network_pdu() {
    let data = [0x04, 9];
    let control = CleartextNetworkPDU::new(Ctl::Control, bytes(&data));
    let access = CleartextNetworkPDU::new(Ctl::Access, bytes(&data));
    assert_eq!(LowerPDU::parse(&control), LowerPDU::old_parse(true, &data));
    assert_eq!(LowerPDU::parse(&access), LowerPDU::old_parse(false, &data));
    assert!(matches!(LowerPDU::parse(&access), Ok(LowerPDU::Access(_))));
    assert_eq!(control.ctl(), Ctl::Control);
    assert_eq!(control.transport_pdu(), &data);
}

#[test]
fn emit_into_full_buffer_writes_whole_pieces_only() {
    let pdu = LowerPDU::old_parse(false, &[0x45, 1, 2, 3, 4]).unwrap();
    let mut xmit: ByteVec<3> = ByteVec::new();
    assert_eq!(pdu.emit(&mut xmit), Err(InsufficientBuffer));
    // the first byte fit, the payload did not
    assert_eq!(xmit.as_slice(), &[0x45]);

    let mut full: ByteVec<2> = ByteVec::from_slice(&[7, 7]).unwrap();
    assert_eq!(pdu.emit(&mut full), Err(InsufficientBuffer));
    assert_eq!(full.as_slice(), &[7, 7]);
}

#[test]
fn emit_appends_after_existing_bytes() {
    let pdu = LowerPDU::old_parse(true, &[0x01, 0xEE]).unwrap();
    let mut xmit: ByteVec<4> = ByteVec::from_slice(&[0x10]).unwrap();
    assert_eq!(pdu.emit(&mut xmit), Ok(()));
    assert_eq!(xmit.as_slice(), &[0x10, 0x01, 0xEE]);
}

#[test]
fn emit_segmented_access_header_layout() {
    let pdu = LowerPDU::Access(LowerAccess {
        akf: true,
        aid: Aid(0x3F),
        message: LowerAccessMessage::Segmented {
            szmic: SzMic::Bit32,
            seq_zero: 0x0041,
            seg_o: 5,
            seg_n: 6,
            segment_m: bytes(&[0xDE, 0xAD]),
        },
    });
    let out = emitted(&pdu);
    assert_eq!(out, vec![0xFF, 0x01, 0x04, 0b1010_0110, 0xDE, 0xAD]);
    assert_eq!(LowerPDU::old_parse(false, &out), Ok(pdu));
}

#[test]
fn emit_segmented_access_places_high_seg_o_bits_low_in_byte_two() {
    // SegO = 8: its bits 4..3 go into bits 1..0 of the second header byte.
    let pdu = LowerPDU::Access(LowerAccess {
        akf: false,
        aid: Aid(1),
        message: LowerAccessMessage::Segmented {
            szmic: SzMic::Bit32,
            seq_zero: 0,
            seg_o: 8,
            seg_n: 0,
            segment_m: bytes(&[]),
        },
    });
    let out = emitted(&pdu);
    assert_eq!(out, vec![0x81, 0x00, 0x01, 0x00]);
    assert_eq!(LowerPDU::old_parse(false, &out), Ok(pdu));
}

#[test]
fn emit_segmented_access_message_header() {
    let message = LowerAccessMessage::Segmented {
        szmic: SzMic::Bit64,
        seq_zero: 0x41,
        seg_o: 25,
        seg_n: 31,
        segment_m: bytes(&[0xAA, 0xBB]),
    };
    let mut xmit: ByteVec<32> = ByteVec::new();
    assert_eq!(message.emit(&mut xmit), Ok(()));
    assert_eq!(xmit.as_slice(), &[0x81, 0x07, 0x3F, 0xAA, 0xBB]);
}

#[test]
fn segmented_access_round_trips_for_every_seg_o() {
    for seg_o in 0u8..32 {
        let pdu = LowerPDU::Access(LowerAccess {
            akf: true,
            aid: Aid(0x15),
            message: LowerAccessMessage::Segmented {
                szmic: SzMic::Bit32,
                seq_zero: 0x1FFF,
                seg_o,
                seg_n: 31 - seg_o,
                segment_m: bytes(&[seg_o]),
            },
        });
        let out = emitted(&pdu);
        assert_eq!(LowerPDU::old_parse(false, &out), Ok(pdu));
        assert_eq!(emitted(&LowerPDU::old_parse(false, &out).unwrap()), out);
    }
}

#[test]
fn emit_unsegmented_with_empty_payload_is_not_parseable() {
    let pdu = LowerPDU::Access(LowerAccess {
        akf: false,
        aid: Aid(2),
        message: LowerAccessMessage::Unsegmented(bytes(&[])),
    });
    let out = emitted(&pdu);
    assert_eq!(out, vec![0x02]);
    assert_eq!(LowerPDU::old_parse(false, &out), Err(ParseError::InvalidLength));
}

#[test]
fn emit_segmented_control_into_full_buffer() {
    let pdu = LowerPDU::Control(LowerControl {
        opcode: Opcode::FriendPoll,
        message: LowerControlMessage::Segmented {
            seq_zero: 0,
            seg_o: 0,
            seg_n: 0,
            segment_m: bytes(&[]),
        },
    });
    let mut full: ByteVec<1> = ByteVec::from_slice(&[0]).unwrap();
    assert_eq!(pdu.emit(&mut full), Err(InsufficientBuffer));
}

#[test]
fn lower_access_and_control_emit_directly() {
    let access = LowerAccess {
        akf: false,
        aid: Aid(0x10),
        message: LowerAccessMessage::Unsegmented(bytes(&[1])),
    };
    let mut xmit: ByteVec<8> = ByteVec::new();
    access.emit(&mut xmit).unwrap();
    assert_eq!(xmit.as_slice(), &[0x10, 1]);

    let control = LowerControl {
        opcode: Opcode::Heatbeat,
        message: LowerControlMessage::Unsegmented { parameters: bytes(&[2, 3]) },
    };
    control.emit(&mut xmit).unwrap();
    assert_eq!(xmit.as_slice(), &[0x10, 1, 0x0A, 2, 3]);

    let message = LowerAccessMessage::Unsegmented(bytes(&[4, 5, 6, 7]));
    assert_eq!(message.emit(&mut xmit), Err(InsufficientBuffer));
    assert_eq!(xmit.as_slice(), &[0x10, 1, 0x0A, 2, 3]);
}

#[test]
fn aid_converts_to_and_from_u8() {
    let aid: Aid = 0x2Au8.into();
    assert_eq!(aid, Aid(0x2A));
    let back: u8 = aid.into();
    assert_eq!(back, 0x2A);
}
