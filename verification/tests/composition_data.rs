use btmesh::buffer::ByteVec;
use btmesh::common::{InsufficientBuffer, ParseError};
use btmesh::composition::{
    CompanyIdentifier, Composition, ElementDescriptor, Features, ModelIdentifier,
    ProductIdentifier, VersionIdentifier,
};
use btmesh::composition_data::{CompositionDataMessage, CompositionStatus};
use btmesh::configuration::ConfigurationMessage;
use btmesh::opcode::{config_composition_data_get, config_composition_data_status, Opcode};

fn sample_composition() -> Composition {
    Composition {
        cid: CompanyIdentifier(0x1234),
        pid: ProductIdentifier(0x5678),
        vid: VersionIdentifier(0x9ABC),
        crpl: 0x0102,
        features: Features { relay: true, proxy: false, friend: true, low_power: false },
        elements: vec![ElementDescriptor {
            loc: 0x0100,
            models: vec![
                ModelIdentifier::SIG(0x0000),
                ModelIdentifier::Vendor(CompanyIdentifier(0x0A0B), 0x0C0D),
                ModelIdentifier::SIG(0x1000),
            ],
        }],
    }
}

#[test]
fn parse_get_takes_exactly_one_byte() {
    assert_eq!(CompositionDataMessage::parse_get(&[3]), Ok(CompositionDataMessage::Get(3)));
    assert_eq!(CompositionDataMessage::parse_get(&[]), Err(ParseError::InvalidLength));
    assert_eq!(CompositionDataMessage::parse_get(&[1, 2]), Err(ParseError::InvalidLength));
}

#[test]
fn opcodes() {
    assert_eq!(CompositionDataMessage::Get(0).opcode(), Opcode::TwoOctet(0x80, 0x08));
    assert_eq!(config_composition_data_get(), Opcode::TwoOctet(0x80, 0x08));
    let status = CompositionStatus::new(0, sample_composition());
    assert_eq!(CompositionDataMessage::Status(status).opcode(), Opcode::OneOctet(0x02));
    assert_eq!(config_composition_data_status(), Opcode::OneOctet(0x02));
}

#[test]
fn emit_get_writes_page() {
    let mut xmit: ByteVec<4> = ByteVec::new();
    CompositionDataMessage::Get(7).emit_parameters(&mut xmit).unwrap();
    assert_eq!(xmit.as_slice(), &[7]);
    let parsed = CompositionDataMessage::parse_get(xmit.as_slice()).unwrap();
    assert_eq!(parsed, CompositionDataMessage::Get(7));
}

#[test]
fn emit_status_layout() {
    let message: CompositionDataMessage = CompositionStatus::new(0, sample_composition()).into();
    let mut xmit: ByteVec<64> = ByteVec::new();
    message.emit_parameters(&mut xmit).unwrap();
    let expected: Vec<u8> = vec![
        0x00, // page
        0x12, 0x34, // CID
        0x56, 0x78, // PID
        0x9A, 0xBC, // VID
        0x01, 0x02, // CRPL
        0x05, 0x00, // features: relay and friend
        0x00, 0x01, // location
        2, 1, // two SIG models, one vendor model
        0x00, 0x00, 0x00, 0x10, // SIG models
        0x0B, 0x0A, 0x0D, 0x0C, // vendor model
    ];
    assert_eq!(xmit.as_slice(), expected.as_slice());
}

#[test]
fn emit_status_into_small_buffer() {
    let message = CompositionDataMessage::Status(CompositionStatus::new(1, sample_composition()));
    let mut xmit: ByteVec<12> = ByteVec::new();
    assert_eq!(message.emit_parameters(&mut xmit), Err(InsufficientBuffer));
    // page, four identifiers and features fit; the element location does not
    assert_eq!(xmit.len(), 11);
}

#[test]
fn status_converts_to_messages() {
    let status = CompositionStatus::new(2, sample_composition());
    let message: ConfigurationMessage = status.clone().into();
    assert_eq!(message, ConfigurationMessage::CompositionData(CompositionDataMessage::Status(status)));
}

#[test]
fn emit_element_with_many_models_when_location_does_not_fit() {
    let mut composition = sample_composition();
    composition.elements = vec![ElementDescriptor { loc: 0, models: vec![ModelIdentifier::SIG(1); 11] }];
    let message = CompositionDataMessage::Status(CompositionStatus::new(0, composition));
    let mut xmit: ByteVec<12> = ByteVec::new();
    assert_eq!(message.emit_parameters(&mut xmit), Err(InsufficientBuffer));
    assert_eq!(xmit.len(), 11);
}

#[test]
fn emit_would_overflow_only_when_a_crowded_element_is_reached() {
    let plain = CompositionDataMessage::Status(CompositionStatus::new(0, sample_composition()));
    assert!(!plain.emit_would_overflow(0, 64));
    assert!(!CompositionDataMessage::Get(0).emit_would_overflow(0, 1));

    let mut composition = sample_composition();
    composition.elements.push(ElementDescriptor { loc: 0, models: vec![ModelIdentifier::Vendor(CompanyIdentifier(1), 2); 11] });
    let crowded = CompositionDataMessage::Status(CompositionStatus::new(0, composition));
    // header 11 bytes, first element 4 + 2 * 2 + 4 = 12 bytes, then the location
    assert!(!crowded.emit_would_overflow(0, 24));
    assert!(crowded.emit_would_overflow(0, 25));
    assert!(!crowded.emit_would_overflow(5, 25));
}
