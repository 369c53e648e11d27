//! Lower transport PDUs: parsing them out of the transport PDU of a network
//! PDU, and emitting them back into a byte buffer.
//!
//! Layout of the first byte: bit 7 is SEG; for access PDUs bit 6 is AKF and
//! bits 5..0 are the AID; for control PDUs bits 6..0 are the opcode.
//! A segmented PDU then carries three more header bytes:
//! `SZMIC/RFU(1) SeqZero(13) SegO(5) SegN(5)`, followed by the segment.

use vstd::prelude::*;
use crate::buffer::{
    ByteVec, write_chunks, lemma_flatten_two, lemma_flatten_three,
    lemma_write_chunks_append, lemma_write_chunks_fits,
};
use crate::common::{Aid, Ctl, InsufficientBuffer, ParseError};
use crate::network::CleartextNetworkPDU;

verus! {

// ---------------------------------------------------------------------------
// Fields of the wire format
// ---------------------------------------------------------------------------

/// The SEG bit of the first byte.
pub open spec fn seg_flag(b0: u8) -> bool {
    b0 & 0x80 != 0
}

/// A transport PDU that passes the length check of parsing (at least two
/// bytes) and is marked segmented, but is too short to hold the segment
/// header: parsing such bytes reads past their end.
pub open spec fn truncated_segment_header(data: Seq<u8>) -> bool {
    2 <= data.len() < 4 && seg_flag(data[0])
}

/// SeqZero: the low seven bits of byte 1 followed by the high six bits of byte 2.
pub open spec fn seq_zero_of(b1: u8, b2: u8) -> u16 {
    (((b1 & 0x7f) as u16) << 6u16) | ((b2 >> 2u8) as u16)
}

/// SegO: the low two bits of byte 2 followed by the high three bits of byte 3.
pub open spec fn seg_o_of(b2: u8, b3: u8) -> u8 {
    ((b2 & 0x03u8) << 3u8) | (b3 >> 5u8)
}

/// SegN: the low five bits of byte 3.
pub open spec fn seg_n_of(b3: u8) -> u8 {
    b3 & 0x1f
}

/// The most payload bytes each kind of lower PDU holds.
pub open spec fn payload_capacity(control: bool, segmented: bool) -> int {
    if control {
        if segmented { 8 } else { 11 }
    } else {
        if segmented { 12 } else { 15 }
    }
}

/// Where the payload starts: after the first byte, or after the four header
/// bytes of a segment.
pub open spec fn payload_offset(segmented: bool) -> int {
    if segmented { 4 } else { 1 }
}

/// The error that parsing `data` as a lower PDU (control PDU when `control`)
/// gives, or `None` when it succeeds.
pub open spec fn parse_error(control: bool, data: Seq<u8>) -> Option<ParseError> {
    if data.len() < 2 {
        Some(ParseError::InvalidLength)
    } else if control && (data[0] & 0x7f) > 0x0a {
        Some(ParseError::InvalidValue)
    } else if data.len() - payload_offset(seg_flag(data[0])) > payload_capacity(
        control,
        seg_flag(data[0]),
    ) {
        Some(ParseError::InsufficientBuffer)
    } else {
        None
    }
}

// ---------------------------------------------------------------------------
// Types
// ---------------------------------------------------------------------------

/// A lower transport PDU.
#[derive(Clone, Debug, PartialEq, Eq)]
pub enum LowerPDU {
    Access(LowerAccess),
    Control(LowerControl),
}

/// A lower transport PDU carrying (part of) an access message.
#[derive(Clone, Debug, PartialEq, Eq)]
pub struct LowerAccess {
    pub akf: bool,
    pub aid: Aid,
    pub message: LowerAccessMessage,
}

/// A lower transport PDU carrying (part of) a transport control message.
#[derive(Clone, Debug, PartialEq, Eq)]
pub struct LowerControl {
    pub opcode: Opcode,
    pub message: LowerControlMessage,
}

/// Size of the message integrity check of a segmented access message.
#[derive(Copy, Clone, Debug, PartialEq, Eq, Structural)]
pub enum SzMic {
    Bit32,
    Bit64,
}

/// The payload of an access lower PDU.
#[derive(Clone, Debug, PartialEq, Eq)]
pub enum LowerAccessMessage {
    Unsegmented(ByteVec<15>),
    Segmented {
        szmic: SzMic,
        seq_zero: u16,
        seg_o: u8,
        seg_n: u8,
        segment_m: ByteVec<12>,
    },
}

/// The payload of a control lower PDU.
#[derive(Clone, Debug, PartialEq, Eq)]
pub enum LowerControlMessage {
    Unsegmented { parameters: ByteVec<11> },
    Segmented { seq_zero: u16, seg_o: u8, seg_n: u8, segment_m: ByteVec<8> },
}

/// Transport control opcodes, numbered 0x00 to 0x0A in this order.
#[derive(Copy, Clone, Debug, PartialEq, Eq, Structural)]
pub enum Opcode {
    SegmentedAcknowledgement,
    FriendPoll,
    FriendUpdate,
    FriendRequest,
    FriendOffer,
    FriendClear,
    FriendClearConfirm,
    FriendSubscriptionListAdd,
    FriendSubscriptionListRemove,
    FriendSubscriptionListConfirm,
    Heatbeat,
}

/// A segment acknowledgement message.
pub struct SegmentAck {
    seq_zero: u16,
    block_ack: u32,
}

// ---------------------------------------------------------------------------
// Opcode and SzMic
// ---------------------------------------------------------------------------

impl Opcode {
    /// The opcode's number on the wire.
    pub open spec fn value(self) -> u8 {
        match self {
            Opcode::SegmentedAcknowledgement => 0x00,
            Opcode::FriendPoll => 0x01,
            Opcode::FriendUpdate => 0x02,
            Opcode::FriendRequest => 0x03,
            Opcode::FriendOffer => 0x04,
            Opcode::FriendClear => 0x05,
            Opcode::FriendClearConfirm => 0x06,
            Opcode::FriendSubscriptionListAdd => 0x07,
            Opcode::FriendSubscriptionListRemove => 0x08,
            Opcode::FriendSubscriptionListConfirm => 0x09,
            Opcode::Heatbeat => 0x0a,
        }
    }

    /// The opcode numbered `data`, if there is one.
    pub fn parse(data: u8) -> (r: Option<Opcode>)
        ensures
            r is Some <==> data <= 0x0a,
            r matches Some(op) ==> op.value() == data,
    {
        match data {
            0x00 => Some(Self::SegmentedAcknowledgement),
            0x01 => Some(Self::FriendPoll),
            0x02 => Some(Self::FriendUpdate),
            0x03 => Some(Self::FriendRequest),
            0x04 => Some(Self::FriendOffer),
            0x05 => Some(Self::FriendClear),
            0x06 => Some(Self::FriendClearConfirm),
            0x07 => Some(Self::FriendSubscriptionListAdd),
            0x08 => Some(Self::FriendSubscriptionListRemove),
            0x09 => Some(Self::FriendSubscriptionListConfirm),
            0x0A => Some(Self::Heatbeat),
            _ => None,
        }
    }
}

/// Opcode numbers run from 0x00 to 0x0A and each names one opcode, so
/// parsing an opcode's number gives that opcode back.
pub proof fn lemma_opcode_value_injective(a: Opcode, b: Opcode)
    ensures
        a.value() <= 0x0a,
        a.value() == b.value() ==> a == b,
{
}

fn opcode_byte(op: Opcode) -> (b: u8)
    ensures
        b == op.value(),
{
    match op {
        Opcode::SegmentedAcknowledgement => 0x00,
        Opcode::FriendPoll => 0x01,
        Opcode::FriendUpdate => 0x02,
        Opcode::FriendRequest => 0x03,
        Opcode::FriendOffer => 0x04,
        Opcode::FriendClear => 0x05,
        Opcode::FriendClearConfirm => 0x06,
        Opcode::FriendSubscriptionListAdd => 0x07,
        Opcode::FriendSubscriptionListRemove => 0x08,
        Opcode::FriendSubscriptionListConfirm => 0x09,
        Opcode::Heatbeat => 0x0a,
    }
}

/// The SZMIC that a (masked) SZMIC bit stands for.
pub open spec fn szmic_of(bit: u8) -> SzMic {
    if bit != 0 {
        SzMic::Bit64
    } else {
        SzMic::Bit32
    }
}

impl SzMic {
    /// `Bit64` when any bit of `data` is set, else `Bit32`.
    pub fn parse(data: u8) -> (r: Self)
        ensures
            r == szmic_of(data),
    {
        if data != 0 {
            Self::Bit64
        } else {
            Self::Bit32
        }
    }
}

// ---------------------------------------------------------------------------
// What a parsed PDU holds
// ---------------------------------------------------------------------------

impl LowerAccess {
    /// `self` is what the unsegmented access PDU `data` holds.
    pub open spec fn is_unsegmented_of(self, data: Seq<u8>) -> bool {
        &&& self.akf == (data[0] & 0x40 != 0)
        &&& self.aid == Aid(data[0] & 0x3f)
        &&& self.message matches LowerAccessMessage::Unsegmented(payload)
        &&& payload@ == data.subrange(1, data.len() as int)
    }

    /// `self` is what the segmented access PDU `data` holds.
    pub open spec fn is_segmented_of(self, data: Seq<u8>) -> bool {
        &&& self.akf == (data[0] & 0x40 != 0)
        &&& self.aid == Aid(data[0] & 0x3f)
        &&& self.message matches LowerAccessMessage::Segmented {
            szmic,
            seq_zero,
            seg_o,
            seg_n,
            segment_m,
        }
        &&& szmic == szmic_of(data[1] & 0x80)
        &&& seq_zero == seq_zero_of(data[1], data[2])
        &&& seg_o == seg_o_of(data[2], data[3])
        &&& seg_n == seg_n_of(data[3])
        &&& segment_m@ == data.subrange(4, data.len() as int)
    }
}

impl LowerControl {
    /// `self` is what the unsegmented control PDU `data` holds.
    pub open spec fn is_unsegmented_of(self, data: Seq<u8>) -> bool {
        &&& self.opcode.value() == data[0] & 0x7f
        &&& self.message matches LowerControlMessage::Unsegmented { parameters }
        &&& parameters@ == data.subrange(1, data.len() as int)
    }

    /// `self` is what the segmented control PDU `data` holds.
    pub open spec fn is_segmented_of(self, data: Seq<u8>) -> bool {
        &&& self.opcode.value() == data[0] & 0x7f
        &&& self.message matches LowerControlMessage::Segmented {
            seq_zero,
            seg_o,
            seg_n,
            segment_m,
        }
        &&& seq_zero == seq_zero_of(data[1], data[2])
        &&& seg_o == seg_o_of(data[2], data[3])
        &&& seg_n == seg_n_of(data[3])
        &&& segment_m@ == data.subrange(4, data.len() as int)
    }
}

impl LowerPDU {
    /// `self` is what the bytes `data` hold, read as a control PDU when
    /// `control` and as an access PDU otherwise.
    pub open spec fn is_parse_of(self, control: bool, data: Seq<u8>) -> bool {
        if control {
            &&& self matches LowerPDU::Control(c)
            &&& if seg_flag(data[0]) {
                c.is_segmented_of(data)
            } else {
                c.is_unsegmented_of(data)
            }
        } else {
            &&& self matches LowerPDU::Access(a)
            &&& if seg_flag(data[0]) {
                a.is_segmented_of(data)
            } else {
                a.is_unsegmented_of(data)
            }
        }
    }

    /// Whether this is a control PDU.
    pub open spec fn is_control(self) -> bool {
        self is Control
    }

    /// `self` and `other` hold the same fields, their payloads the same bytes.
    pub open spec fn same_as(self, other: LowerPDU) -> bool {
        match (self, other) {
            (LowerPDU::Access(a), LowerPDU::Access(b)) => {
                &&& a.akf == b.akf
                &&& a.aid == b.aid
                &&& a.message.same_as(b.message)
            },
            (LowerPDU::Control(a), LowerPDU::Control(b)) => {
                &&& a.opcode == b.opcode
                &&& a.message.same_as(b.message)
            },
            _ => false,
        }
    }
}

impl LowerAccessMessage {
    /// `self` and `other` hold the same fields, their payloads the same bytes.
    pub open spec fn same_as(self, other: LowerAccessMessage) -> bool {
        match (self, other) {
            (LowerAccessMessage::Unsegmented(a), LowerAccessMessage::Unsegmented(b)) => a@ == b@,
            (
                LowerAccessMessage::Segmented { szmic, seq_zero, seg_o, seg_n, segment_m },
                LowerAccessMessage::Segmented {
                    szmic: szmic2,
                    seq_zero: seq_zero2,
                    seg_o: seg_o2,
                    seg_n: seg_n2,
                    segment_m: segment_m2,
                },
            ) => {
                &&& szmic == szmic2
                &&& seq_zero == seq_zero2
                &&& seg_o == seg_o2
                &&& seg_n == seg_n2
                &&& segment_m@ == segment_m2@
            },
            _ => false,
        }
    }
}

impl LowerControlMessage {
    /// `self` and `other` hold the same fields, their payloads the same bytes.
    pub open spec fn same_as(self, other: LowerControlMessage) -> bool {
        match (self, other) {
            (
                LowerControlMessage::Unsegmented { parameters },
                LowerControlMessage::Unsegmented { parameters: parameters2 },
            ) => parameters@ == parameters2@,
            (
                LowerControlMessage::Segmented { seq_zero, seg_o, seg_n, segment_m },
                LowerControlMessage::Segmented {
                    seq_zero: seq_zero2,
                    seg_o: seg_o2,
                    seg_n: seg_n2,
                    segment_m: segment_m2,
                },
            ) => {
                &&& seq_zero == seq_zero2
                &&& seg_o == seg_o2
                &&& seg_n == seg_n2
                &&& segment_m@ == segment_m2@
            },
            _ => false,
        }
    }
}

/// The bytes fix what they parse to: two PDUs that both are what `data`
/// holds hold the same fields. So `LowerPDU::parse` of a network PDU and
/// `LowerPDU::old_parse` of its CTL flag and transport PDU give the same PDU
/// (both ensure `is_parse_of` of the same flag and bytes) or the same error
/// (both give `parse_error` of them).
pub proof fn lemma_parse_results_agree(control: bool, data: Seq<u8>, p: LowerPDU, q: LowerPDU)
    requires
        p.is_parse_of(control, data),
        q.is_parse_of(control, data),
    ensures
        p.same_as(q),
{
}

// ---------------------------------------------------------------------------
// What an emitted PDU writes
// ---------------------------------------------------------------------------

/// The three header bytes of a segmented access message: SZMIC and
/// SeqZero[12:6]; SeqZero[5:0] and SegO[4:3]; SegO[2:0] and SegN.
pub open spec fn access_segment_header(szmic: SzMic, seq_zero: u16, seg_o: u8, seg_n: u8) -> Seq<u8> {
    seq![
        (if szmic is Bit64 { 0x80u8 } else { 0u8 }) | (((seq_zero & 0x1fc0u16) >> 6u16) as u8),
        (((seq_zero & 0x3fu16) << 2u16) as u8) | ((seg_o >> 3u8) & 0x03u8),
        ((seg_o & 0x07u8) << 5u8) | (seg_n & 0x1fu8),
    ]
}

impl LowerAccessMessage {
    /// The pieces in which the message is written, in order.
    pub open spec fn chunks(self) -> Seq<Seq<u8>> {
        match self {
            LowerAccessMessage::Unsegmented(payload) => seq![payload@],
            LowerAccessMessage::Segmented { szmic, seq_zero, seg_o, seg_n, segment_m } => seq![
                access_segment_header(szmic, seq_zero, seg_o, seg_n),
                segment_m@,
            ],
        }
    }
}

impl LowerAccess {
    /// The first byte: SEG, AKF and the AID.
    pub open spec fn first_byte(self) -> u8 {
        if self.message is Unsegmented {
            if self.akf { self.aid.0 | 0x40 } else { self.aid.0 }
        } else {
            if self.akf { self.aid.0 | 0xc0 } else { self.aid.0 | 0x80 }
        }
    }

    /// The pieces in which the PDU is written, in order.
    pub open spec fn chunks(self) -> Seq<Seq<u8>> {
        seq![seq![self.first_byte()]] + self.message.chunks()
    }
}

impl LowerControl {
    /// The pieces in which the PDU is written, in order. Emitting a
    /// segmented control PDU is not supported: only its opcode byte is
    /// written before emission stops.
    pub open spec fn chunks(self) -> Seq<Seq<u8>> {
        match self.message {
            LowerControlMessage::Unsegmented { parameters } => seq![
                seq![self.opcode.value()],
                parameters@,
            ],
            LowerControlMessage::Segmented { .. } => seq![seq![self.opcode.value()]],
        }
    }

    /// Emitting `self` into a buffer of capacity `cap` holding `len` bytes
    /// reaches the unsupported case.
    pub open spec fn emit_unsupported(self, len: int, cap: int) -> bool {
        self.message is Segmented && len < cap
    }
}

impl LowerPDU {
    /// The pieces in which the PDU is written, in order.
    pub open spec fn chunks(self) -> Seq<Seq<u8>> {
        match self {
            LowerPDU::Access(a) => a.chunks(),
            LowerPDU::Control(c) => c.chunks(),
        }
    }

    /// All bytes the PDU is written as.
    pub open spec fn encoding(self) -> Seq<u8> {
        self.chunks().flatten()
    }

    /// Emitting `self` into a buffer of capacity `cap` holding `len` bytes
    /// reaches the unsupported case.
    pub open spec fn emit_unsupported(self, len: int, cap: int) -> bool {
        self matches LowerPDU::Control(c) && c.emit_unsupported(len, cap)
    }
}

// ---------------------------------------------------------------------------
// Parsing
// ---------------------------------------------------------------------------

impl LowerPDU {
    /// Parses the transport PDU of `network_pdu`, as a control PDU when its
    /// CTL flag says so.
    pub fn parse(network_pdu: &CleartextNetworkPDU) -> (r: Result<Self, ParseError>)
        requires
            !truncated_segment_header(network_pdu.spec_transport_pdu()),
        ensures
            ({
                let control = network_pdu.spec_ctl() == Ctl::Control;
                let data = network_pdu.spec_transport_pdu();
                match r {
                    Ok(pdu) => parse_error(control, data) is None && pdu.is_parse_of(control, data),
                    Err(e) => parse_error(control, data) == Some(e),
                }
            }),
    {
        let data = network_pdu.transport_pdu();
        if data.len() >= 2 {
            let seg = data[0] & 0b10000000 != 0;
            match (network_pdu.ctl(), seg) {
                (Ctl::Control, false) => match Self::parse_unsegmented_control(data) {
                    Ok(c) => Ok(LowerPDU::Control(c)),
                    Err(e) => Err(e),
                },
                (Ctl::Control, true) => match Self::parse_segmented_control(data) {
                    Ok(c) => Ok(LowerPDU::Control(c)),
                    Err(e) => Err(e),
                },
                (Ctl::Access, false) => match Self::parse_unsegmented_access(data) {
                    Ok(a) => Ok(LowerPDU::Access(a)),
                    Err(e) => Err(e),
                },
                (Ctl::Access, true) => match Self::parse_segmented_access(data) {
                    Ok(a) => Ok(LowerPDU::Access(a)),
                    Err(e) => Err(e),
                },
            }
        } else {
            Err(ParseError::InvalidLength)
        }
    }

    /// Parses `data` as a control PDU when `ctl`, else as an access PDU.
    pub fn old_parse(ctl: bool, data: &[u8]) -> (r: Result<Self, ParseError>)
        requires
            !truncated_segment_header(data@),
        ensures
            match r {
                Ok(pdu) => parse_error(ctl, data@) is None && pdu.is_parse_of(ctl, data@),
                Err(e) => parse_error(ctl, data@) == Some(e),
            },
    {
        if data.len() >= 2 {
            let seg = data[0] & 0b10000000 != 0;
            match (ctl, seg) {
                (true, false) => match Self::parse_unsegmented_control(data) {
                    Ok(c) => Ok(LowerPDU::Control(c)),
                    Err(e) => Err(e),
                },
                (true, true) => match Self::parse_segmented_control(data) {
                    Ok(c) => Ok(LowerPDU::Control(c)),
                    Err(e) => Err(e),
                },
                (false, false) => match Self::parse_unsegmented_access(data) {
                    Ok(a) => Ok(LowerPDU::Access(a)),
                    Err(e) => Err(e),
                },
                (false, true) => match Self::parse_segmented_access(data) {
                    Ok(a) => Ok(LowerPDU::Access(a)),
                    Err(e) => Err(e),
                },
            }
        } else {
            Err(ParseError::InvalidLength)
        }
    }

    fn parse_unsegmented_control(data: &[u8]) -> (r: Result<LowerControl, ParseError>)
        requires
            data@.len() >= 1,
        ensures
            match r {
                Ok(c) => (data@[0] & 0x7f) <= 0x0a && data@.len() - 1 <= 11
                    && c.is_unsegmented_of(data@),
                Err(e) => e == (if (data@[0] & 0x7f) > 0x0a {
                    ParseError::InvalidValue
                } else {
                    ParseError::InsufficientBuffer
                }) && ((data@[0] & 0x7f) > 0x0a || data@.len() - 1 > 11),
            },
    {
        let opcode = match Opcode::parse(data[0] & 0b01111111) {
            Some(op) => op,
            None => return Err(ParseError::InvalidValue),
        };
        let parameters = &data[1..data.len()];
        let parameters = match ByteVec::<11>::from_slice(parameters) {
            Ok(v) => v,
            Err(()) => return Err(ParseError::InsufficientBuffer),
        };
        Ok(LowerControl { opcode, message: LowerControlMessage::Unsegmented { parameters } })
    }

    fn parse_segmented_control(data: &[u8]) -> (r: Result<LowerControl, ParseError>)
        requires
            data@.len() >= 4,
        ensures
            match r {
                Ok(c) => (data@[0] & 0x7f) <= 0x0a && data@.len() - 4 <= 8 && c.is_segmented_of(
                    data@,
                ),
                Err(e) => e == (if (data@[0] & 0x7f) > 0x0a {
                    ParseError::InvalidValue
                } else {
                    ParseError::InsufficientBuffer
                }) && ((data@[0] & 0x7f) > 0x0a || data@.len() - 4 > 8),
            },
    {
        let opcode = match Opcode::parse(data[0] & 0b01111111) {
            Some(op) => op,
            None => return Err(ParseError::InvalidValue),
        };
        let seq_zero: u16 = (((data[1] & 0b01111111) as u16) << 6u16) | ((data[2] >> 2u8) as u16);
        let seg_o: u8 = ((data[2] & 0b00000011) << 3u8) | (data[3] >> 5u8);
        let seg_n: u8 = data[3] & 0b00011111;
        let segment_m = &data[4..data.len()];
        let segment_m = match ByteVec::<8>::from_slice(segment_m) {
            Ok(v) => v,
            Err(()) => return Err(ParseError::InsufficientBuffer),
        };
        Ok(
            LowerControl {
                opcode,
                message: LowerControlMessage::Segmented { seq_zero, seg_o, seg_n, segment_m },
            },
        )
    }

    fn parse_unsegmented_access(data: &[u8]) -> (r: Result<LowerAccess, ParseError>)
        requires
            data@.len() >= 1,
        ensures
            match r {
                Ok(a) => data@.len() - 1 <= 15 && a.is_unsegmented_of(data@),
                Err(e) => e == ParseError::InsufficientBuffer && data@.len() - 1 > 15,
            },
    {
        let akf = data[0] & 0b01000000 != 0;
        let aid = data[0] & 0b00111111;
        let payload = match ByteVec::<15>::from_slice(&data[1..data.len()]) {
            Ok(v) => v,
            Err(()) => return Err(ParseError::InsufficientBuffer),
        };
        Ok(LowerAccess { akf, aid: Aid::from(aid), message: LowerAccessMessage::Unsegmented(payload) })
    }

    fn parse_segmented_access(data: &[u8]) -> (r: Result<LowerAccess, ParseError>)
        requires
            data@.len() >= 4,
        ensures
            match r {
                Ok(a) => data@.len() - 4 <= 12 && a.is_segmented_of(data@),
                Err(e) => e == ParseError::InsufficientBuffer && data@.len() - 4 > 12,
            },
    {
        let akf = data[0] & 0b01000000 != 0;
        let aid = data[0] & 0b00111111;
        let szmic = SzMic::parse(data[1] & 0b10000000);
        let seq_zero: u16 = (((data[1] & 0b01111111) as u16) << 6u16) | ((data[2] >> 2u8) as u16);
        let seg_o: u8 = ((data[2] & 0b00000011) << 3u8) | (data[3] >> 5u8);
        let seg_n: u8 = data[3] & 0b00011111;
        let segment_m = &data[4..data.len()];
        let segment_m = match ByteVec::<12>::from_slice(segment_m) {
            Ok(v) => v,
            Err(()) => return Err(ParseError::InsufficientBuffer),
        };
        Ok(
            LowerAccess {
                akf,
                aid: Aid::from(aid),
                message: LowerAccessMessage::Segmented { szmic, seq_zero, seg_o, seg_n, segment_m },
            },
        )
    }
}


// ---------------------------------------------------------------------------
// Emitting
// ---------------------------------------------------------------------------

impl LowerPDU {
    /// Appends the PDU to `xmit`: the first byte, then the payload (with the
    /// segment header of a segmented PDU in front of it). Each piece is
    /// written whole or not at all, and emission stops at the first piece that
    /// does not fit. Emitting a segmented control PDU is not supported: it is
    /// only accepted into a buffer that is already full.
    pub fn emit<const N: usize>(&self, xmit: &mut ByteVec<N>) -> (r: Result<(), InsufficientBuffer>)
        requires
            !self.emit_unsupported(old(xmit)@.len() as int, N as int),
        ensures
            (final(xmit)@, r is Ok) == write_chunks(old(xmit)@, self.chunks(), N as int),
            r is Ok <==> old(xmit)@.len() + self.encoding().len() <= N,
            r is Ok ==> final(xmit)@ == old(xmit)@ + self.encoding(),
            old(xmit)@.len() <= final(xmit)@.len(),
            final(xmit)@ == (old(xmit)@ + self.encoding()).subrange(0, final(xmit)@.len() as int),
    {
        proof {
            lemma_write_chunks_fits(xmit@, self.chunks(), N as int);
        }
        match self {
            LowerPDU::Access(inner) => inner.emit(xmit),
            LowerPDU::Control(inner) => inner.emit(xmit),
        }
    }
}

impl LowerAccess {
    /// Appends the first byte (SEG, AKF, AID) and then the message.
    pub fn emit<const N: usize>(&self, xmit: &mut ByteVec<N>) -> (r: Result<(), InsufficientBuffer>)
        ensures
            (final(xmit)@, r is Ok) == write_chunks(old(xmit)@, self.chunks(), N as int),
            r is Ok <==> old(xmit)@.len() + self.chunks().flatten().len() <= N,
            r is Ok ==> final(xmit)@ == old(xmit)@ + self.chunks().flatten(),
    {
        let ghost start = xmit@;
        let aid = u8::from(self.aid);
        let seg_akf_aid: u8 = match self.message {
            LowerAccessMessage::Unsegmented(_) => {
                if self.akf {
                    aid | 0b01000000
                } else {
                    aid
                }
            },
            LowerAccessMessage::Segmented { .. } => {
                if self.akf {
                    aid | 0b11000000
                } else {
                    aid | 0b10000000
                }
            },
        };
        proof {
            lemma_write_chunks_append(start, seq![seq![seg_akf_aid]], self.message.chunks(), N as int);
            lemma_write_chunks_fits(start, self.chunks(), N as int);
        }
        if xmit.push(seg_akf_aid).is_err() {
            return Err(InsufficientBuffer);
        }
        self.message.emit(xmit)
    }
}

impl LowerControl {
    /// Appends the opcode byte and then the parameters. Emitting a segmented
    /// control PDU is not supported: it is only accepted into a buffer that is
    /// already full.
    pub fn emit<const N: usize>(&self, xmit: &mut ByteVec<N>) -> (r: Result<(), InsufficientBuffer>)
        requires
            !self.emit_unsupported(old(xmit)@.len() as int, N as int),
        ensures
            (final(xmit)@, r is Ok) == write_chunks(old(xmit)@, self.chunks(), N as int),
            r is Ok <==> old(xmit)@.len() + self.chunks().flatten().len() <= N,
            r is Ok ==> final(xmit)@ == old(xmit)@ + self.chunks().flatten(),
    {
        let ghost start = xmit@;
        let op = opcode_byte(self.opcode);
        proof {
            lemma_write_chunks_fits(start, self.chunks(), N as int);
        }
        if xmit.push(op).is_err() {
            return Err(InsufficientBuffer);
        }
        match &self.message {
            LowerControlMessage::Unsegmented { parameters } => {
                proof {
                    lemma_write_chunks_append(start, seq![seq![op]], seq![parameters@], N as int);
                    assert(self.chunks() =~= seq![seq![op]] + seq![parameters@]);
                }
                if xmit.extend_from_slice(parameters.as_slice()).is_err() {
                    return Err(InsufficientBuffer);
                }
            },
            LowerControlMessage::Segmented { .. } => {
                // The precondition leaves out a buffer with room for the opcode.
                proof {
                    assert(false);
                }
                return Err(InsufficientBuffer);
            },
        }
        Ok(())
    }
}

impl LowerAccessMessage {
    /// Appends the payload; for a segment, the three header bytes first.
    pub fn emit<const N: usize>(&self, xmit: &mut ByteVec<N>) -> (r: Result<(), InsufficientBuffer>)
        ensures
            (final(xmit)@, r is Ok) == write_chunks(old(xmit)@, self.chunks(), N as int),
            r is Ok <==> old(xmit)@.len() + self.chunks().flatten().len() <= N,
            r is Ok ==> final(xmit)@ == old(xmit)@ + self.chunks().flatten(),
    {
        let ghost start = xmit@;
        proof {
            lemma_write_chunks_fits(start, self.chunks(), N as int);
        }
        match self {
            LowerAccessMessage::Unsegmented(inner) => {
                if xmit.extend_from_slice(inner.as_slice()).is_err() {
                    return Err(InsufficientBuffer);
                }
                Ok(())
            },
            LowerAccessMessage::Segmented { szmic, seq_zero, seg_o, seg_n, segment_m } => {
                let h0: u8 = match szmic {
                    // small szmic + first 7 bits of seq_zero
                    SzMic::Bit32 => 0b00000000 | ((*seq_zero & 0b1111111000000) >> 6u16) as u8,
                    // big szmic + first 7 bits of seq_zero
                    SzMic::Bit64 => 0b10000000 | ((*seq_zero & 0b1111111000000) >> 6u16) as u8,
                };
                // last 6 bits of seq_zero + first 2 bits of seg_o
                let h1: u8 = ((*seq_zero & 0b111111) << 2u16) as u8 | ((*seg_o >> 3u8) & 0b00000011);
                let h2: u8 = ((*seg_o & 0b00000111) << 5u8) | (*seg_n & 0b00011111);
                let header = [h0, h1, h2];
                let ghost hdr = access_segment_header(*szmic, *seq_zero, *seg_o, *seg_n);
                proof {
                    assert(header@ =~= hdr);
                    lemma_write_chunks_append(start, seq![hdr], seq![segment_m@], N as int);
                    assert(self.chunks() =~= seq![hdr] + seq![segment_m@]);
                }
                if xmit.extend_from_slice(header.as_slice()).is_err() {
                    return Err(InsufficientBuffer);
                }
                if xmit.extend_from_slice(segment_m.as_slice()).is_err() {
                    return Err(InsufficientBuffer);
                }
                Ok(())
            },
        }
    }
}


// ---------------------------------------------------------------------------
// Round trips
// ---------------------------------------------------------------------------

impl LowerPDU {
    /// The PDUs that emission and parsing agree on: the AID takes six bits,
    /// SeqZero thirteen, SegO and SegN five each; payloads are not empty and
    /// fit their kind; and the PDU is not a segmented control PDU, which is
    /// not emitted.
    pub open spec fn round_trips(self) -> bool {
        match self {
            LowerPDU::Access(a) => {
                &&& a.aid.0 < 64
                &&& match a.message {
                    LowerAccessMessage::Unsegmented(payload) => 0 < payload@.len() <= 15,
                    LowerAccessMessage::Segmented { seq_zero, seg_o, seg_n, segment_m, .. } => {
                        &&& seq_zero < 0x2000
                        &&& seg_o < 32
                        &&& seg_n < 32
                        &&& segment_m@.len() <= 12
                    },
                }
            },
            LowerPDU::Control(c) => match c.message {
                LowerControlMessage::Unsegmented { parameters } => 0 < parameters@.len() <= 11,
                LowerControlMessage::Segmented { .. } => false,
            },
        }
    }
}

proof fn lemma_access_first_byte(b0: u8)
    requires
        b0 & 0x80 == 0,
    ensures
        (if b0 & 0x40 != 0 { (b0 & 0x3f) | 0x40 } else { b0 & 0x3f }) == b0,
{
    assert((if b0 & 0x40 != 0 { (b0 & 0x3f) | 0x40 } else { b0 & 0x3f }) == b0) by (bit_vector)
        requires
            b0 & 0x80 == 0,
    ;
}

proof fn lemma_segmented_access_first_byte(b0: u8)
    requires
        b0 & 0x80 != 0,
    ensures
        (if b0 & 0x40 != 0 { (b0 & 0x3f) | 0xc0 } else { (b0 & 0x3f) | 0x80 }) == b0,
{
    assert((if b0 & 0x40 != 0 { (b0 & 0x3f) | 0xc0 } else { (b0 & 0x3f) | 0x80 }) == b0)
        by (bit_vector)
        requires
            b0 & 0x80 != 0,
    ;
}

proof fn lemma_segment_header_bytes(b1: u8, b2: u8, b3: u8)
    ensures
        (if b1 & 0x80 != 0 { 0x80u8 } else { 0u8 }) | (((seq_zero_of(b1, b2) & 0x1fc0u16) >> 6u16) as u8) == b1,
        (((seq_zero_of(b1, b2) & 0x3fu16) << 2u16) as u8) | ((seg_o_of(b2, b3) >> 3u8) & 0x03u8) == b2,
        ((seg_o_of(b2, b3) & 0x07u8) << 5u8) | (seg_n_of(b3) & 0x1fu8) == b3,
{
    assert((if b1 & 0x80 != 0 { 0x80u8 } else { 0u8 }) | ((((((b1 & 0x7f) as u16) << 6u16) | ((b2 >> 2u8) as u16)) & 0x1fc0u16) >> 6u16) as u8 == b1) by (bit_vector);
    assert(((((((b1 & 0x7f) as u16) << 6u16) | ((b2 >> 2u8) as u16)) & 0x3fu16) << 2u16) as u8 | (((((b2 & 0x03u8) << 3u8) | (b3 >> 5u8)) >> 3u8) & 0x03u8) == b2) by (bit_vector);
    assert(((((b2 & 0x03u8) << 3u8) | (b3 >> 5u8)) & 0x07u8) << 5u8 | ((b3 & 0x1f) & 0x1fu8) == b3) by (bit_vector);
}

/// Emitting a parsed PDU writes back exactly the bytes it was parsed from,
/// for every PDU that is emitted at all (segmented control PDUs are not).
pub proof fn lemma_parse_then_emit(control: bool, data: Seq<u8>, pdu: LowerPDU)
    requires
        parse_error(control, data) is None,
        !truncated_segment_header(data),
        pdu.is_parse_of(control, data),
        control ==> !seg_flag(data[0]),
    ensures
        pdu.encoding() == data,
{
    let n = data.len() as int;
    if control {
        let c = pdu->Control_0;
        let params = c.message->parameters;
        lemma_flatten_two(seq![c.opcode.value()], params@);
        let b0 = data[0];
        assert(b0 & 0x7f == b0) by (bit_vector)
            requires
                b0 & 0x80 == 0,
        ;
        assert(data =~= seq![data[0]] + data.subrange(1, n));
    } else {
        let a = pdu->Access_0;
        if seg_flag(data[0]) {
            let (szmic, seq_zero, seg_o, seg_n, segment_m) = match a.message {
                LowerAccessMessage::Segmented { szmic, seq_zero, seg_o, seg_n, segment_m } => (
                    szmic,
                    seq_zero,
                    seg_o,
                    seg_n,
                    segment_m,
                ),
                _ => arbitrary(),
            };
            let hdr = access_segment_header(szmic, seq_zero, seg_o, seg_n);
            lemma_segmented_access_first_byte(data[0]);
            lemma_segment_header_bytes(data[1], data[2], data[3]);
            assert(hdr =~= data.subrange(1, 4));
            assert(a.chunks() =~= seq![seq![a.first_byte()], hdr, segment_m@]);
            lemma_flatten_three(seq![a.first_byte()], hdr, segment_m@);
            assert(data =~= seq![data[0]] + data.subrange(1, 4) + data.subrange(4, n));
        } else {
            let payload = a.message->Unsegmented_0;
            lemma_access_first_byte(data[0]);
            assert(a.chunks() =~= seq![seq![a.first_byte()], payload@]);
            lemma_flatten_two(seq![a.first_byte()], payload@);
            assert(data =~= seq![data[0]] + data.subrange(1, n));
        }
    }
}

/// Parsing the bytes that a PDU is emitted as gives that PDU back, for
/// every PDU whose fields fit their widths (see `round_trips`).
pub proof fn lemma_emit_then_parse(pdu: LowerPDU)
    requires
        pdu.round_trips(),
    ensures
        parse_error(pdu.is_control(), pdu.encoding()) is None,
        !truncated_segment_header(pdu.encoding()),
        pdu.is_parse_of(pdu.is_control(), pdu.encoding()),
{
    match pdu {
        LowerPDU::Control(c) => {
            let params = c.message->parameters;
            let op = c.opcode.value();
            lemma_flatten_two(seq![op], params@);
            let data = pdu.encoding();
            assert(data =~= seq![op] + params@);
            assert(op & 0x80 == 0 && op & 0x7f == op) by (bit_vector)
                requires
                    op <= 0x0a,
            ;
            assert(data.subrange(1, data.len() as int) =~= params@);
        },
        LowerPDU::Access(a) => {
            let aid = a.aid.0;
            let akf = a.akf;
            match a.message {
                LowerAccessMessage::Unsegmented(payload) => {
                    let b0 = a.first_byte();
                    assert(a.chunks() =~= seq![seq![b0], payload@]);
                    lemma_flatten_two(seq![b0], payload@);
                    let data = pdu.encoding();
                    assert(data =~= seq![b0] + payload@);
                    assert(b0 & 0x80 == 0 && (b0 & 0x40 != 0) == akf && b0 & 0x3f == aid)
                        by (bit_vector)
                        requires
                            aid < 64,
                            b0 == (if akf { aid | 0x40 } else { aid }),
                    ;
                    assert(data.subrange(1, data.len() as int) =~= payload@);
                },
                LowerAccessMessage::Segmented { szmic, seq_zero, seg_o, seg_n, segment_m } => {
                    let b0 = a.first_byte();
                    let hdr = access_segment_header(szmic, seq_zero, seg_o, seg_n);
                    assert(a.chunks() =~= seq![seq![b0], hdr, segment_m@]);
                    lemma_flatten_three(seq![b0], hdr, segment_m@);
                    let data = pdu.encoding();
                    assert(data =~= seq![b0, hdr[0], hdr[1], hdr[2]] + segment_m@);
                    assert(b0 & 0x80 != 0 && (b0 & 0x40 != 0) == akf && b0 & 0x3f == aid)
                        by (bit_vector)
                        requires
                            aid < 64,
                            b0 == (if akf { aid | 0xc0 } else { aid | 0x80 }),
                    ;
                    let big: bool = szmic is Bit64;
                    let h0 = hdr[0];
                    let h1 = hdr[1];
                    let h2 = hdr[2];
                    assert((h0 & 0x80 != 0) == big) by (bit_vector)
                        requires
                            h0 == (if big { 0x80u8 } else { 0u8 }) | (((seq_zero & 0x1fc0u16) >> 6u16) as u8),
                    ;
                    assert(seq_zero_of(h0, h1) == seq_zero) by (bit_vector)
                        requires
                            seq_zero < 0x2000,
                            h0 == (if big { 0x80u8 } else { 0u8 }) | (((seq_zero & 0x1fc0u16) >> 6u16) as u8),
                            h1 == (((seq_zero & 0x3fu16) << 2u16) as u8) | ((seg_o >> 3u8) & 0x03u8),
                    ;
                    assert(seg_o_of(h1, h2) == seg_o && seg_n_of(h2) == seg_n) by (bit_vector)
                        requires
                            seg_o < 32,
                            seg_n < 32,
                            h1 == (((seq_zero & 0x3fu16) << 2u16) as u8) | ((seg_o >> 3u8) & 0x03u8),
                            h2 == ((seg_o & 0x07u8) << 5u8) | (seg_n & 0x1fu8),
                    ;
                    assert(data.subrange(4, data.len() as int) =~= segment_m@);
                },
            }
        },
    }
}

/// Emitting the access PDU that `old_parse` gives for `data` writes back
/// exactly `data`.
pub proof fn lemma_access_parse_then_emit(data: Seq<u8>, a: LowerAccess)
    requires
        parse_error(false, data) is None,
        !truncated_segment_header(data),
        LowerPDU::Access(a).is_parse_of(false, data),
    ensures
        a.chunks().flatten() == data,
{
    lemma_parse_then_emit(false, data, LowerPDU::Access(a));
}

// ---------------------------------------------------------------------------
// The wire format, stated in numbers
// ---------------------------------------------------------------------------

/// The transport control opcodes carry their numbers of the Mesh
/// specification: Segmented Acknowledgement 0x00, Friend Poll 0x01, Friend
/// Update 0x02, Friend Request 0x03, Friend Offer 0x04, Friend Clear 0x05,
/// Friend Clear Confirm 0x06, Friend Subscription List Add 0x07, Remove 0x08,
/// Confirm 0x09 and Heartbeat 0x0A. `Opcode::parse` of a number gives the
/// opcode with that number; an unsegmented control PDU is emitted as its
/// opcode's number followed by its parameters.
pub proof fn lemma_opcode_numbers(c: LowerControl)
    ensures
        Opcode::SegmentedAcknowledgement.value() == 0x00,
        Opcode::FriendPoll.value() == 0x01,
        Opcode::FriendUpdate.value() == 0x02,
        Opcode::FriendRequest.value() == 0x03,
        Opcode::FriendOffer.value() == 0x04,
        Opcode::FriendClear.value() == 0x05,
        Opcode::FriendClearConfirm.value() == 0x06,
        Opcode::FriendSubscriptionListAdd.value() == 0x07,
        Opcode::FriendSubscriptionListRemove.value() == 0x08,
        Opcode::FriendSubscriptionListConfirm.value() == 0x09,
        Opcode::Heatbeat.value() == 0x0a,
        c.message is Unsegmented ==> LowerPDU::Control(c).encoding() == seq![c.opcode.value()]
            + c.message->parameters@,
{
    if c.message is Unsegmented {
        lemma_flatten_two(seq![c.opcode.value()], c.message->parameters@);
    }
}

/// What a parsed PDU holds, as numbers read from its bytes: the opcode is the
/// low seven bits of byte 0; the AID its low six bits and AKF bit 6; in a
/// segment, SZMIC is bit 7 of byte 1, SeqZero the low seven bits of byte 1
/// times 64 plus byte 2 over 4, SegO the low two bits of byte 2 times 8 plus
/// byte 3 over 32, SegN byte 3 modulo 32; the payload is what follows the one
/// or four header bytes. Control and access PDUs read these segment fields
/// the same way.
pub proof fn lemma_parsed_fields(control: bool, data: Seq<u8>, pdu: LowerPDU)
    requires
        parse_error(control, data) is None,
        !truncated_segment_header(data),
        pdu.is_parse_of(control, data),
    ensures
        seg_flag(data[0]) <==> data[0] >= 128,
        pdu is Control ==> pdu->Control_0.opcode.value() == data[0] % 128,
        pdu is Access ==> pdu->Access_0.aid.0 == data[0] % 64 && pdu->Access_0.akf == (data[0]
            / 64 % 2 == 1),
        pdu is Control && pdu->Control_0.message is Segmented ==> {
            let m = pdu->Control_0.message;
            &&& data[0] >= 128
            &&& m->Segmented_seq_zero == (data[1] % 128) * 64 + data[2] / 4
            &&& m->Segmented_seg_o == (data[2] % 4) * 8 + data[3] / 32
            &&& m->Segmented_seg_n == data[3] % 32
            &&& m->Segmented_segment_m@ == data.subrange(4, data.len() as int)
        },
        pdu is Control && pdu->Control_0.message is Unsegmented ==> {
            &&& data[0] < 128
            &&& pdu->Control_0.message->parameters@ == data.subrange(1, data.len() as int)
        },
        pdu is Access && pdu->Access_0.message is Segmented ==> {
            let m = pdu->Access_0.message;
            &&& data[0] >= 128
            &&& (m->Segmented_szmic is Bit64 <==> data[1] >= 128)
            &&& m->Segmented_seq_zero == (data[1] % 128) * 64 + data[2] / 4
            &&& m->Segmented_seg_o == (data[2] % 4) * 8 + data[3] / 32
            &&& m->Segmented_seg_n == data[3] % 32
            &&& m->Segmented_segment_m@ == data.subrange(4, data.len() as int)
        },
        pdu is Access && pdu->Access_0.message is Unsegmented ==> {
            &&& data[0] < 128
            &&& pdu->Access_0.message->Unsegmented_0@ == data.subrange(1, data.len() as int)
        },
{
    let b0 = data[0];
    assert((b0 & 0x80 != 0) == (b0 >= 128) && b0 & 0x7f == b0 % 128 && b0 & 0x3f == b0 % 64 && (
    b0 & 0x40 != 0) == (b0 / 64 % 2 == 1)) by (bit_vector);
    if seg_flag(b0) {
        let b1 = data[1];
        let b2 = data[2];
        let b3 = data[3];
        assert(seq_zero_of(b1, b2) == (b1 % 128) * 64 + b2 / 4 && seg_o_of(b2, b3) == (b2 % 4) * 8
            + b3 / 32 && seg_n_of(b3) == b3 % 32 && ((b1 & 0x80 != 0) == (b1 >= 128))) by (bit_vector);
    }
    if control {
        let c = pdu->Control_0;
        if seg_flag(b0) {
            assert(c.is_segmented_of(data));
        } else {
            assert(c.is_unsegmented_of(data));
        }
    } else {
        assert(pdu is Access);
    }
}

/// How an access PDU starts, as a number: 128 for a segment, plus 64 for
/// AKF, plus the AID (for an AID within six bits).
pub proof fn lemma_access_first_byte_number(a: LowerAccess)
    requires
        a.aid.0 < 64,
    ensures
        a.first_byte() == (if a.message is Segmented { 128int } else { 0 }) + (if a.akf {
            64int
        } else {
            0
        }) + a.aid.0,
{
    let aid = a.aid.0;
    assert(aid | 0x40 == aid + 64 && aid | 0xc0 == aid + 192 && aid | 0x80 == aid + 128)
        by (bit_vector)
        requires
            aid < 64,
    ;
}

/// How a segment header of an access PDU is written, as numbers: SZMIC
/// times 128 plus SeqZero over 64; then SeqZero modulo 64 times 4 plus SegO
/// over 8; then SegO modulo 8 times 32 plus SegN (for fields within their
/// widths).
pub proof fn lemma_segment_header_numbers(szmic: SzMic, seq_zero: u16, seg_o: u8, seg_n: u8)
    requires
        seq_zero < 0x2000,
        seg_o < 32,
        seg_n < 32,
    ensures
        access_segment_header(szmic, seq_zero, seg_o, seg_n) == seq![
            ((if szmic is Bit64 { 128int } else { 0 }) + seq_zero / 64) as u8,
            ((seq_zero % 64) * 4 + seg_o / 8) as u8,
            ((seg_o % 8) * 32 + seg_n) as u8,
        ],
{
    let big: bool = szmic is Bit64;
    assert((if big { 0x80u8 } else { 0u8 }) | (((seq_zero & 0x1fc0u16) >> 6u16) as u8) == ((if big {
        128u16
    } else {
        0u16
    }) + seq_zero / 64) as u8) by (bit_vector)
        requires
            seq_zero < 0x2000,
    ;
    assert((((seq_zero & 0x3fu16) << 2u16) as u8) | ((seg_o >> 3u8) & 0x03u8) == ((seq_zero % 64)
        * 4 + (seg_o / 8) as u16) as u8) by (bit_vector)
        requires
            seg_o < 32,
    ;
    assert(((seg_o & 0x07u8) << 5u8) | (seg_n & 0x1fu8) == ((seg_o % 8) * 32 + seg_n) as u8)
        by (bit_vector)
        requires
            seg_o < 32,
            seg_n < 32,
    ;
    assert(access_segment_header(szmic, seq_zero, seg_o, seg_n) =~= seq![
        ((if szmic is Bit64 { 128int } else { 0 }) + seq_zero / 64) as u8,
        ((seq_zero % 64) * 4 + seg_o / 8) as u8,
        ((seg_o % 8) * 32 + seg_n) as u8,
    ]);
}

/// What parsing accepts, in numbers: at least two bytes; for a control PDU
/// an opcode (low seven bits of byte 0) of at most 0x0A; and a payload of at
/// most 15 bytes after the first byte of an unsegmented access PDU, 12 after
/// the four header bytes of a segmented one, 11 after the first byte of an
/// unsegmented control PDU and 8 after the header of a segmented one. A SZMIC
/// bit reads as 64 bits exactly when it is set.
pub proof fn lemma_parse_accepts(control: bool, data: Seq<u8>)
    requires
        !truncated_segment_header(data),
    ensures
        parse_error(control, data) is None <==> {
            &&& data.len() >= 2
            &&& control ==> data[0] % 128 <= 0x0a
            &&& if data[0] >= 128 {
                data.len() - 4 <= (if control { 8int } else { 12 })
            } else {
                data.len() - 1 <= (if control { 11int } else { 15 })
            }
        },
        data.len() < 2 ==> parse_error(control, data) == Some(ParseError::InvalidLength),
        data.len() >= 2 && control && data[0] % 128 > 0x0a ==> parse_error(control, data) == Some(
            ParseError::InvalidValue,
        ),
        szmic_of(0x80) == SzMic::Bit64,
        szmic_of(0) == SzMic::Bit32,
{
    if data.len() >= 2 {
        let b0 = data[0];
        assert((b0 & 0x80 != 0) == (b0 >= 128) && b0 & 0x7f == b0 % 128) by (bit_vector);
    }
}

} // verus!
