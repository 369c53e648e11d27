//! Small values shared by the mesh layers: the CTL flag of a network PDU,
//! application key identifiers and the error values of parsing and emitting.

use vstd::prelude::*;

verus! {

/// Whether a network PDU carries an access message or a control message.
#[derive(Clone, Copy, Debug, PartialEq, Eq, Structural)]
pub enum Ctl {
    Access,
    Control,
}

/// Application key identifier: the low six bits of the first byte of an
/// access lower transport PDU.
#[derive(Clone, Copy, Debug, PartialEq, Eq, Structural)]
pub struct Aid(pub u8);

impl From<u8> for Aid {
    fn from(val: u8) -> (r: Self) {
        Aid(val)
    }
}

impl vstd::std_specs::convert::FromSpecImpl<u8> for Aid {
    open spec fn obeys_from_spec() -> bool {
        true
    }

    open spec fn from_spec(val: u8) -> Aid {
        Aid(val)
    }
}

impl From<Aid> for u8 {
    fn from(aid: Aid) -> (r: Self) {
        aid.0
    }
}

impl vstd::std_specs::convert::FromSpecImpl<Aid> for u8 {
    open spec fn obeys_from_spec() -> bool {
        true
    }

    open spec fn from_spec(aid: Aid) -> u8 {
        aid.0
    }
}

/// Why a PDU or message could not be parsed.
#[derive(Clone, Copy, Debug, PartialEq, Eq, Structural)]
pub enum ParseError {
    InvalidPDUFormat,
    InvalidValue,
    InvalidLength,
    InsufficientBuffer,
}

/// The output buffer had no room for what was being emitted.
#[derive(Clone, Copy, Debug, PartialEq, Eq, Structural)]
pub struct InsufficientBuffer;

} // verus!
