//! Access-layer message opcodes, one to three bytes long.

use vstd::prelude::*;

verus! {

/// An access message opcode.
#[derive(Copy, Clone, Debug, PartialEq, Eq, Structural)]
pub enum Opcode {
    OneOctet(u8),
    TwoOctet(u8, u8),
    ThreeOctet(u8, u8, u8),
}

/// Opcode of the Config Composition Data Get message: 0x80 0x08.
pub fn config_composition_data_get() -> (r: Opcode)
    ensures
        r == Opcode::TwoOctet(0x80, 0x08),
{
    Opcode::TwoOctet(0x80, 0x08)
}

/// Opcode of the Config Composition Data Status message: 0x02.
pub fn config_composition_data_status() -> (r: Opcode)
    ensures
        r == Opcode::OneOctet(0x02),
{
    Opcode::OneOctet(0x02)
}

} // verus!
