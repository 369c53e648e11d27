//! The part of a decrypted network PDU that the lower transport layer reads.

use vstd::prelude::*;
use crate::buffer::ByteVec;
use crate::common::Ctl;

verus! {

/// A network PDU after decryption: its CTL flag and the lower transport PDU
/// it carries (at most 16 bytes).
#[derive(Clone, Debug, PartialEq, Eq)]
pub struct CleartextNetworkPDU {
    ctl: Ctl,
    transport_pdu: ByteVec<16>,
}

impl CleartextNetworkPDU {
    pub closed spec fn spec_ctl(&self) -> Ctl {
        self.ctl
    }

    pub closed spec fn spec_transport_pdu(&self) -> Seq<u8> {
        self.transport_pdu@
    }

    pub fn new(ctl: Ctl, transport_pdu: ByteVec<16>) -> (r: Self)
        ensures
            r.spec_ctl() == ctl,
            r.spec_transport_pdu() == transport_pdu@,
    {
        CleartextNetworkPDU { ctl, transport_pdu }
    }

    pub fn ctl(&self) -> (r: Ctl)
        ensures
            r == self.spec_ctl(),
    {
        self.ctl
    }

    pub fn transport_pdu(&self) -> (r: &[u8])
        ensures
            r@ == self.spec_transport_pdu(),
    {
        self.transport_pdu.as_slice()
    }
}

} // verus!
