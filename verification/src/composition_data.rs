//! The Config Composition Data messages: the Get request for a page of a
//! node's composition data, and the Status reply that carries it.

use vstd::prelude::*;
use crate::buffer::{
    ByteVec, write_chunks, lemma_flatten_one, lemma_chunks_of_all_split, lemma_chunks_of_all_take,
    lemma_write_chunks_append, lemma_write_chunks_fits, lemma_write_chunks_stop_prefix,
};
use crate::common::{InsufficientBuffer, ParseError};
use crate::composition::{
    Composition, ElementDescriptor, count_models, element_chunks, elements_chunks, emit_element,
    lemma_element_length, sig_models, u16_be, u16_le, u16_to_be_bytes, vendor_models,
};
use crate::opcode::{Opcode, config_composition_data_get, config_composition_data_status};

verus! {

/// A Config Composition Data message.
#[derive(Clone, Debug, PartialEq, Eq)]
pub enum CompositionDataMessage {
    /// Asks for the page with this number.
    Get(u8),
    /// Carries a page.
    Status(CompositionStatus),
}

/// A page of composition data, as a Status message carries it.
#[derive(Clone, Debug, PartialEq, Eq)]
pub struct CompositionStatus {
    pub page: u8,
    pub data: Composition,
}

/// What parsing the parameters of a Get message gives: the page number when
/// there is exactly one byte.
pub open spec fn parse_get_result(parameters: Seq<u8>) -> Result<CompositionDataMessage, ParseError> {
    if parameters.len() == 1 {
        Ok(CompositionDataMessage::Get(parameters[0]))
    } else {
        Err(ParseError::InvalidLength)
    }
}

impl CompositionDataMessage {
    /// Parses the parameters of a Get message: exactly one byte, the page.
    pub fn parse_get(parameters: &[u8]) -> (r: Result<Self, ParseError>)
        ensures
            r == parse_get_result(parameters@),
    {
        if parameters.len() == 1 {
            Ok(Self::Get(parameters[0]))
        } else {
            Err(ParseError::InvalidLength)
        }
    }

    /// The opcode of each kind of message.
    pub open spec fn spec_opcode(self) -> Opcode {
        match self {
            CompositionDataMessage::Get(_) => Opcode::TwoOctet(0x80, 0x08),
            CompositionDataMessage::Status(_) => Opcode::OneOctet(0x02),
        }
    }

    /// The message's opcode.
    pub fn opcode(&self) -> (r: Opcode)
        ensures
            r == self.spec_opcode(),
    {
        match self {
            Self::Get(_) => config_composition_data_get(),
            Self::Status(_) => config_composition_data_status(),
        }
    }

    /// The pieces in which the parameters are written.
    pub open spec fn chunks(self) -> Seq<Seq<u8>> {
        match self {
            CompositionDataMessage::Get(page) => seq![seq![page]],
            CompositionDataMessage::Status(status) => status.chunks(),
        }
    }

    /// All bytes the parameters are written as.
    pub open spec fn parameters(self) -> Seq<u8> {
        self.chunks().flatten()
    }

    /// Emitting `self` into a buffer of capacity `cap` holding `len` bytes
    /// reaches an element with too many models.
    pub open spec fn emit_overflows(self, len: int, cap: int) -> bool {
        self matches CompositionDataMessage::Status(status) && status.emit_overflows(len, cap)
    }

    /// Whether emitting `self` into a buffer of capacity `cap` holding `len`
    /// bytes reaches an element with too many models: what `emit_parameters`
    /// leaves out.
    pub fn emit_would_overflow(&self, len: usize, cap: usize) -> (r: bool)
        ensures
            r == self.emit_overflows(len as int, cap as int),
    {
        match self {
            CompositionDataMessage::Get(_) => false,
            CompositionDataMessage::Status(status) => status.emit_would_overflow(len, cap),
        }
    }

    /// Appends the message's parameters to `xmit`: the page number of a
    /// Get; the page of a Status.
    pub fn emit_parameters<const N: usize>(&self, xmit: &mut ByteVec<N>) -> (r: Result<
        (),
        InsufficientBuffer,
    >)
        requires
            !self.emit_overflows(old(xmit)@.len() as int, N as int),
        ensures
            (final(xmit)@, r is Ok) == write_chunks(old(xmit)@, self.chunks(), N as int),
            r is Ok <==> old(xmit)@.len() + self.parameters().len() <= N,
            r is Ok ==> final(xmit)@ == old(xmit)@ + self.parameters(),
            old(xmit)@.len() <= final(xmit)@.len(),
            final(xmit)@ == (old(xmit)@ + self.parameters()).subrange(0, final(xmit)@.len() as int),
    {
        let ghost start = xmit@;
        proof {
            lemma_write_chunks_fits(start, self.chunks(), N as int);
        }
        match self {
            CompositionDataMessage::Get(page) => {
                if xmit.push(*page).is_err() {
                    return Err(InsufficientBuffer);
                }
            },
            CompositionDataMessage::Status(inner) => {
                if inner.emit_parameters(xmit).is_err() {
                    return Err(InsufficientBuffer);
                }
            },
        }
        Ok(())
    }
}

/// A Get message is emitted as the one byte that parsing reads it from:
/// parsing its parameters gives it back, and no other parameters parse to it.
pub proof fn lemma_get_round_trip(page: u8, parameters: Seq<u8>)
    ensures
        parse_get_result(CompositionDataMessage::Get(page).parameters()) == Ok::<
            CompositionDataMessage,
            ParseError,
        >(CompositionDataMessage::Get(page)),
        parse_get_result(parameters) == Ok::<CompositionDataMessage, ParseError>(
            CompositionDataMessage::Get(page),
        ) ==> parameters == CompositionDataMessage::Get(page).parameters(),
{
    lemma_flatten_one(seq![page]);
    if parameters.len() == 1 {
        assert(parameters =~= seq![parameters[0]]);
    }
}

impl From<CompositionStatus> for CompositionDataMessage {
    fn from(inner: CompositionStatus) -> (r: Self) {
        CompositionDataMessage::Status(inner)
    }
}

impl vstd::std_specs::convert::FromSpecImpl<CompositionStatus> for CompositionDataMessage {
    open spec fn obeys_from_spec() -> bool {
        true
    }

    open spec fn from_spec(inner: CompositionStatus) -> CompositionDataMessage {
        CompositionDataMessage::Status(inner)
    }
}

impl CompositionStatus {
    /// A Status carrying `data` as page `page`.
    pub fn new(page: u8, data: Composition) -> (r: Self)
        ensures
            r.page == page,
            r.data == data,
    {
        Self { page, data }
    }

    /// The pieces written before the elements: the page number, the company,
    /// product and version identifiers and the replay protection list size
    /// (each most significant byte first), and the features.
    pub open spec fn header_chunks(self) -> Seq<Seq<u8>> {
        seq![
            seq![self.page],
            u16_be(self.data.cid.0),
            u16_be(self.data.pid.0),
            u16_be(self.data.vid.0),
            u16_be(self.data.crpl),
        ] + self.data.features.chunks()
    }

    /// The pieces in which the page is written: the header, then each element.
    pub open spec fn chunks(self) -> Seq<Seq<u8>> {
        self.header_chunks() + elements_chunks(self.data.elements@)
    }

    /// The pieces written before element `i`.
    pub open spec fn chunks_before_element(self, i: int) -> Seq<Seq<u8>> {
        self.header_chunks() + elements_chunks(self.data.elements@.take(i))
    }

    /// Emitting `self` into a buffer of capacity `cap` holding `len` bytes
    /// reaches an element with more than ten models of one kind: one whose
    /// location still fits.
    pub open spec fn emit_overflows(self, len: int, cap: int) -> bool {
        exists|i: int|
            0 <= i < self.data.elements.len() && #[trigger] self.data.elements@[i].too_many_models()
                && len + self.chunks_before_element(i).flatten().len() + 2 <= cap
    }

    fn emit_parameters<const N: usize>(&self, xmit: &mut ByteVec<N>) -> (r: Result<
        (),
        InsufficientBuffer,
    >)
        requires
            !self.emit_overflows(old(xmit)@.len() as int, N as int),
        ensures
            (final(xmit)@, r is Ok) == write_chunks(old(xmit)@, self.chunks(), N as int),
    {
        let ghost start = xmit@;
        let ghost full = self.chunks();
        let ghost mut done = seq![seq![self.page]];
        if xmit.push(self.page).is_err() {
            proof {
                assert(full.take(1) =~= done);
                lemma_write_chunks_stop_prefix(start, done, full, N as int);
            }
            return Err(InsufficientBuffer);
        }
        let fields: [u16; 4] = [self.data.cid.0, self.data.pid.0, self.data.vid.0, self.data.crpl];
        let mut f: usize = 0;
        while f < 4
            invariant
                0 <= f <= 4,
                start == old(xmit)@,
                full == self.chunks(),
                fields@ == seq![self.data.cid.0, self.data.pid.0, self.data.vid.0, self.data.crpl],
                done == full.take(1 + f),
                (xmit@, true) == write_chunks(start, done, N as int),
            decreases 4 - f,
        {
            let bytes = u16_to_be_bytes(fields[f]);
            proof {
                assert(full[1 + f] == u16_be(fields@[f as int]));
                lemma_write_chunks_append(start, done, seq![bytes@], N as int);
                assert(full.take(2 + f) =~= done + seq![bytes@]);
            }
            if xmit.extend_from_slice(bytes.as_slice()).is_err() {
                proof {
                    lemma_write_chunks_stop_prefix(start, done + seq![bytes@], full, N as int);
                }
                return Err(InsufficientBuffer);
            }
            proof {
                done = done + seq![bytes@];
            }
            f = f + 1;
        }
        proof {
            lemma_write_chunks_append(start, done, self.data.features.chunks(), N as int);
            assert(full.take(6) =~= done + self.data.features.chunks());
        }
        if self.data.features.emit(xmit).is_err() {
            proof {
                lemma_write_chunks_stop_prefix(start, done + self.data.features.chunks(), full, N as int);
            }
            return Err(InsufficientBuffer);
        }
        proof {
            done = done + self.data.features.chunks();
            assert(done =~= self.header_chunks());
        }
        let elements = &self.data.elements;
        let mut i: usize = 0;
        while i < elements.len()
            invariant
                i <= elements.len(),
                start == old(xmit)@,
                elements@ == self.data.elements@,
                full == self.chunks(),
                !self.emit_overflows(start.len() as int, N as int),
                (xmit@, true) == write_chunks(start, self.chunks_before_element(i as int), N as int),
            decreases elements.len() - i,
        {
            let ghost before = self.chunks_before_element(i as int);
            let ghost e = elements@[i as int];
            proof {
                lemma_write_chunks_fits(start, before, N as int);
                assert(e.too_many_models() ==> xmit@.len() + 2 > N);
                lemma_chunks_of_all_take(elements@, i as int, element_chunks());
                assert(self.chunks_before_element(i + 1) =~= before + e.chunks());
                lemma_write_chunks_append(start, before, e.chunks(), N as int);
            }
            if emit_element(&elements[i], xmit).is_err() {
                proof {
                    let upto = before + e.chunks();
                    lemma_chunks_of_all_split(elements@, i as int, element_chunks());
                    assert(full =~= upto + elements_chunks(elements@.skip(i + 1)));
                    assert(full.take(upto.len() as int) =~= upto);
                    lemma_write_chunks_stop_prefix(start, upto, full, N as int);
                }
                return Err(InsufficientBuffer);
            }
            i = i + 1;
        }
        proof {
            assert(elements@.take(elements.len() as int) =~= elements@);
        }
        Ok(())
    }
}

impl CompositionStatus {
    /// The header takes eleven bytes.
    proof fn lemma_header_length(self)
        ensures
            self.header_chunks().flatten().len() == 11,
            self.chunks_before_element(0) == self.header_chunks(),
    {
        let h = self.header_chunks();
        assert(h =~= seq![
            seq![self.page],
            u16_be(self.data.cid.0),
            u16_be(self.data.pid.0),
            u16_be(self.data.vid.0),
            u16_be(self.data.crpl),
            u16_le(self.data.features.bits()),
        ]);
        reveal_with_fuel(Seq::flatten, 7);
        assert(self.data.elements@.take(0) =~= Seq::<ElementDescriptor>::empty());
        assert(self.chunks_before_element(0) =~= h);
    }

    /// Element `i` takes four bytes, two per SIG model and four per vendor
    /// model.
    proof fn lemma_before_next(self, i: int)
        requires
            0 <= i < self.data.elements.len(),
        ensures
            self.chunks_before_element(i + 1).flatten().len() == self.chunks_before_element(
                i,
            ).flatten().len() + 4 + 2 * sig_models(self.data.elements@[i].models@).len() + 4
                * vendor_models(self.data.elements@[i].models@).len(),
    {
        let es = self.data.elements@;
        lemma_chunks_of_all_take(es, i, element_chunks());
        assert(self.chunks_before_element(i + 1) =~= self.chunks_before_element(i)
            + es[i].chunks());
        vstd::seq_lib::lemma_flatten_concat(self.chunks_before_element(i), es[i].chunks());
        lemma_element_length(es[i]);
    }

    /// Later elements start later.
    proof fn lemma_before_grows(self, i: int, j: int)
        requires
            0 <= i <= j <= self.data.elements.len(),
        ensures
            self.chunks_before_element(i).flatten().len() <= self.chunks_before_element(
                j,
            ).flatten().len(),
        decreases j - i,
    {
        if i < j {
            self.lemma_before_grows(i, j - 1);
            self.lemma_before_next(j - 1);
        }
    }

    /// Whether emitting `self` into a buffer of capacity `cap` holding `len`
    /// bytes reaches an element with too many models.
    pub fn emit_would_overflow(&self, len: usize, cap: usize) -> (r: bool)
        ensures
            r == self.emit_overflows(len as int, cap as int),
    {
        let elements = &self.data.elements;
        proof {
            self.lemma_header_length();
        }
        if len > cap || cap - len < 13 {
            proof {
                assert forall|j: int|
                    0 <= j < elements.len() implies !(#[trigger] self.data.elements@[j].too_many_models()
                    && len + self.chunks_before_element(j).flatten().len() + 2 <= cap) by {
                    self.lemma_before_grows(0, j);
                }
            }
            return false;
        }
        let mut offset: usize = len + 11;
        let mut i: usize = 0;
        while i < elements.len()
            invariant
                i <= elements.len(),
                elements@ == self.data.elements@,
                offset as int == len + self.chunks_before_element(i as int).flatten().len(),
                offset + 2 <= cap,
                forall|j: int|
                    0 <= j < i ==> !(#[trigger] self.data.elements@[j].too_many_models() && len
                        + self.chunks_before_element(j).flatten().len() + 2 <= cap),
            decreases elements.len() - i,
        {
            let (num_sig, num_vendor) = count_models(&elements[i]);
            if num_sig > 10 || num_vendor > 10 {
                proof {
                    assert(self.data.elements@[i as int].too_many_models());
                }
                return true;
            }
            let size: u128 = 4 + 2 * (num_sig as u128) + 4 * (num_vendor as u128);
            proof {
                self.lemma_before_next(i as int);
            }
            if offset as u128 + size + 2 > cap as u128 {
                proof {
                    assert forall|j: int|
                        0 <= j < elements.len() implies !(
                        #[trigger] self.data.elements@[j].too_many_models() && len
                            + self.chunks_before_element(j).flatten().len() + 2 <= cap) by {
                        if j > i {
                            self.lemma_before_grows(i + 1, j);
                        }
                    }
                }
                return false;
            }
            offset = offset + size as usize;
            i = i + 1;
        }
        false
    }
}

/// A Get message has the opcode 0x80 0x08 and a Status message the opcode
/// 0x02.
pub proof fn lemma_message_opcodes(m: CompositionDataMessage)
    ensures
        m is Get ==> m.spec_opcode() == Opcode::TwoOctet(0x80, 0x08),
        m is Status ==> m.spec_opcode() == Opcode::OneOctet(0x02),
{
}

/// A Status is written as its page number; the company, product and version
/// identifiers and the replay protection list size, two bytes each, most
/// significant first; the two feature bytes; and then its elements, one
/// after the other.
pub proof fn lemma_status_layout(status: CompositionStatus)
    ensures
        status.chunks().flatten().len() >= 11,
        status.chunks().flatten()[0] == status.page,
        256 * status.chunks().flatten()[1] + status.chunks().flatten()[2] == status.data.cid.0,
        256 * status.chunks().flatten()[3] + status.chunks().flatten()[4] == status.data.pid.0,
        256 * status.chunks().flatten()[5] + status.chunks().flatten()[6] == status.data.vid.0,
        256 * status.chunks().flatten()[7] + status.chunks().flatten()[8] == status.data.crpl,
        status.chunks().flatten().subrange(9, 11) == status.data.features.chunks().flatten(),
        status.chunks().flatten().subrange(11, status.chunks().flatten().len() as int)
            == elements_chunks(status.data.elements@).flatten(),
{
    let h = status.header_chunks();
    let d = status.data;
    assert(h =~= seq![
        seq![status.page],
        u16_be(d.cid.0),
        u16_be(d.pid.0),
        u16_be(d.vid.0),
        u16_be(d.crpl),
        u16_le(d.features.bits()),
    ]);
    reveal_with_fuel(Seq::flatten, 7);
    lemma_flatten_one(u16_le(d.features.bits()));
    assert(h.flatten() =~= seq![
        status.page,
        (d.cid.0 / 256) as u8,
        (d.cid.0 % 256) as u8,
        (d.pid.0 / 256) as u8,
        (d.pid.0 % 256) as u8,
        (d.vid.0 / 256) as u8,
        (d.vid.0 % 256) as u8,
        (d.crpl / 256) as u8,
        (d.crpl % 256) as u8,
    ] + d.features.chunks().flatten());
    vstd::seq_lib::lemma_flatten_concat(h, elements_chunks(d.elements@));
    let all = status.chunks().flatten();
    assert(all == h.flatten() + elements_chunks(d.elements@).flatten());
    assert(all.subrange(9, 11) =~= d.features.chunks().flatten());
    assert(all.subrange(11, all.len() as int) =~= elements_chunks(d.elements@).flatten());
}

} // verus!
