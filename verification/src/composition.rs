//! A node's composition: its identifiers, its features and its elements
//! with the models each element holds, and how the parts are written.

use vstd::prelude::*;
use crate::buffer::{
    ByteVec, chunks_of_all, lemma_flatten_one, lemma_flatten_two, write_chunks, lemma_chunks_of_all_split, lemma_chunks_of_all_take,
    lemma_write_chunks_append, lemma_write_chunks_fits, lemma_write_chunks_stop_prefix,
};
use crate::common::InsufficientBuffer;

verus! {

/// A 16-bit value, least significant byte first.
pub open spec fn u16_le(v: u16) -> Seq<u8> {
    seq![(v % 256) as u8, (v / 256) as u8]
}

/// A 16-bit value, most significant byte first.
pub open spec fn u16_be(v: u16) -> Seq<u8> {
    seq![(v / 256) as u8, (v % 256) as u8]
}

/// The two bytes of `v`, least significant first.
pub fn u16_to_le_bytes(v: u16) -> (r: [u8; 2])
    ensures
        r@ == u16_le(v),
{
    let r = [(v % 256) as u8, (v / 256) as u8];
    assert(r@ =~= u16_le(v));
    r
}

/// The two bytes of `v`, most significant first.
pub fn u16_to_be_bytes(v: u16) -> (r: [u8; 2])
    ensures
        r@ == u16_be(v),
{
    let r = [(v / 256) as u8, (v % 256) as u8];
    assert(r@ =~= u16_be(v));
    r
}

/// A company identifier assigned by the Bluetooth SIG.
#[derive(Copy, Clone, Debug, PartialEq, Eq, Structural)]
pub struct CompanyIdentifier(pub u16);

/// A vendor-assigned product identifier.
#[derive(Copy, Clone, Debug, PartialEq, Eq, Structural)]
pub struct ProductIdentifier(pub u16);

/// A vendor-assigned product version identifier.
#[derive(Copy, Clone, Debug, PartialEq, Eq, Structural)]
pub struct VersionIdentifier(pub u16);

/// The features a node supports.
#[derive(Copy, Clone, Debug, PartialEq, Eq, Structural)]
pub struct Features {
    pub relay: bool,
    pub proxy: bool,
    pub friend: bool,
    pub low_power: bool,
}

/// A model: one defined by the Bluetooth SIG, or one defined by a company.
#[derive(Copy, Clone, Debug, PartialEq, Eq, Structural)]
pub enum ModelIdentifier {
    SIG(u16),
    Vendor(CompanyIdentifier, u16),
}

/// An element of a node: its location descriptor and its models.
#[derive(Clone, Debug, PartialEq, Eq)]
pub struct ElementDescriptor {
    pub loc: u16,
    pub models: Vec<ModelIdentifier>,
}

/// Page 0 of a node's composition data.
#[derive(Clone, Debug, PartialEq, Eq)]
pub struct Composition {
    pub cid: CompanyIdentifier,
    pub pid: ProductIdentifier,
    pub vid: VersionIdentifier,
    pub crpl: u16,
    pub features: Features,
    pub elements: Vec<ElementDescriptor>,
}

impl Features {
    /// The feature bit field: relay, proxy, friend and low power in bits 0 to 3.
    pub open spec fn bits(self) -> u16 {
        ((if self.relay { 1u16 } else { 0u16 }) + (if self.proxy { 2u16 } else { 0u16 })
            + (if self.friend { 4u16 } else { 0u16 }) + (if self.low_power { 8u16 } else { 0u16 })) as u16
    }

    /// The pieces in which the features are written: the bit field, least
    /// significant byte first.
    pub open spec fn chunks(self) -> Seq<Seq<u8>> {
        seq![u16_le(self.bits())]
    }

    /// Appends the feature bit field to `xmit`, when it has room for it.
    pub fn emit<const N: usize>(&self, xmit: &mut ByteVec<N>) -> (r: Result<(), InsufficientBuffer>)
        ensures
            (final(xmit)@, r is Ok) == write_chunks(old(xmit)@, self.chunks(), N as int),
    {
        let mut bits: u16 = 0;
        if self.relay {
            bits = bits + 1;
        }
        if self.proxy {
            bits = bits + 2;
        }
        if self.friend {
            bits = bits + 4;
        }
        if self.low_power {
            bits = bits + 8;
        }
        let bytes = u16_to_le_bytes(bits);
        match xmit.extend_from_slice(bytes.as_slice()) {
            Ok(()) => Ok(()),
            Err(()) => Err(InsufficientBuffer),
        }
    }
}

impl ModelIdentifier {
    /// The pieces in which the model identifier is written: a SIG model as its
    /// 16-bit identifier, a vendor model as the company identifier followed by
    /// the model identifier, each least significant byte first.
    pub open spec fn chunks(self) -> Seq<Seq<u8>> {
        match self {
            ModelIdentifier::SIG(id) => seq![u16_le(id)],
            ModelIdentifier::Vendor(company, id) => seq![u16_le(company.0), u16_le(id)],
        }
    }

    /// Appends the model identifier to `xmit`.
    pub fn emit<const N: usize>(&self, xmit: &mut ByteVec<N>) -> (r: Result<(), InsufficientBuffer>)
        ensures
            (final(xmit)@, r is Ok) == write_chunks(old(xmit)@, self.chunks(), N as int),
    {
        match self {
            ModelIdentifier::SIG(id) => {
                let bytes = u16_to_le_bytes(*id);
                match xmit.extend_from_slice(bytes.as_slice()) {
                    Ok(()) => Ok(()),
                    Err(()) => Err(InsufficientBuffer),
                }
            },
            ModelIdentifier::Vendor(company, id) => {
                let ghost start = xmit@;
                let company_bytes = u16_to_le_bytes(company.0);
                let id_bytes = u16_to_le_bytes(*id);
                proof {
                    lemma_write_chunks_append(
                        start,
                        seq![u16_le(company.0)],
                        seq![u16_le(*id)],
                        N as int,
                    );
                    assert(self.chunks() =~= seq![u16_le(company.0)] + seq![u16_le(*id)]);
                }
                if xmit.extend_from_slice(company_bytes.as_slice()).is_err() {
                    return Err(InsufficientBuffer);
                }
                match xmit.extend_from_slice(id_bytes.as_slice()) {
                    Ok(()) => Ok(()),
                    Err(()) => Err(InsufficientBuffer),
                }
            },
        }
    }
}

/// The SIG models among `models`, in order.
pub open spec fn sig_models(models: Seq<ModelIdentifier>) -> Seq<ModelIdentifier> {
    models.filter(|m: ModelIdentifier| m is SIG)
}

/// The vendor models among `models`, in order.
pub open spec fn vendor_models(models: Seq<ModelIdentifier>) -> Seq<ModelIdentifier> {
    models.filter(|m: ModelIdentifier| m is Vendor)
}

/// How one model identifier is written.
pub open spec fn model_chunks() -> spec_fn(ModelIdentifier) -> Seq<Seq<u8>> {
    |m: ModelIdentifier| m.chunks()
}

/// How a run of model identifiers is written: one after the other.
pub open spec fn models_chunks(models: Seq<ModelIdentifier>) -> Seq<Seq<u8>> {
    chunks_of_all(models, model_chunks())
}

impl ElementDescriptor {
    /// The number of SIG models, written as one byte.
    pub open spec fn num_sig(self) -> u8 {
        sig_models(self.models@).len() as u8
    }

    /// The number of vendor models, written as one byte.
    pub open spec fn num_vendor(self) -> u8 {
        vendor_models(self.models@).len() as u8
    }

    /// The pieces in which the element is written: its location (least
    /// significant byte first), the number of SIG models, the number of
    /// vendor models, the SIG models and then the vendor models.
    pub open spec fn chunks(self) -> Seq<Seq<u8>> {
        seq![u16_le(self.loc)] + seq![seq![self.num_sig()]] + seq![seq![self.num_vendor()]]
            + models_chunks(sig_models(self.models@)) + models_chunks(vendor_models(self.models@))
    }

    /// More than ten SIG models, or more than ten vendor models: more than
    /// the lists that emission gathers them in can hold.
    pub open spec fn too_many_models(self) -> bool {
        sig_models(self.models@).len() > 10 || vendor_models(self.models@).len() > 10
    }
}

/// How one element is written.
pub open spec fn element_chunks() -> spec_fn(ElementDescriptor) -> Seq<Seq<u8>> {
    |e: ElementDescriptor| e.chunks()
}

/// How a run of elements is written: one after the other.
pub open spec fn elements_chunks(elements: Seq<ElementDescriptor>) -> Seq<Seq<u8>> {
    chunks_of_all(elements, element_chunks())
}

/// Appends each model identifier of `models` in turn.
fn emit_models<const N: usize>(models: &Vec<ModelIdentifier>, xmit: &mut ByteVec<N>) -> (r: Result<
    (),
    InsufficientBuffer,
>)
    ensures
        (final(xmit)@, r is Ok) == write_chunks(old(xmit)@, models_chunks(models@), N as int),
{
    let ghost start = xmit@;
    let mut k: usize = 0;
    while k < models.len()
        invariant
            k <= models.len(),
            start == old(xmit)@,
            (xmit@, true) == write_chunks(start, models_chunks(models@.take(k as int)), N as int),
        decreases models.len() - k,
    {
        let ghost done = models_chunks(models@.take(k as int));
        let ghost upto = models_chunks(models@.take(k + 1));
        let ghost before = xmit@;
        proof {
            lemma_chunks_of_all_take(models@, k as int, model_chunks());
            assert(upto == done + models@[k as int].chunks());
            lemma_write_chunks_append(start, done, models@[k as int].chunks(), N as int);
        }
        if models[k].emit(xmit).is_err() {
            proof {
                lemma_chunks_of_all_split(models@, k as int, model_chunks());
                assert(models_chunks(models@) == upto + models_chunks(models@.skip(k + 1)));
                assert(models_chunks(models@).take(upto.len() as int) =~= upto);
                lemma_write_chunks_stop_prefix(start, upto, models_chunks(models@), N as int);
            }
            return Err(InsufficientBuffer);
        }
        k = k + 1;
    }
    proof {
        assert(models@.take(models.len() as int) =~= models@);
    }
    Ok(())
}

/// The numbers of SIG and of vendor models of `element`.
pub(crate) fn count_models(element: &ElementDescriptor) -> (r: (usize, usize))
    ensures
        r.0 == sig_models(element.models@).len(),
        r.1 == vendor_models(element.models@).len(),
{
    let mut num_sig: usize = 0;
    let mut num_vendor: usize = 0;
    let mut j: usize = 0;
    while j < element.models.len()
        invariant
            j <= element.models.len(),
            num_sig == sig_models(element.models@.take(j as int)).len(),
            num_vendor == vendor_models(element.models@.take(j as int)).len(),
            num_sig + num_vendor == j,
        decreases element.models.len() - j,
    {
        let m = element.models[j];
        proof {
            let upto = element.models@.take(j + 1);
            assert(upto.drop_last() =~= element.models@.take(j as int));
            assert(upto.last() == m);
            reveal(Seq::filter);
        }
        match m {
            ModelIdentifier::SIG(_) => num_sig = num_sig + 1,
            ModelIdentifier::Vendor(..) => num_vendor = num_vendor + 1,
        }
        j = j + 1;
    }
    proof {
        assert(element.models@.take(element.models.len() as int) =~= element.models@);
    }
    (num_sig, num_vendor)
}

/// Appends the element: its location, the numbers of SIG and vendor models,
/// the SIG models and then the vendor models. An element with too many
/// models is only accepted when its location does not fit.
pub(crate) fn emit_element<const N: usize>(element: &ElementDescriptor, xmit: &mut ByteVec<N>) -> (r:
    Result<(), InsufficientBuffer>)
    requires
        element.too_many_models() ==> old(xmit)@.len() + 2 > N,
    ensures
        (final(xmit)@, r is Ok) == write_chunks(old(xmit)@, element.chunks(), N as int),
{
    let ghost start = xmit@;
    let ghost full = element.chunks();
    let loc = u16_to_le_bytes(element.loc);
    let ghost mut done = seq![u16_le(element.loc)];
    proof {
        lemma_write_chunks_fits(start, done, N as int);
    }
    if xmit.extend_from_slice(loc.as_slice()).is_err() {
        proof {
            assert(full.take(done.len() as int) =~= done);
            lemma_write_chunks_stop_prefix(start, done, full, N as int);
        }
        return Err(InsufficientBuffer);
    }
    // The location fit, so the element has at most ten models of each kind.
    let mut sig: Vec<ModelIdentifier> = Vec::new();
    let mut vendor: Vec<ModelIdentifier> = Vec::new();
    let mut j: usize = 0;
    while j < element.models.len()
        invariant
            j <= element.models.len(),
            sig@ == sig_models(element.models@.take(j as int)),
            vendor@ == vendor_models(element.models@.take(j as int)),
        decreases element.models.len() - j,
    {
        let m = element.models[j];
        proof {
            let upto = element.models@.take(j + 1);
            assert(upto.drop_last() =~= element.models@.take(j as int));
            assert(upto.last() == m);
            reveal(Seq::filter);
            assert(sig_models(upto) == (if m is SIG {
                sig_models(upto.drop_last()).push(m)
            } else {
                sig_models(upto.drop_last())
            }));
            assert(vendor_models(upto) == (if m is Vendor {
                vendor_models(upto.drop_last()).push(m)
            } else {
                vendor_models(upto.drop_last())
            }));
        }
        match m {
            ModelIdentifier::SIG(_) => sig.push(m),
            ModelIdentifier::Vendor(..) => vendor.push(m),
        }
        j = j + 1;
    }
    proof {
        assert(element.models@.take(element.models.len() as int) =~= element.models@);
    }
    let num_sig = sig.len() as u8;
    let num_vendor = vendor.len() as u8;

    proof {
        lemma_write_chunks_append(start, done, seq![seq![num_sig]], N as int);
    }
    if xmit.push(num_sig).is_err() {
        proof {
            assert(full.take(done.len() + 1int) =~= done + seq![seq![num_sig]]);
            lemma_write_chunks_stop_prefix(start, done + seq![seq![num_sig]], full, N as int);
        }
        return Err(InsufficientBuffer);
    }
    proof {
        done = done + seq![seq![num_sig]];
        lemma_write_chunks_append(start, done, seq![seq![num_vendor]], N as int);
    }
    if xmit.push(num_vendor).is_err() {
        proof {
            assert(full.take(done.len() + 1int) =~= done + seq![seq![num_vendor]]);
            lemma_write_chunks_stop_prefix(start, done + seq![seq![num_vendor]], full, N as int);
        }
        return Err(InsufficientBuffer);
    }
    proof {
        done = done + seq![seq![num_vendor]];
        lemma_write_chunks_append(start, done, models_chunks(sig@), N as int);
    }
    if emit_models(&sig, xmit).is_err() {
        proof {
            let upto = done + models_chunks(sig@);
            assert(full.take(upto.len() as int) =~= upto);
            lemma_write_chunks_stop_prefix(start, upto, full, N as int);
        }
        return Err(InsufficientBuffer);
    }
    proof {
        done = done + models_chunks(sig@);
        lemma_write_chunks_append(start, done, models_chunks(vendor@), N as int);
        assert(full =~= done + models_chunks(vendor@));
    }
    emit_models(&vendor, xmit)
}

/// A run of model identifiers that are each written as `width` bytes is
/// written as `width` bytes per identifier.
pub proof fn lemma_models_length(models: Seq<ModelIdentifier>, width: int)
    requires
        forall|i: int| 0 <= i < models.len() ==> (#[trigger] models[i]).chunks().flatten().len() == width,
    ensures
        models_chunks(models).flatten().len() == width * models.len(),
    decreases models.len(),
{
    if models.len() > 0 {
        let rest = models.drop_last();
        assert forall|i: int| 0 <= i < rest.len() implies (#[trigger] rest[i]).chunks().flatten().len()
            == width by {
            assert(rest[i] == models[i]);
        }
        lemma_models_length(rest, width);
        assert(models_chunks(models) == models_chunks(rest) + models.last().chunks());
        vstd::seq_lib::lemma_flatten_concat(models_chunks(rest), models.last().chunks());
        assert(width * models.len() == width * rest.len() + width) by (nonlinear_arith)
            requires
                rest.len() + 1 == models.len(),
        ;
    }
}

/// An element is written as four bytes (location and the two counts), two
/// more per SIG model and four more per vendor model.
pub proof fn lemma_element_length(e: ElementDescriptor)
    ensures
        e.chunks().flatten().len() == 4 + 2 * sig_models(e.models@).len() + 4 * vendor_models(
            e.models@,
        ).len(),
{
    broadcast use vstd::seq_lib::group_filter_ensures;

    let sig = sig_models(e.models@);
    let vendor = vendor_models(e.models@);
    assert forall|i: int| 0 <= i < sig.len() implies (#[trigger] sig[i]).chunks().flatten().len()
        == 2 by {
        assert(sig[i] is SIG);
        lemma_flatten_one(u16_le(sig[i]->SIG_0));
    }
    assert forall|i: int| 0 <= i < vendor.len() implies (#[trigger] vendor[i]).chunks().flatten().len()
        == 4 by {
        assert(vendor[i] is Vendor);
        lemma_flatten_two(u16_le((vendor[i]->Vendor_0).0), u16_le(vendor[i]->Vendor_1));
    }
    lemma_models_length(sig, 2);
    lemma_models_length(vendor, 4);
    let head = seq![u16_le(e.loc)] + seq![seq![e.num_sig()]] + seq![seq![e.num_vendor()]];
    assert(head =~= seq![u16_le(e.loc), seq![e.num_sig()], seq![e.num_vendor()]]);
    reveal_with_fuel(Seq::flatten, 4);
    assert(head.flatten().len() == 4);
    vstd::seq_lib::lemma_flatten_concat(head, models_chunks(sig));
    vstd::seq_lib::lemma_flatten_concat(head + models_chunks(sig), models_chunks(vendor));
}

/// The feature field is written as two bytes. In the first, bit 0 is set
/// exactly when the node is a relay, bit 1 when it is a proxy, bit 2 when it
/// is a friend and bit 3 when it is a low power node; no other bit is set.
/// The second byte is zero.
pub proof fn lemma_feature_bits(f: Features)
    ensures
        f.chunks().flatten().len() == 2,
        f.chunks().flatten()[0] & 0x01 != 0 <==> f.relay,
        f.chunks().flatten()[0] & 0x02 != 0 <==> f.proxy,
        f.chunks().flatten()[0] & 0x04 != 0 <==> f.friend,
        f.chunks().flatten()[0] & 0x08 != 0 <==> f.low_power,
        f.chunks().flatten()[0] & 0xf0 == 0,
        f.chunks().flatten()[1] == 0,
{
    lemma_flatten_one(u16_le(f.bits()));
    let relay = f.relay;
    let proxy = f.proxy;
    let friend = f.friend;
    let low_power = f.low_power;
    let b: u8 = ((if relay { 1u8 } else { 0u8 }) + (if proxy { 2u8 } else { 0u8 }) + (if friend {
        4u8
    } else {
        0u8
    }) + (if low_power { 8u8 } else { 0u8 })) as u8;
    assert(f.bits() == b as u16);
    assert(((b as u16) % 256) as u8 == b && (b as u16) / 256 == 0);
    assert({
        &&& (b & 0x01 != 0) == relay
        &&& (b & 0x02 != 0) == proxy
        &&& (b & 0x04 != 0) == friend
        &&& (b & 0x08 != 0) == low_power
        &&& b & 0xf0 == 0
    }) by (bit_vector)
        requires
            b == ((if relay { 1u8 } else { 0u8 }) + (if proxy { 2u8 } else { 0u8 }) + (if friend {
                4u8
            } else {
                0u8
            }) + (if low_power { 8u8 } else { 0u8 })) as u8,
    ;
}

/// Two-byte fields in numbers: least significant byte first means the first
/// byte plus 256 times the second gives the value back; most significant
/// byte first the other way round.
pub proof fn lemma_u16_bytes(v: u16)
    ensures
        u16_le(v).len() == 2 && u16_le(v)[0] + 256 * u16_le(v)[1] == v,
        u16_be(v).len() == 2 && 256 * u16_be(v)[0] + u16_be(v)[1] == v,
{
}

/// A SIG model is written as its identifier, a vendor model as its company
/// identifier and then its model identifier, each least significant byte
/// first.
pub proof fn lemma_model_bytes(m: ModelIdentifier)
    ensures
        m matches ModelIdentifier::SIG(id) ==> m.chunks().flatten() == seq![
            (id % 256) as u8,
            (id / 256) as u8,
        ],
        m matches ModelIdentifier::Vendor(company, id) ==> m.chunks().flatten() == seq![
            (company.0 % 256) as u8,
            (company.0 / 256) as u8,
            (id % 256) as u8,
            (id / 256) as u8,
        ],
{
    match m {
        ModelIdentifier::SIG(id) => {
            lemma_flatten_one(u16_le(id));
        },
        ModelIdentifier::Vendor(company, id) => {
            lemma_flatten_two(u16_le(company.0), u16_le(id));
            assert(u16_le(company.0) + u16_le(id) =~= seq![
                (company.0 % 256) as u8,
                (company.0 / 256) as u8,
                (id % 256) as u8,
                (id / 256) as u8,
            ]);
        },
    }
}

/// An element is written starting with its location, least significant byte
/// first, then the number of its SIG models and the number of its vendor
/// models; the SIG models follow, then the vendor models.
pub proof fn lemma_element_layout(e: ElementDescriptor)
    requires
        sig_models(e.models@).len() < 256,
        vendor_models(e.models@).len() < 256,
    ensures
        e.chunks().flatten().len() >= 4,
        e.chunks().flatten()[0] + 256 * e.chunks().flatten()[1] == e.loc,
        e.chunks().flatten()[2] == sig_models(e.models@).len(),
        e.chunks().flatten()[3] == vendor_models(e.models@).len(),
        e.chunks().flatten().subrange(4, e.chunks().flatten().len() as int) == models_chunks(
            sig_models(e.models@),
        ).flatten() + models_chunks(vendor_models(e.models@)).flatten(),
{
    let sig = sig_models(e.models@);
    let vendor = vendor_models(e.models@);
    let head = seq![u16_le(e.loc)] + seq![seq![e.num_sig()]] + seq![seq![e.num_vendor()]];
    assert(head =~= seq![u16_le(e.loc), seq![e.num_sig()], seq![e.num_vendor()]]);
    reveal_with_fuel(Seq::flatten, 4);
    assert(head.flatten() =~= seq![(e.loc % 256) as u8, (e.loc / 256) as u8, e.num_sig(), e.num_vendor()]);
    vstd::seq_lib::lemma_flatten_concat(head, models_chunks(sig));
    vstd::seq_lib::lemma_flatten_concat(head + models_chunks(sig), models_chunks(vendor));
    let all = e.chunks().flatten();
    assert(all == head.flatten() + models_chunks(sig).flatten() + models_chunks(vendor).flatten());
    assert(all.subrange(4, all.len() as int) =~= models_chunks(sig).flatten() + models_chunks(
        vendor,
    ).flatten());
}

} // verus!
