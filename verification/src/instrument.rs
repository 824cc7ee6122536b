//! Instruments: the identity of a tradable security, and its wire layout.

use vstd::bytes::{lemma_auto_spec_u64_to_from_le_bytes, spec_u64_to_le_bytes, u64_from_le_bytes,
    u64_to_le_bytes};
use vstd::prelude::*;
use vstd::slice::{slice_subrange, slice_to_vec};

verus! {

/// Trading state of an instrument; a closed instrument accepts no new orders.
#[derive(Debug, Copy, Clone, PartialEq, Eq, Structural)]
pub enum InstrumentState {
    Trading,
    Closed,
    Auction,
}

impl InstrumentState {
    pub open spec fn wire(self) -> u8 {
        match self {
            InstrumentState::Trading => 0,
            InstrumentState::Closed => 1,
            InstrumentState::Auction => 2,
        }
    }

    pub open spec fn from_wire(value: u8) -> InstrumentState {
        match value {
            0u8 => InstrumentState::Trading,
            1u8 => InstrumentState::Closed,
            2u8 => InstrumentState::Auction,
            _ => InstrumentState::Closed,
        }
    }

    /// Wire encoding of an instrument state, in declaration order from 0.
    pub fn into(self) -> (r: u8)
        ensures
            r == self.wire(),
    {
        match self {
            InstrumentState::Trading => 0,
            InstrumentState::Closed => 1,
            InstrumentState::Auction => 2,
        }
    }

    /// Wire decoding of an instrument state; unknown values map to closed.
    pub fn from(value: u8) -> (r: InstrumentState)
        ensures
            r == InstrumentState::from_wire(value),
    {
        match value {
            0 => InstrumentState::Trading,
            1 => InstrumentState::Closed,
            2 => InstrumentState::Auction,
            _ => InstrumentState::Closed,
        }
    }
}

/// Kind of a tradable security.
#[derive(Debug, Copy, Clone, PartialEq, Eq, Structural)]
pub enum InstrumentType {
    Share,
    OptionCall,
    OptionPut,
    Future,
    Warrant,
}

impl InstrumentType {
    pub open spec fn wire(self) -> u8 {
        match self {
            InstrumentType::Share => 0,
            InstrumentType::OptionCall => 1,
            InstrumentType::OptionPut => 2,
            InstrumentType::Future => 3,
            InstrumentType::Warrant => 4,
        }
    }

    pub open spec fn from_wire(value: u8) -> InstrumentType {
        match value {
            0u8 => InstrumentType::Share,
            1u8 => InstrumentType::OptionCall,
            2u8 => InstrumentType::OptionPut,
            3u8 => InstrumentType::Future,
            4u8 => InstrumentType::Warrant,
            _ => InstrumentType::Share,
        }
    }

    /// Wire encoding of an instrument type, in declaration order from 0.
    pub fn into(self) -> (r: u8)
        ensures
            r == self.wire(),
    {
        match self {
            InstrumentType::Share => 0,
            InstrumentType::OptionCall => 1,
            InstrumentType::OptionPut => 2,
            InstrumentType::Future => 3,
            InstrumentType::Warrant => 4,
        }
    }

    /// Wire decoding of an instrument type; unknown values map to share.
    pub fn from(value: u8) -> (r: InstrumentType)
        ensures
            r == InstrumentType::from_wire(value),
    {
        match value {
            0 => InstrumentType::Share,
            1 => InstrumentType::OptionCall,
            2 => InstrumentType::OptionPut,
            3 => InstrumentType::Future,
            4 => InstrumentType::Warrant,
            _ => InstrumentType::Share,
        }
    }
}

/// The value of an instrument, for specifications: every field of an
/// `Instrument`, with the name as a sequence of bytes.
pub struct InstrumentModel {
    pub id: u64,
    pub name: Seq<u8>,
    pub i_type: InstrumentType,
    pub state: InstrumentState,
    pub percentage_bands: u8,
    pub percentage_variation_allowed: u8,
}

impl InstrumentModel {
    /// Byte layout of an instrument as it travels on the clearing
    /// protocol and the feed: 8 bytes of id, then type, state and the two
    /// collars, then the name bytes.
    pub open spec fn spec_encode(self) -> Seq<u8> {
        spec_u64_to_le_bytes(self.id) + seq![
            self.i_type.wire(),
            self.state.wire(),
            self.percentage_bands,
            self.percentage_variation_allowed,
        ] + self.name
    }
}

/// A tradable security: a stable id, a display name held as raw bytes,
/// its kind, its trading state and the two percentage collars.
#[derive(Debug, Clone, PartialEq, Eq)]
pub struct Instrument {
    pub id: u64,
    pub name: Vec<u8>,
    pub i_type: InstrumentType,
    pub state: InstrumentState,
    pub percentage_bands: u8,
    pub percentage_variation_allowed: u8,
}

impl View for Instrument {
    type V = InstrumentModel;

    open spec fn view(&self) -> InstrumentModel {
        InstrumentModel {
            id: self.id,
            name: self.name@,
            i_type: self.i_type,
            state: self.state,
            percentage_bands: self.percentage_bands,
            percentage_variation_allowed: self.percentage_variation_allowed,
        }
    }
}

impl Instrument {
    pub fn new(
        id: u64,
        name: &[u8],
        i_type: InstrumentType,
        state: InstrumentState,
        percentage_bands: u8,
        percentage_variation_allowed: u8,
    ) -> (r: Instrument)
        ensures
            r.spec_id() == id,
            r.spec_name() == name@,
            r.spec_type() == i_type,
            r.spec_state() == state,
            r.spec_percentage_bands() == percentage_bands,
            r.spec_percentage_variation_allowed() == percentage_variation_allowed,
    {
        Instrument {
            id,
            name: slice_to_vec(name),
            i_type,
            state,
            percentage_bands,
            percentage_variation_allowed,
        }
    }

    /// A shorthand constructor: empty name, closed state, no bands.
    pub fn new_fast(id: u64, i_type: InstrumentType) -> (r: Instrument)
        ensures
            r.spec_id() == id,
            r.spec_name() == Seq::<u8>::empty(),
            r.spec_type() == i_type,
            r.spec_state() == InstrumentState::Closed,
            r.spec_percentage_bands() == 0,
            r.spec_percentage_variation_allowed() == 30,
    {
        Instrument {
            id,
            name: Vec::new(),
            i_type,
            state: InstrumentState::Closed,
            percentage_bands: 0,
            percentage_variation_allowed: 30,
        }
    }

    /// A field-for-field copy of another instrument.
    pub fn copy(i: &Instrument) -> (r: Instrument)
        ensures
            r.spec_id() == i.spec_id(),
            r.spec_name() == i.spec_name(),
            r.spec_type() == i.spec_type(),
            r.spec_state() == i.spec_state(),
            r.spec_percentage_bands() == i.spec_percentage_bands(),
            r.spec_percentage_variation_allowed() == i.spec_percentage_variation_allowed(),
    {
        Instrument {
            id: i.id,
            name: slice_to_vec(i.name.as_slice()),
            i_type: i.i_type,
            state: i.state,
            percentage_bands: i.percentage_bands,
            percentage_variation_allowed: i.percentage_variation_allowed,
        }
    }

    pub open spec fn spec_id(self) -> u64 {
        self.id
    }

    pub open spec fn spec_name(self) -> Seq<u8> {
        self.name@
    }

    pub open spec fn spec_type(self) -> InstrumentType {
        self.i_type
    }

    pub open spec fn spec_state(self) -> InstrumentState {
        self.state
    }

    pub open spec fn spec_percentage_bands(self) -> u8 {
        self.percentage_bands
    }

    pub open spec fn spec_percentage_variation_allowed(self) -> u8 {
        self.percentage_variation_allowed
    }

    pub fn get_id(&self) -> (r: u64)
        ensures
            r == self.spec_id(),
    {
        self.id
    }

    pub fn get_name(&self) -> (r: &Vec<u8>)
        ensures
            r@ == self.spec_name(),
    {
        &self.name
    }

    pub fn get_type(&self) -> (r: InstrumentType)
        ensures
            r == self.spec_type(),
    {
        self.i_type
    }

    pub fn get_state(&self) -> (r: InstrumentState)
        ensures
            r == self.spec_state(),
    {
        self.state
    }

    pub fn set_state(&mut self, state: InstrumentState)
        ensures
            *final(self) == (Instrument { state, ..*old(self) }),
    {
        self.state = state;
    }

    pub fn set_percentage_bands(&mut self, percentage_bands: u8)
        requires
            percentage_bands <= 100,
        ensures
            *final(self) == (Instrument { percentage_bands, ..*old(self) }),
    {
        self.percentage_bands = percentage_bands;
    }

    pub fn get_percentage_bands(&self) -> (r: u8)
        ensures
            r == self.spec_percentage_bands(),
    {
        self.percentage_bands
    }

    pub fn set_percentage_variation_allowed(&mut self, percentage_variation_allowed: u8)
        ensures
            *final(self) == (Instrument {
                percentage_variation_allowed,
                ..*old(self)
            }),
    {
        self.percentage_variation_allowed = percentage_variation_allowed;
    }

    pub fn get_percentage_variation_allowed(&self) -> (r: u8)
        ensures
            r == self.spec_percentage_variation_allowed(),
    {
        self.percentage_variation_allowed
    }

    /// Byte layout of an instrument as it travels on the clearing protocol
    /// and the feed; see `InstrumentModel::spec_encode`.
    pub open spec fn spec_encode(self) -> Seq<u8> {
        self@.spec_encode()
    }

    /// What decoding a buffer of at least 12 bytes yields.
    pub open spec fn decodes_to(buf: Seq<u8>, r: Instrument) -> bool
        recommends
            buf.len() >= 12,
    {
        &&& r.spec_id() == vstd::bytes::spec_u64_from_le_bytes(buf.subrange(0, 8))
        &&& r.spec_name() == buf.skip(12)
        &&& r.spec_type() == InstrumentType::from_wire(buf[8])
        &&& r.spec_state() == InstrumentState::from_wire(buf[9])
        &&& r.spec_percentage_bands() == buf[10]
        &&& r.spec_percentage_variation_allowed() == buf[11]
    }

    /// Encode the instrument, e.g. in order to send it over the feed.
    pub fn encode(&self) -> (r: Vec<u8>)
        ensures
            r@ == self.spec_encode(),
            r@.len() == 12 + self.spec_name().len(),
    {
        let mut r = u64_to_le_bytes(self.id);
        r.push(self.i_type.into());
        r.push(self.state.into());
        r.push(self.percentage_bands);
        r.push(self.percentage_variation_allowed);
        let mut name_bytes = slice_to_vec(self.name.as_slice());
        r.append(&mut name_bytes);
        proof {
            assert(r@ =~= self.spec_encode());
            lemma_auto_spec_u64_to_from_le_bytes();
        }
        r
    }

    /// Decode an instrument from its wire layout; everything after the
    /// fixed 12-byte prefix is the name.
    pub fn decode(buf: &[u8]) -> (r: Instrument)
        requires
            buf@.len() >= 12,
        ensures
            Instrument::decodes_to(buf@, r),
    {
        let id_bytes = slice_subrange(buf, 0, 8);
        let name = slice_subrange(buf, 12, buf.len());
        Instrument {
            id: u64_from_le_bytes(id_bytes),
            name: slice_to_vec(name),
            i_type: InstrumentType::from(buf[8]),
            state: InstrumentState::from(buf[9]),
            percentage_bands: buf[10],
            percentage_variation_allowed: buf[11],
        }
    }
}

/// Encoding an instrument and decoding the result gives the instrument back:
/// whatever decodes from `i.spec_encode()` agrees with `i` on every field.
pub proof fn lemma_instrument_round_trip(i: Instrument, r: Instrument)
    requires
        Instrument::decodes_to(i.spec_encode(), r),
    ensures
        r.spec_id() == i.spec_id(),
        r.spec_name() == i.spec_name(),
        r.spec_type() == i.spec_type(),
        r.spec_state() == i.spec_state(),
        r.spec_percentage_bands() == i.spec_percentage_bands(),
        r.spec_percentage_variation_allowed() == i.spec_percentage_variation_allowed(),
{
    lemma_auto_spec_u64_to_from_le_bytes();
    let e = i.spec_encode();
    assert(e.subrange(0, 8) =~= spec_u64_to_le_bytes(i.spec_id()));
    assert(e.skip(12) =~= i.spec_name());
    assert(r.spec_name() =~= i.spec_name());
}

} // verus!
