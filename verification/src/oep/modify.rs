//! The modify message: a request to change a resident order.

use crate::oep::decoder::{DecodeError, Decoder};
use crate::oep::oep_message::{MsgType, OepMessage};
use vstd::bytes::{lemma_auto_spec_u32_to_from_le_bytes, lemma_auto_spec_u64_to_from_le_bytes,
    spec_u32_from_le_bytes, spec_u32_to_le_bytes, spec_u64_from_le_bytes, spec_u64_to_le_bytes,
    u32_from_le_bytes, u32_to_le_bytes, u64_from_le_bytes, u64_to_le_bytes};
use vstd::prelude::*;
use vstd::slice::slice_subrange;

verus! {

/// Byte length of an encoded modify message.
pub const MODIFY_SIZE: usize = 46;

#[derive(Debug, Copy, Clone, PartialEq, Eq, Structural)]
pub struct Modify {
    pub participant: u64,
    pub order_id: u64,
    pub book_id: u64,
    pub quantity: u64,
    pub price: u64,
    pub side: u8,
    pub gateway_id: u8,
    pub session_id: u32,
}

impl Modify {
    pub fn get_side(&self) -> (r: u8)
        ensures
            r == self.side,
    {
        self.side
    }
}

impl Decoder for Modify {
    open spec fn wf(self) -> bool {
        true
    }

    open spec fn wire_size() -> usize {
        MODIFY_SIZE
    }

    open spec fn spec_encode(self) -> Seq<u8> {
        spec_u64_to_le_bytes(self.participant) + spec_u64_to_le_bytes(self.order_id)
            + spec_u64_to_le_bytes(self.book_id) + spec_u64_to_le_bytes(self.quantity)
            + spec_u64_to_le_bytes(self.price) + seq![self.side, self.gateway_id]
            + spec_u32_to_le_bytes(self.session_id)
    }

    open spec fn decodes_to(buf: Seq<u8>, r: Self) -> bool {
        &&& r.participant == spec_u64_from_le_bytes(buf.subrange(0, 8))
        &&& r.order_id == spec_u64_from_le_bytes(buf.subrange(8, 16))
        &&& r.book_id == spec_u64_from_le_bytes(buf.subrange(16, 24))
        &&& r.quantity == spec_u64_from_le_bytes(buf.subrange(24, 32))
        &&& r.price == spec_u64_from_le_bytes(buf.subrange(32, 40))
        &&& r.side == buf[40]
        &&& r.gateway_id == buf[41]
        &&& r.session_id == spec_u32_from_le_bytes(buf.subrange(42, 46))
    }

    fn encode(&self) -> (r: Vec<u8>) {
        let mut r = u64_to_le_bytes(self.participant);
        let mut t = u64_to_le_bytes(self.order_id);
        r.append(&mut t);
        let mut t = u64_to_le_bytes(self.book_id);
        r.append(&mut t);
        let mut t = u64_to_le_bytes(self.quantity);
        r.append(&mut t);
        let mut t = u64_to_le_bytes(self.price);
        r.append(&mut t);
        r.push(self.side);
        r.push(self.gateway_id);
        let mut t = u32_to_le_bytes(self.session_id);
        r.append(&mut t);
        proof {
            lemma_auto_spec_u64_to_from_le_bytes();
            lemma_auto_spec_u32_to_from_le_bytes();
            assert(r@ =~= self.spec_encode());
        }
        r
    }

    fn decode(buffer: &[u8]) -> (r: Result<Self, DecodeError>) {
        if buffer.len() != MODIFY_SIZE {
            return Err(DecodeError);
        }
        Ok(
            Modify {
                participant: u64_from_le_bytes(slice_subrange(buffer, 0, 8)),
                order_id: u64_from_le_bytes(slice_subrange(buffer, 8, 16)),
                book_id: u64_from_le_bytes(slice_subrange(buffer, 16, 24)),
                quantity: u64_from_le_bytes(slice_subrange(buffer, 24, 32)),
                price: u64_from_le_bytes(slice_subrange(buffer, 32, 40)),
                side: buffer[40],
                gateway_id: buffer[41],
                session_id: u32_from_le_bytes(slice_subrange(buffer, 42, 46)),
            },
        )
    }

    proof fn round_trip(x: Self, r: Self) {
        lemma_auto_spec_u64_to_from_le_bytes();
        lemma_auto_spec_u32_to_from_le_bytes();
        let e = x.spec_encode();
        assert(e.subrange(0, 8) =~= spec_u64_to_le_bytes(x.participant));
        assert(e.subrange(8, 16) =~= spec_u64_to_le_bytes(x.order_id));
        assert(e.subrange(16, 24) =~= spec_u64_to_le_bytes(x.book_id));
        assert(e.subrange(24, 32) =~= spec_u64_to_le_bytes(x.quantity));
        assert(e.subrange(32, 40) =~= spec_u64_to_le_bytes(x.price));
        assert(e[40] == x.side);
        assert(e[41] == x.gateway_id);
        assert(e.subrange(42, 46) =~= spec_u32_to_le_bytes(x.session_id));
    }
}

impl OepMessage for Modify {
    open spec fn spec_message_type() -> MsgType {
        MsgType::Modify
    }

    open spec fn spec_gateway_id(self) -> u8 {
        self.gateway_id
    }

    open spec fn spec_session_id(self) -> u32 {
        self.session_id
    }

    open spec fn spec_participant(self) -> u64 {
        self.participant
    }

    fn message_type(&self) -> (r: MsgType) {
        MsgType::Modify
    }

    fn message_len(&self) -> (r: usize) {
        MODIFY_SIZE
    }

    fn get_gateway_id(&self) -> (r: u8) {
        self.gateway_id
    }

    fn get_session_id(&self) -> (r: u32) {
        self.session_id
    }

    fn get_participant(&self) -> (r: u64) {
        self.participant
    }
}

} // verus!
