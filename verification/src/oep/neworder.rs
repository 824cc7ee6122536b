//! The new-order message: a request to add an order to a book.

use crate::oep::decoder::{DecodeError, Decoder};
use crate::oep::oep_message::{MsgType, OepMessage};
use vstd::bytes::{lemma_auto_spec_u16_to_from_le_bytes, lemma_auto_spec_u32_to_from_le_bytes,
    lemma_auto_spec_u64_to_from_le_bytes, spec_u16_from_le_bytes, spec_u16_to_le_bytes,
    spec_u32_from_le_bytes, spec_u32_to_le_bytes, spec_u64_from_le_bytes, spec_u64_to_le_bytes,
    u16_from_le_bytes, u16_to_le_bytes, u32_from_le_bytes, u32_to_le_bytes, u64_from_le_bytes,
    u64_to_le_bytes};
use vstd::prelude::*;
use vstd::slice::slice_subrange;

verus! {

/// Byte length of an encoded new-order message.
pub const NEWORDER_SIZE: usize = 48;

#[derive(Debug, Copy, Clone, PartialEq, Eq, Structural)]
pub struct NewOrder {
    pub client_order_id: u64,
    pub participant: u64,
    pub book_id: u64,
    pub quantity: u64,
    pub price: u64,
    pub order_type: u16,
    pub side: u8,
    pub gateway_id: u8,
    pub session_id: u32,
}

impl Decoder for NewOrder {
    open spec fn wf(self) -> bool {
        true
    }

    open spec fn wire_size() -> usize {
        NEWORDER_SIZE
    }

    open spec fn spec_encode(self) -> Seq<u8> {
        spec_u64_to_le_bytes(self.client_order_id) + spec_u64_to_le_bytes(self.participant)
            + spec_u64_to_le_bytes(self.book_id) + spec_u64_to_le_bytes(self.quantity)
            + spec_u64_to_le_bytes(self.price) + spec_u16_to_le_bytes(self.order_type)
            + seq![self.side, self.gateway_id] + spec_u32_to_le_bytes(self.session_id)
    }

    open spec fn decodes_to(buf: Seq<u8>, r: Self) -> bool {
        &&& r.client_order_id == spec_u64_from_le_bytes(buf.subrange(0, 8))
        &&& r.participant == spec_u64_from_le_bytes(buf.subrange(8, 16))
        &&& r.book_id == spec_u64_from_le_bytes(buf.subrange(16, 24))
        &&& r.quantity == spec_u64_from_le_bytes(buf.subrange(24, 32))
        &&& r.price == spec_u64_from_le_bytes(buf.subrange(32, 40))
        &&& r.order_type == spec_u16_from_le_bytes(buf.subrange(40, 42))
        &&& r.side == buf[42]
        &&& r.gateway_id == buf[43]
        &&& r.session_id == spec_u32_from_le_bytes(buf.subrange(44, 48))
    }

    fn encode(&self) -> (r: Vec<u8>) {
        let mut r = u64_to_le_bytes(self.client_order_id);
        let mut t = u64_to_le_bytes(self.participant);
        r.append(&mut t);
        let mut t = u64_to_le_bytes(self.book_id);
        r.append(&mut t);
        let mut t = u64_to_le_bytes(self.quantity);
        r.append(&mut t);
        let mut t = u64_to_le_bytes(self.price);
        r.append(&mut t);
        let mut t = u16_to_le_bytes(self.order_type);
        r.append(&mut t);
        r.push(self.side);
        r.push(self.gateway_id);
        let mut t = u32_to_le_bytes(self.session_id);
        r.append(&mut t);
        proof {
            lemma_auto_spec_u64_to_from_le_bytes();
            lemma_auto_spec_u32_to_from_le_bytes();
            lemma_auto_spec_u16_to_from_le_bytes();
            assert(r@ =~= self.spec_encode());
        }
        r
    }

    fn decode(buffer: &[u8]) -> (r: Result<Self, DecodeError>) {
        if buffer.len() != NEWORDER_SIZE {
            return Err(DecodeError);
        }
        Ok(
            NewOrder {
                client_order_id: u64_from_le_bytes(slice_subrange(buffer, 0, 8)),
                participant: u64_from_le_bytes(slice_subrange(buffer, 8, 16)),
                book_id: u64_from_le_bytes(slice_subrange(buffer, 16, 24)),
                quantity: u64_from_le_bytes(slice_subrange(buffer, 24, 32)),
                price: u64_from_le_bytes(slice_subrange(buffer, 32, 40)),
                order_type: u16_from_le_bytes(slice_subrange(buffer, 40, 42)),
                side: buffer[42],
                gateway_id: buffer[43],
                session_id: u32_from_le_bytes(slice_subrange(buffer, 44, 48)),
            },
        )
    }

    proof fn round_trip(x: Self, r: Self) {
        lemma_auto_spec_u64_to_from_le_bytes();
        lemma_auto_spec_u32_to_from_le_bytes();
        lemma_auto_spec_u16_to_from_le_bytes();
        let e = x.spec_encode();
        assert(e.subrange(0, 8) =~= spec_u64_to_le_bytes(x.client_order_id));
        assert(e.subrange(8, 16) =~= spec_u64_to_le_bytes(x.participant));
        assert(e.subrange(16, 24) =~= spec_u64_to_le_bytes(x.book_id));
        assert(e.subrange(24, 32) =~= spec_u64_to_le_bytes(x.quantity));
        assert(e.subrange(32, 40) =~= spec_u64_to_le_bytes(x.price));
        assert(e.subrange(40, 42) =~= spec_u16_to_le_bytes(x.order_type));
        assert(e[42] == x.side);
        assert(e[43] == x.gateway_id);
        assert(e.subrange(44, 48) =~= spec_u32_to_le_bytes(x.session_id));
    }
}

impl OepMessage for NewOrder {
    open spec fn spec_message_type() -> MsgType {
        MsgType::NewOrder
    }

    open spec fn spec_gateway_id(self) -> u8 {
        self.gateway_id
    }

    open spec fn spec_session_id(self) -> u32 {
        self.session_id
    }

    open spec fn spec_participant(self) -> u64 {
        self.participant
    }

    fn message_type(&self) -> (r: MsgType) {
        MsgType::NewOrder
    }

    fn message_len(&self) -> (r: usize) {
        NEWORDER_SIZE
    }

    fn get_gateway_id(&self) -> (r: u8) {
        self.gateway_id
    }

    fn get_session_id(&self) -> (r: u32) {
        self.session_id
    }

    fn get_participant(&self) -> (r: u64) {
        self.participant
    }
}

} // verus!
