//! The execution report: the server-to-client acknowledgement after every
//! order action.

use crate::oep::decoder::{DecodeError, Decoder};
use crate::oep::oep_message::{MsgType, OepMessage};
use vstd::bytes::{lemma_auto_spec_u16_to_from_le_bytes, lemma_auto_spec_u32_to_from_le_bytes,
    lemma_auto_spec_u64_to_from_le_bytes, spec_u16_from_le_bytes, spec_u16_to_le_bytes,
    spec_u32_from_le_bytes, spec_u32_to_le_bytes, spec_u64_from_le_bytes, spec_u64_to_le_bytes,
    u16_from_le_bytes, u16_to_le_bytes, u32_from_le_bytes, u32_to_le_bytes, u64_from_le_bytes,
    u64_to_le_bytes};
use vstd::prelude::*;
use vstd::slice::slice_subrange;

verus! {

/// Byte length of an encoded execution report.
pub const EXECUTIONREPORT_SIZE: usize = 57;

#[derive(Debug, Copy, Clone, PartialEq, Eq, Structural)]
pub struct ExecutionReport {
    pub participant: u64,
    pub order_id: u64,
    /// client order id for new orders, exchange order id for modifies and
    /// cancels
    pub submitted_order_id: u64,
    pub book: u64,
    pub quantity: u64,
    pub price: u64,
    pub flags: u16,
    pub side: u8,
    /// wire encoding of an order state
    pub state: u8,
    pub session_id: u32,
    pub gateway_id: u8,
}

impl ExecutionReport {
    pub fn get_book(&self) -> (r: u64)
        ensures
            r == self.book,
    {
        self.book
    }

    pub fn get_price(&self) -> (r: u64)
        ensures
            r == self.price,
    {
        self.price
    }

    pub fn get_submitted_order_id(&self) -> (r: u64)
        ensures
            r == self.submitted_order_id,
    {
        self.submitted_order_id
    }

    pub fn get_order_id(&self) -> (r: u64)
        ensures
            r == self.order_id,
    {
        self.order_id
    }

    pub fn get_quantity(&self) -> (r: u64)
        ensures
            r == self.quantity,
    {
        self.quantity
    }
}

impl Decoder for ExecutionReport {
    open spec fn wf(self) -> bool {
        true
    }

    open spec fn wire_size() -> usize {
        EXECUTIONREPORT_SIZE
    }

    open spec fn spec_encode(self) -> Seq<u8> {
        spec_u64_to_le_bytes(self.participant) + spec_u64_to_le_bytes(self.order_id)
            + spec_u64_to_le_bytes(self.submitted_order_id) + spec_u64_to_le_bytes(self.book)
            + spec_u64_to_le_bytes(self.quantity) + spec_u64_to_le_bytes(self.price)
            + spec_u16_to_le_bytes(self.flags) + seq![self.side, self.state]
            + spec_u32_to_le_bytes(self.session_id) + seq![self.gateway_id]
    }

    open spec fn decodes_to(buf: Seq<u8>, r: Self) -> bool {
        &&& r.participant == spec_u64_from_le_bytes(buf.subrange(0, 8))
        &&& r.order_id == spec_u64_from_le_bytes(buf.subrange(8, 16))
        &&& r.submitted_order_id == spec_u64_from_le_bytes(buf.subrange(16, 24))
        &&& r.book == spec_u64_from_le_bytes(buf.subrange(24, 32))
        &&& r.quantity == spec_u64_from_le_bytes(buf.subrange(32, 40))
        &&& r.price == spec_u64_from_le_bytes(buf.subrange(40, 48))
        &&& r.flags == spec_u16_from_le_bytes(buf.subrange(48, 50))
        &&& r.side == buf[50]
        &&& r.state == buf[51]
        &&& r.session_id == spec_u32_from_le_bytes(buf.subrange(52, 56))
        &&& r.gateway_id == buf[56]
    }

    fn encode(&self) -> (r: Vec<u8>) {
        let mut r = u64_to_le_bytes(self.participant);
        let mut t = u64_to_le_bytes(self.order_id);
        r.append(&mut t);
        let mut t = u64_to_le_bytes(self.submitted_order_id);
        r.append(&mut t);
        let mut t = u64_to_le_bytes(self.book);
        r.append(&mut t);
        let mut t = u64_to_le_bytes(self.quantity);
        r.append(&mut t);
        let mut t = u64_to_le_bytes(self.price);
        r.append(&mut t);
        let mut t = u16_to_le_bytes(self.flags);
        r.append(&mut t);
        r.push(self.side);
        r.push(self.state);
        let mut t = u32_to_le_bytes(self.session_id);
        r.append(&mut t);
        r.push(self.gateway_id);
        proof {
            lemma_auto_spec_u64_to_from_le_bytes();
            lemma_auto_spec_u32_to_from_le_bytes();
            lemma_auto_spec_u16_to_from_le_bytes();
            assert(r@ =~= self.spec_encode());
        }
        r
    }

    fn decode(buffer: &[u8]) -> (r: Result<Self, DecodeError>) {
        if buffer.len() != EXECUTIONREPORT_SIZE {
            return Err(DecodeError);
        }
        Ok(
            ExecutionReport {
                participant: u64_from_le_bytes(slice_subrange(buffer, 0, 8)),
                order_id: u64_from_le_bytes(slice_subrange(buffer, 8, 16)),
                submitted_order_id: u64_from_le_bytes(slice_subrange(buffer, 16, 24)),
                book: u64_from_le_bytes(slice_subrange(buffer, 24, 32)),
                quantity: u64_from_le_bytes(slice_subrange(buffer, 32, 40)),
                price: u64_from_le_bytes(slice_subrange(buffer, 40, 48)),
                flags: u16_from_le_bytes(slice_subrange(buffer, 48, 50)),
                side: buffer[50],
                state: buffer[51],
                session_id: u32_from_le_bytes(slice_subrange(buffer, 52, 56)),
                gateway_id: buffer[56],
            },
        )
    }

    proof fn round_trip(x: Self, r: Self) {
        lemma_auto_spec_u64_to_from_le_bytes();
        lemma_auto_spec_u32_to_from_le_bytes();
        lemma_auto_spec_u16_to_from_le_bytes();
        let e = x.spec_encode();
        assert(e.subrange(0, 8) =~= spec_u64_to_le_bytes(x.participant));
        assert(e.subrange(8, 16) =~= spec_u64_to_le_bytes(x.order_id));
        assert(e.subrange(16, 24) =~= spec_u64_to_le_bytes(x.submitted_order_id));
        assert(e.subrange(24, 32) =~= spec_u64_to_le_bytes(x.book));
        assert(e.subrange(32, 40) =~= spec_u64_to_le_bytes(x.quantity));
        assert(e.subrange(40, 48) =~= spec_u64_to_le_bytes(x.price));
        assert(e.subrange(48, 50) =~= spec_u16_to_le_bytes(x.flags));
        assert(e[50] == x.side);
        assert(e[51] == x.state);
        assert(e.subrange(52, 56) =~= spec_u32_to_le_bytes(x.session_id));
        assert(e[56] == x.gateway_id);
    }
}

impl OepMessage for ExecutionReport {
    open spec fn spec_message_type() -> MsgType {
        MsgType::ExecutionReport
    }

    open spec fn spec_gateway_id(self) -> u8 {
        self.gateway_id
    }

    open spec fn spec_session_id(self) -> u32 {
        self.session_id
    }

    open spec fn spec_participant(self) -> u64 {
        self.participant
    }

    fn message_type(&self) -> (r: MsgType) {
        MsgType::ExecutionReport
    }

    fn message_len(&self) -> (r: usize) {
        EXECUTIONREPORT_SIZE
    }

    fn get_gateway_id(&self) -> (r: u8) {
        self.gateway_id
    }

    fn get_session_id(&self) -> (r: u32) {
        self.session_id
    }

    fn get_participant(&self) -> (r: u64) {
        self.participant
    }
}

} // verus!
