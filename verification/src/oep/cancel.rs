//! The cancel message: a request to remove a resident order.

use crate::oep::decoder::{DecodeError, Decoder};
use crate::oep::oep_message::{MsgType, OepMessage};
use vstd::bytes::{lemma_auto_spec_u32_to_from_le_bytes, lemma_auto_spec_u64_to_from_le_bytes,
    spec_u32_from_le_bytes, spec_u32_to_le_bytes, spec_u64_from_le_bytes, spec_u64_to_le_bytes,
    u32_from_le_bytes, u32_to_le_bytes, u64_from_le_bytes, u64_to_le_bytes};
use vstd::prelude::*;
use vstd::slice::slice_subrange;

verus! {

/// Byte length of an encoded cancel message.
pub const CANCEL_SIZE: usize = 30;

#[derive(Debug, Copy, Clone, PartialEq, Eq, Structural)]
pub struct Cancel {
    pub participant: u64,
    pub order_id: u64,
    pub book_id: u64,
    pub side: u8,
    pub gateway_id: u8,
    pub session_id: u32,
}

impl Cancel {
    pub fn get_side(&self) -> (r: u8)
        ensures
            r == self.side,
    {
        self.side
    }
}

impl Decoder for Cancel {
    open spec fn wf(self) -> bool {
        true
    }

    open spec fn wire_size() -> usize {
        CANCEL_SIZE
    }

    open spec fn spec_encode(self) -> Seq<u8> {
        spec_u64_to_le_bytes(self.participant) + spec_u64_to_le_bytes(self.order_id)
            + spec_u64_to_le_bytes(self.book_id) + seq![self.side, self.gateway_id]
            + spec_u32_to_le_bytes(self.session_id)
    }

    open spec fn decodes_to(buf: Seq<u8>, r: Self) -> bool {
        &&& r.participant == spec_u64_from_le_bytes(buf.subrange(0, 8))
        &&& r.order_id == spec_u64_from_le_bytes(buf.subrange(8, 16))
        &&& r.book_id == spec_u64_from_le_bytes(buf.subrange(16, 24))
        &&& r.side == buf[24]
        &&& r.gateway_id == buf[25]
        &&& r.session_id == spec_u32_from_le_bytes(buf.subrange(26, 30))
    }

    fn encode(&self) -> (r: Vec<u8>) {
        let mut r = u64_to_le_bytes(self.participant);
        let mut t = u64_to_le_bytes(self.order_id);
        r.append(&mut t);
        let mut t = u64_to_le_bytes(self.book_id);
        r.append(&mut t);
        r.push(self.side);
        r.push(self.gateway_id);
        let mut t = u32_to_le_bytes(self.session_id);
        r.append(&mut t);
        proof {
            lemma_auto_spec_u64_to_from_le_bytes();
            lemma_auto_spec_u32_to_from_le_bytes();
            assert(r@ =~= self.spec_encode());
        }
        r
    }

    fn decode(buffer: &[u8]) -> (r: Result<Self, DecodeError>) {
        if buffer.len() != CANCEL_SIZE {
            return Err(DecodeError);
        }
        Ok(
            Cancel {
                participant: u64_from_le_bytes(slice_subrange(buffer, 0, 8)),
                order_id: u64_from_le_bytes(slice_subrange(buffer, 8, 16)),
                book_id: u64_from_le_bytes(slice_subrange(buffer, 16, 24)),
                side: buffer[24],
                gateway_id: buffer[25],
                session_id: u32_from_le_bytes(slice_subrange(buffer, 26, 30)),
            },
        )
    }

    proof fn round_trip(x: Self, r: Self) {
        lemma_auto_spec_u64_to_from_le_bytes();
        lemma_auto_spec_u32_to_from_le_bytes();
        let e = x.spec_encode();
        assert(e.subrange(0, 8) =~= spec_u64_to_le_bytes(x.participant));
        assert(e.subrange(8, 16) =~= spec_u64_to_le_bytes(x.order_id));
        assert(e.subrange(16, 24) =~= spec_u64_to_le_bytes(x.book_id));
        assert(e[24] == x.side);
        assert(e[25] == x.gateway_id);
        assert(e.subrange(26, 30) =~= spec_u32_to_le_bytes(x.session_id));
    }
}

impl OepMessage for Cancel {
    open spec fn spec_message_type() -> MsgType {
        MsgType::Cancel
    }

    open spec fn spec_gateway_id(self) -> u8 {
        self.gateway_id
    }

    open spec fn spec_session_id(self) -> u32 {
        self.session_id
    }

    open spec fn spec_participant(self) -> u64 {
        self.participant
    }

    fn message_type(&self) -> (r: MsgType) {
        MsgType::Cancel
    }

    fn message_len(&self) -> (r: usize) {
        CANCEL_SIZE
    }

    fn get_gateway_id(&self) -> (r: u8) {
        self.gateway_id
    }

    fn get_session_id(&self) -> (r: u32) {
        self.session_id
    }

    fn get_participant(&self) -> (r: u64) {
        self.participant
    }
}

} // verus!
