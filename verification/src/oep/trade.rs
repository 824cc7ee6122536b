//! The trade record: one fill between a resident and an aggressing order.
//! It only travels on the feed, never on the order pipe.

use crate::oep::decoder::{DecodeError, Decoder};
use crate::oep::oep_message::MsgType;
use vstd::bytes::{lemma_auto_spec_u64_to_from_le_bytes, spec_u64_from_le_bytes,
    spec_u64_to_le_bytes, u64_from_le_bytes, u64_to_le_bytes};
use vstd::prelude::*;
use vstd::slice::slice_subrange;

verus! {

/// Byte length of an encoded trade record.
pub const TRADE_SIZE: usize = 32;

#[derive(Debug, Copy, Clone, PartialEq, Eq, Structural)]
pub struct Trade {
    pub bid_order_id: u64,
    pub ask_order_id: u64,
    pub price: u64,
    pub quantity: u64,
}

impl Trade {
    /// The message kind of a trade record; trades carry no session
    /// routing fields, so the full message interface does not apply.
    pub fn message_type(&self) -> (r: MsgType)
        ensures
            r == MsgType::Trade,
    {
        MsgType::Trade
    }
}

impl Decoder for Trade {
    open spec fn wf(self) -> bool {
        true
    }

    open spec fn wire_size() -> usize {
        TRADE_SIZE
    }

    open spec fn spec_encode(self) -> Seq<u8> {
        spec_u64_to_le_bytes(self.bid_order_id) + spec_u64_to_le_bytes(self.ask_order_id)
            + spec_u64_to_le_bytes(self.price) + spec_u64_to_le_bytes(self.quantity)
    }

    open spec fn decodes_to(buf: Seq<u8>, r: Self) -> bool {
        &&& r.bid_order_id == spec_u64_from_le_bytes(buf.subrange(0, 8))
        &&& r.ask_order_id == spec_u64_from_le_bytes(buf.subrange(8, 16))
        &&& r.price == spec_u64_from_le_bytes(buf.subrange(16, 24))
        &&& r.quantity == spec_u64_from_le_bytes(buf.subrange(24, 32))
    }

    fn encode(&self) -> (r: Vec<u8>) {
        let mut r = u64_to_le_bytes(self.bid_order_id);
        let mut t = u64_to_le_bytes(self.ask_order_id);
        r.append(&mut t);
        let mut t = u64_to_le_bytes(self.price);
        r.append(&mut t);
        let mut t = u64_to_le_bytes(self.quantity);
        r.append(&mut t);
        proof {
            lemma_auto_spec_u64_to_from_le_bytes();
            assert(r@ =~= self.spec_encode());
        }
        r
    }

    fn decode(buffer: &[u8]) -> (r: Result<Self, DecodeError>) {
        if buffer.len() != TRADE_SIZE {
            return Err(DecodeError);
        }
        Ok(
            Trade {
                bid_order_id: u64_from_le_bytes(slice_subrange(buffer, 0, 8)),
                ask_order_id: u64_from_le_bytes(slice_subrange(buffer, 8, 16)),
                price: u64_from_le_bytes(slice_subrange(buffer, 16, 24)),
                quantity: u64_from_le_bytes(slice_subrange(buffer, 24, 32)),
            },
        )
    }

    proof fn round_trip(x: Self, r: Self) {
        lemma_auto_spec_u64_to_from_le_bytes();
        let e = x.spec_encode();
        assert(e.subrange(0, 8) =~= spec_u64_to_le_bytes(x.bid_order_id));
        assert(e.subrange(8, 16) =~= spec_u64_to_le_bytes(x.ask_order_id));
        assert(e.subrange(16, 24) =~= spec_u64_to_le_bytes(x.price));
        assert(e.subrange(24, 32) =~= spec_u64_to_le_bytes(x.quantity));
    }
}

} // verus!
