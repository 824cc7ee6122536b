//! The 8-byte header that precedes every message between client, gateway
//! and matching engine.

use crate::oep::decoder::{DecodeError, Decoder};
use crate::oep::oep_message::MsgType;
use vstd::bytes::{lemma_auto_spec_u16_to_from_le_bytes, lemma_auto_spec_u32_to_from_le_bytes,
    spec_u16_from_le_bytes, spec_u16_to_le_bytes, spec_u32_from_le_bytes, spec_u32_to_le_bytes,
    u16_from_le_bytes, u16_to_le_bytes, u32_from_le_bytes, u32_to_le_bytes};
use vstd::prelude::*;
use vstd::slice::slice_subrange;

verus! {

/// Version of the order entry protocol spoken by this crate.
pub const OEP_VERSION: u16 = 1;

/// Byte length of an encoded OEP header.
pub const OEP_HEADER_SIZE: usize = 8;

#[derive(Debug, Copy, Clone, PartialEq, Eq, Structural)]
pub struct OepHeader {
    pub oep_version: u16,
    pub msg_type: u16,
    /// byte length of the payload that follows the header
    pub msg_len: u32,
}

impl OepHeader {
    pub fn new(oep_version: u16, msg_type: u16, msg_len: u32) -> (r: OepHeader)
        ensures
            r == (OepHeader { oep_version, msg_type, msg_len }),
    {
        OepHeader { oep_version, msg_type, msg_len }
    }

    /// The message kinds that may follow a header on the order pipe;
    /// a trade or a session notification never does, so their wire values
    /// map to `Unknown` here.
    pub open spec fn spec_message_type(self) -> MsgType {
        match self.msg_type {
            0u16 => MsgType::NewOrder,
            1u16 => MsgType::Modify,
            2u16 => MsgType::Cancel,
            3u16 => MsgType::ExecutionReport,
            4u16 => MsgType::Login,
            _ => MsgType::Unknown,
        }
    }

    pub fn message_type(&self) -> (r: MsgType)
        ensures
            r == self.spec_message_type(),
    {
        match self.msg_type {
            0 => MsgType::NewOrder,
            1 => MsgType::Modify,
            2 => MsgType::Cancel,
            3 => MsgType::ExecutionReport,
            4 => MsgType::Login,
            _ => MsgType::Unknown,
        }
    }
}

impl Decoder for OepHeader {
    open spec fn wf(self) -> bool {
        true
    }

    open spec fn wire_size() -> usize {
        OEP_HEADER_SIZE
    }

    open spec fn spec_encode(self) -> Seq<u8> {
        spec_u16_to_le_bytes(self.oep_version) + spec_u16_to_le_bytes(self.msg_type)
            + spec_u32_to_le_bytes(self.msg_len)
    }

    open spec fn decodes_to(buf: Seq<u8>, r: Self) -> bool {
        &&& r.oep_version == spec_u16_from_le_bytes(buf.subrange(0, 2))
        &&& r.msg_type == spec_u16_from_le_bytes(buf.subrange(2, 4))
        &&& r.msg_len == spec_u32_from_le_bytes(buf.subrange(4, 8))
    }

    fn encode(&self) -> (r: Vec<u8>) {
        let mut r = u16_to_le_bytes(self.oep_version);
        let mut t = u16_to_le_bytes(self.msg_type);
        r.append(&mut t);
        let mut t = u32_to_le_bytes(self.msg_len);
        r.append(&mut t);
        proof {
            lemma_auto_spec_u16_to_from_le_bytes();
            lemma_auto_spec_u32_to_from_le_bytes();
            assert(r@ =~= self.spec_encode());
        }
        r
    }

    fn decode(buffer: &[u8]) -> (r: Result<Self, DecodeError>) {
        if buffer.len() != OEP_HEADER_SIZE {
            return Err(DecodeError);
        }
        Ok(
            OepHeader {
                oep_version: u16_from_le_bytes(slice_subrange(buffer, 0, 2)),
                msg_type: u16_from_le_bytes(slice_subrange(buffer, 2, 4)),
                msg_len: u32_from_le_bytes(slice_subrange(buffer, 4, 8)),
            },
        )
    }

    proof fn round_trip(x: Self, r: Self) {
        lemma_auto_spec_u16_to_from_le_bytes();
        lemma_auto_spec_u32_to_from_le_bytes();
        let e = x.spec_encode();
        assert(e.subrange(0, 2) =~= spec_u16_to_le_bytes(x.oep_version));
        assert(e.subrange(2, 4) =~= spec_u16_to_le_bytes(x.msg_type));
        assert(e.subrange(4, 8) =~= spec_u32_to_le_bytes(x.msg_len));
    }
}

} // verus!
