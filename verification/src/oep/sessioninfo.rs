//! The session notification: sent by a gateway to the matching engine when
//! a session disconnects, so the engine can mass-cancel its orders.

use crate::oep::decoder::{DecodeError, Decoder};
use crate::oep::oep_message::{MsgType, OepMessage};
use vstd::bytes::{lemma_auto_spec_u32_to_from_le_bytes, lemma_auto_spec_u64_to_from_le_bytes,
    spec_u32_from_le_bytes, spec_u32_to_le_bytes, spec_u64_from_le_bytes, spec_u64_to_le_bytes,
    u32_from_le_bytes, u32_to_le_bytes, u64_from_le_bytes, u64_to_le_bytes};
use vstd::prelude::*;
use vstd::slice::slice_subrange;

verus! {

/// Byte length of an encoded session notification.
pub const SESSIONINFO_SIZE: usize = 13;

#[derive(Debug, Copy, Clone, PartialEq, Eq, Structural)]
pub struct SessionInfo {
    pub participant: u64,
    pub session_id: u32,
    pub gateway_id: u8,
}

impl SessionInfo {
    pub fn new(participant: u64, session_id: u32, gateway_id: u8) -> (r: SessionInfo)
        ensures
            r == (SessionInfo { participant, session_id, gateway_id }),
    {
        SessionInfo { participant, session_id, gateway_id }
    }
}

impl Decoder for SessionInfo {
    open spec fn wf(self) -> bool {
        true
    }

    open spec fn wire_size() -> usize {
        SESSIONINFO_SIZE
    }

    open spec fn spec_encode(self) -> Seq<u8> {
        spec_u64_to_le_bytes(self.participant) + spec_u32_to_le_bytes(self.session_id) + seq![
            self.gateway_id,
        ]
    }

    open spec fn decodes_to(buf: Seq<u8>, r: Self) -> bool {
        &&& r.participant == spec_u64_from_le_bytes(buf.subrange(0, 8))
        &&& r.session_id == spec_u32_from_le_bytes(buf.subrange(8, 12))
        &&& r.gateway_id == buf[12]
    }

    fn encode(&self) -> (r: Vec<u8>) {
        let mut r = u64_to_le_bytes(self.participant);
        let mut t = u32_to_le_bytes(self.session_id);
        r.append(&mut t);
        r.push(self.gateway_id);
        proof {
            lemma_auto_spec_u64_to_from_le_bytes();
            lemma_auto_spec_u32_to_from_le_bytes();
            assert(r@ =~= self.spec_encode());
        }
        r
    }

    fn decode(buffer: &[u8]) -> (r: Result<Self, DecodeError>) {
        if buffer.len() != SESSIONINFO_SIZE {
            return Err(DecodeError);
        }
        Ok(
            SessionInfo {
                participant: u64_from_le_bytes(slice_subrange(buffer, 0, 8)),
                session_id: u32_from_le_bytes(slice_subrange(buffer, 8, 12)),
                gateway_id: buffer[12],
            },
        )
    }

    proof fn round_trip(x: Self, r: Self) {
        lemma_auto_spec_u64_to_from_le_bytes();
        lemma_auto_spec_u32_to_from_le_bytes();
        let e = x.spec_encode();
        assert(e.subrange(0, 8) =~= spec_u64_to_le_bytes(x.participant));
        assert(e.subrange(8, 12) =~= spec_u32_to_le_bytes(x.session_id));
        assert(e[12] == x.gateway_id);
    }
}

impl OepMessage for SessionInfo {
    open spec fn spec_message_type() -> MsgType {
        MsgType::SessionNotification
    }

    open spec fn spec_gateway_id(self) -> u8 {
        self.gateway_id
    }

    open spec fn spec_session_id(self) -> u32 {
        self.session_id
    }

    open spec fn spec_participant(self) -> u64 {
        self.participant
    }

    fn message_type(&self) -> (r: MsgType) {
        MsgType::SessionNotification
    }

    fn message_len(&self) -> (r: usize) {
        SESSIONINFO_SIZE
    }

    fn get_gateway_id(&self) -> (r: u8) {
        self.gateway_id
    }

    fn get_session_id(&self) -> (r: u32) {
        self.session_id
    }

    fn get_participant(&self) -> (r: u64) {
        self.participant
    }
}

} // verus!
