//! The order entry protocol: a framed binary protocol between clients,
//! gateway and matching engine. Every message is an 8-byte header followed
//! by a fixed-layout payload.

pub mod cancel;
pub mod decoder;
pub mod execution_report;
pub mod header;
pub mod login;
pub mod modify;
pub mod neworder;
pub mod oep_message;
pub mod sessioninfo;
pub mod trade;

use crate::oep::cancel::{Cancel, CANCEL_SIZE};
use crate::oep::decoder::Decoder;
use crate::oep::execution_report::{ExecutionReport, EXECUTIONREPORT_SIZE};
use crate::oep::header::{OepHeader, OEP_HEADER_SIZE};
use crate::oep::login::{Login, LOGIN_SIZE};
use crate::oep::modify::{Modify, MODIFY_SIZE};
use crate::oep::neworder::{NewOrder, NEWORDER_SIZE};
use crate::oep::oep_message::MsgType;
use crate::oep::trade::Trade;
use vstd::bytes::{spec_u16_from_le_bytes, spec_u32_from_le_bytes};
use vstd::prelude::*;
use vstd::slice::slice_subrange;

verus! {

/// A decoded OEP message, as returned by `oep_decode`.
#[derive(Debug, Copy, Clone)]
pub enum MessageTypes {
    Cancel(Cancel),
    ExecutionReport(ExecutionReport),
    Login(Login),
    Modify(Modify),
    NewOrder(NewOrder),
    Trade(Trade),
}

/// Why a buffer failed to decode as one framed message.
#[derive(Debug, Copy, Clone, PartialEq, Eq, Structural)]
pub enum OepDecodeError {
    /// fewer than `8 + msg_len` bytes are available; read more and retry
    Incomplete,
    /// the payload length does not fit the message type
    Malformed,
    /// the header names a message type that never travels on this pipe
    UnknownType,
}

/// What a buffer holds when read as one framed message.
#[derive(Debug, Copy, Clone, PartialEq, Eq, Structural)]
pub enum FrameStatus {
    Incomplete,
    Malformed,
    Unknown,
    /// a whole frame of this type, with the right payload size
    Complete(MsgType),
}

/// The message type field of a header, read from the raw bytes.
pub open spec fn spec_header_msg_type(buf: Seq<u8>) -> u16 {
    spec_u16_from_le_bytes(buf.subrange(2, 4))
}

/// The payload length field of a header, read from the raw bytes.
pub open spec fn spec_header_msg_len(buf: Seq<u8>) -> u32 {
    spec_u32_from_le_bytes(buf.subrange(4, 8))
}

/// Classifies a buffer: too short for the frame its header announces,
/// holding a whole frame of a known type, holding a frame whose payload
/// size does not fit its type, or naming an unknown type.
pub open spec fn frame_status(buf: Seq<u8>) -> FrameStatus {
    if buf.len() < OEP_HEADER_SIZE {
        FrameStatus::Incomplete
    } else if buf.len() < OEP_HEADER_SIZE + spec_header_msg_len(buf) {
        FrameStatus::Incomplete
    } else {
        let payload_len = buf.len() - OEP_HEADER_SIZE;
        match spec_header_msg_type(buf) {
            0u16 => if payload_len == NEWORDER_SIZE {
                FrameStatus::Complete(MsgType::NewOrder)
            } else {
                FrameStatus::Malformed
            },
            1u16 => if payload_len == MODIFY_SIZE {
                FrameStatus::Complete(MsgType::Modify)
            } else {
                FrameStatus::Malformed
            },
            2u16 => if payload_len == CANCEL_SIZE {
                FrameStatus::Complete(MsgType::Cancel)
            } else {
                FrameStatus::Malformed
            },
            3u16 => if payload_len == EXECUTIONREPORT_SIZE {
                FrameStatus::Complete(MsgType::ExecutionReport)
            } else {
                FrameStatus::Malformed
            },
            4u16 => if payload_len == LOGIN_SIZE {
                FrameStatus::Complete(MsgType::Login)
            } else {
                FrameStatus::Malformed
            },
            _ => FrameStatus::Unknown,
        }
    }
}

/// Decodes one framed message from the front of `buffer`.
///
/// The outcome follows `frame_status` exactly: an incomplete frame asks the
/// caller to read more bytes and retry; a whole frame of a known type
/// decodes to its message; anything else is a protocol error, fatal to the
/// connection it came from.
pub fn oep_decode(buffer: &[u8]) -> (r: Result<MessageTypes, OepDecodeError>)
    ensures
        (match frame_status(buffer@) {
            FrameStatus::Incomplete => r == Err::<MessageTypes, OepDecodeError>(
                OepDecodeError::Incomplete,
            ),
            FrameStatus::Malformed => r == Err::<MessageTypes, OepDecodeError>(
                OepDecodeError::Malformed,
            ),
            FrameStatus::Unknown => r == Err::<MessageTypes, OepDecodeError>(
                OepDecodeError::UnknownType,
            ),
            FrameStatus::Complete(t) => match r {
                Ok(MessageTypes::NewOrder(m)) => t == MsgType::NewOrder && NewOrder::decodes_to(
                    buffer@.skip(8),
                    m,
                ),
                Ok(MessageTypes::Modify(m)) => t == MsgType::Modify && Modify::decodes_to(
                    buffer@.skip(8),
                    m,
                ),
                Ok(MessageTypes::Cancel(m)) => t == MsgType::Cancel && Cancel::decodes_to(
                    buffer@.skip(8),
                    m,
                ),
                Ok(
                    MessageTypes::ExecutionReport(m),
                ) => t == MsgType::ExecutionReport && ExecutionReport::decodes_to(
                    buffer@.skip(8),
                    m,
                ),
                Ok(MessageTypes::Login(m)) => t == MsgType::Login && Login::decodes_to(
                    buffer@.skip(8),
                    m,
                ),
                _ => false,
            },
        }),
{
    if buffer.len() < OEP_HEADER_SIZE {
        return Err(OepDecodeError::Incomplete);
    }
    let header = match OepHeader::decode(slice_subrange(buffer, 0, OEP_HEADER_SIZE)) {
        Ok(h) => h,
        Err(_) => {
            return Err(OepDecodeError::Malformed);
        },
    };
    proof {
        assert(buffer@.subrange(0, 8).subrange(2, 4) =~= buffer@.subrange(2, 4));
        assert(buffer@.subrange(0, 8).subrange(4, 8) =~= buffer@.subrange(4, 8));
    }
    if (buffer.len() as u64) < (header.msg_len as u64) + (OEP_HEADER_SIZE as u64) {
        return Err(OepDecodeError::Incomplete);
    }
    let payload = slice_subrange(buffer, OEP_HEADER_SIZE, buffer.len());
    proof {
        assert(payload@ =~= buffer@.skip(8));
    }
    match header.message_type() {
        MsgType::NewOrder => match NewOrder::decode(payload) {
            Ok(m) => Ok(MessageTypes::NewOrder(m)),
            Err(_) => Err(OepDecodeError::Malformed),
        },
        MsgType::Modify => match Modify::decode(payload) {
            Ok(m) => Ok(MessageTypes::Modify(m)),
            Err(_) => Err(OepDecodeError::Malformed),
        },
        MsgType::Cancel => match Cancel::decode(payload) {
            Ok(m) => Ok(MessageTypes::Cancel(m)),
            Err(_) => Err(OepDecodeError::Malformed),
        },
        MsgType::ExecutionReport => match ExecutionReport::decode(payload) {
            Ok(m) => Ok(MessageTypes::ExecutionReport(m)),
            Err(_) => Err(OepDecodeError::Malformed),
        },
        MsgType::Login => match Login::decode(payload) {
            Ok(m) => Ok(MessageTypes::Login(m)),
            Err(_) => Err(OepDecodeError::Malformed),
        },
        _ => Err(OepDecodeError::UnknownType),
    }
}

/// Framing resilience: a buffer that holds one whole well-formed frame —
/// its header's length field counting exactly the payload that follows —
/// decodes, and every proper prefix of it reports an incomplete frame, so
/// a reader that buffers bytes and retries never misparses a split frame.
pub proof fn lemma_framing_resilience(b: Seq<u8>, k: int)
    requires
        frame_status(b) matches FrameStatus::Complete(_),
        spec_header_msg_len(b) == b.len() - OEP_HEADER_SIZE,
        0 <= k < b.len(),
    ensures
        frame_status(b.subrange(0, k)) == FrameStatus::Incomplete,
{
    let p = b.subrange(0, k);
    if k >= OEP_HEADER_SIZE {
        assert(p.subrange(2, 4) =~= b.subrange(2, 4));
        assert(p.subrange(4, 8) =~= b.subrange(4, 8));
        assert(b.len() == OEP_HEADER_SIZE + (b.len() - OEP_HEADER_SIZE));
        assert(b.len() - OEP_HEADER_SIZE >= spec_header_msg_len(b));
    }
}

} // verus!
