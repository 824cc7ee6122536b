//! Message kinds of the order entry protocol, and the interface shared by
//! every message that travels under an OEP header.

use crate::oep::cancel::CANCEL_SIZE;
use crate::oep::execution_report::EXECUTIONREPORT_SIZE;
use crate::oep::login::LOGIN_SIZE;
use crate::oep::modify::MODIFY_SIZE;
use crate::oep::neworder::NEWORDER_SIZE;
use crate::oep::sessioninfo::SESSIONINFO_SIZE;
use crate::oep::trade::TRADE_SIZE;
use vstd::prelude::*;

verus! {

/// Kind of an OEP message.
#[derive(Debug, Copy, Clone, PartialEq, Eq, Structural)]
pub enum MsgType {
    NewOrder,
    Modify,
    Cancel,
    ExecutionReport,
    Login,
    Trade,
    /// sent by a gateway to the matching engine when a session disconnects
    SessionNotification,
    Unknown,
}

impl MsgType {
    pub open spec fn wire(self) -> u16 {
        match self {
            MsgType::NewOrder => 0,
            MsgType::Modify => 1,
            MsgType::Cancel => 2,
            MsgType::ExecutionReport => 3,
            MsgType::Login => 4,
            MsgType::Trade => 5,
            MsgType::SessionNotification => 6,
            MsgType::Unknown => 7,
        }
    }

    pub open spec fn from_wire(value: u16) -> MsgType {
        match value {
            0u16 => MsgType::NewOrder,
            1u16 => MsgType::Modify,
            2u16 => MsgType::Cancel,
            3u16 => MsgType::ExecutionReport,
            4u16 => MsgType::Login,
            5u16 => MsgType::Trade,
            6u16 => MsgType::SessionNotification,
            _ => MsgType::Unknown,
        }
    }

    /// Wire encoding of a message type. Only the five types that travel
    /// under an OEP header have one.
    pub fn into(self) -> (r: u16)
        requires
            self != MsgType::Trade,
            self != MsgType::SessionNotification,
            self != MsgType::Unknown,
        ensures
            r == self.wire(),
    {
        match self {
            MsgType::NewOrder => 0,
            MsgType::Modify => 1,
            MsgType::Cancel => 2,
            MsgType::ExecutionReport => 3,
            MsgType::Login => 4,
            MsgType::Trade => 5,
            MsgType::SessionNotification => 6,
            MsgType::Unknown => 7,
        }
    }

    /// Wire decoding of a message type; unknown values map to `Unknown`.
    pub fn from(value: u16) -> (r: MsgType)
        ensures
            r == MsgType::from_wire(value),
    {
        match value {
            0 => MsgType::NewOrder,
            1 => MsgType::Modify,
            2 => MsgType::Cancel,
            3 => MsgType::ExecutionReport,
            4 => MsgType::Login,
            5 => MsgType::Trade,
            6 => MsgType::SessionNotification,
            _ => MsgType::Unknown,
        }
    }
}

/// Payload length in bytes of each message kind; unknown kinds are given a
/// generous upper bound.
pub open spec fn spec_msg_len(t: MsgType) -> usize {
    match t {
        MsgType::Cancel => CANCEL_SIZE,
        MsgType::ExecutionReport => EXECUTIONREPORT_SIZE,
        MsgType::Login => LOGIN_SIZE,
        MsgType::Modify => MODIFY_SIZE,
        MsgType::NewOrder => NEWORDER_SIZE,
        MsgType::Trade => TRADE_SIZE,
        MsgType::SessionNotification => SESSIONINFO_SIZE,
        MsgType::Unknown => 1024,
    }
}

/// What every message under an OEP header can say about itself: its kind,
/// its payload length, and the session fields used for routing.
pub trait OepMessage: Sized {
    /// The kind of this message; fixed per implementing type.
    spec fn spec_message_type() -> MsgType;

    spec fn spec_gateway_id(self) -> u8;

    spec fn spec_session_id(self) -> u32;

    spec fn spec_participant(self) -> u64;

    fn message_type(&self) -> (r: MsgType)
        ensures
            r == Self::spec_message_type(),
    ;

    fn message_len(&self) -> (r: usize)
        ensures
            r == spec_msg_len(Self::spec_message_type()),
    ;

    fn get_gateway_id(&self) -> (r: u8)
        ensures
            r == self.spec_gateway_id(),
    ;

    fn get_session_id(&self) -> (r: u32)
        ensures
            r == self.spec_session_id(),
    ;

    fn get_participant(&self) -> (r: u64)
        ensures
            r == self.spec_participant(),
    ;
}

} // verus!
