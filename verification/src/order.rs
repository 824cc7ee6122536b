//! Orders and their wire enumerations: side, order type and order state.

use vstd::prelude::*;

verus! {

/// Which side of the book an order belongs to.
#[derive(Debug, Copy, Clone, PartialEq, Eq, Structural)]
pub enum Side {
    Bid,
    Ask,
}

impl Side {
    pub open spec fn wire(self) -> u8 {
        match self {
            Side::Bid => 0,
            Side::Ask => 1,
        }
    }

    pub open spec fn from_wire(value: u8) -> Side {
        if value == 0 {
            Side::Bid
        } else {
            Side::Ask
        }
    }

    /// Wire encoding of a side: bid is 0, ask is 1.
    pub fn into(self) -> (r: u8)
        ensures
            r == self.wire(),
    {
        match self {
            Side::Bid => 0,
            Side::Ask => 1,
        }
    }

    /// Wire decoding of a side; every byte other than 0 maps to ask.
    pub fn from(value: u8) -> (r: Side)
        ensures
            r == Side::from_wire(value),
    {
        match value {
            0 => Side::Bid,
            _ => Side::Ask,
        }
    }
}

/// How an order interacts with the book once it arrives.
/// Only day, market, fill-and-kill and fill-or-kill are fully implemented.
#[derive(Debug, Copy, Clone, PartialEq, Eq, Structural)]
pub enum OrderType {
    /// standing day limit order
    Day,
    /// fill as much as possible against the book, never rests
    Market,
    /// fill as much as possible, cancel the remainder
    FillAndKill,
    /// fill all or kill
    FillOrKill,
    /// post on the passive side or reject
    PostOrKill,
    /// good till cancel
    GoodTillCancel,
    /// good till date
    GoodTillDate,
    /// stop loss
    StopLoss,
    /// stop loss limit
    StopLimit,
}

impl OrderType {
    pub open spec fn wire(self) -> u16 {
        match self {
            OrderType::Day => 0,
            OrderType::Market => 1,
            OrderType::FillAndKill => 2,
            OrderType::FillOrKill => 3,
            OrderType::PostOrKill => 4,
            OrderType::GoodTillCancel => 5,
            OrderType::GoodTillDate => 6,
            OrderType::StopLoss => 7,
            OrderType::StopLimit => 8,
        }
    }

    pub open spec fn from_wire(value: u16) -> OrderType {
        match value {
            0u16 => OrderType::Day,
            1u16 => OrderType::Market,
            2u16 => OrderType::FillAndKill,
            3u16 => OrderType::FillOrKill,
            4u16 => OrderType::PostOrKill,
            5u16 => OrderType::GoodTillCancel,
            6u16 => OrderType::GoodTillDate,
            7u16 => OrderType::StopLoss,
            _ => OrderType::StopLimit,
        }
    }

    /// Wire encoding of an order type, in declaration order from 0.
    pub fn into(self) -> (r: u16)
        ensures
            r == self.wire(),
    {
        match self {
            OrderType::Day => 0,
            OrderType::Market => 1,
            OrderType::FillAndKill => 2,
            OrderType::FillOrKill => 3,
            OrderType::PostOrKill => 4,
            OrderType::GoodTillCancel => 5,
            OrderType::GoodTillDate => 6,
            OrderType::StopLoss => 7,
            OrderType::StopLimit => 8,
        }
    }

    /// Wire decoding of an order type; unknown values map to the last variant.
    pub fn from(value: u16) -> (r: OrderType)
        ensures
            r == OrderType::from_wire(value),
    {
        match value {
            0 => OrderType::Day,
            1 => OrderType::Market,
            2 => OrderType::FillAndKill,
            3 => OrderType::FillOrKill,
            4 => OrderType::PostOrKill,
            5 => OrderType::GoodTillCancel,
            6 => OrderType::GoodTillDate,
            7 => OrderType::StopLoss,
            _ => OrderType::StopLimit,
        }
    }
}

/// A standing or transient intent to trade.
///
/// The exchange order id is assigned by the book on every add attempt;
/// the remaining fields identify the owner and the terms of the order.
#[derive(Debug, Copy, Clone, PartialEq, Eq, Structural)]
pub struct Order {
    pub id: u64,
    pub participant: u64,
    /// id of the instrument this order trades; books only accept orders
    /// whose instrument id equals their own
    pub instrument_id: u64,
    pub price: u64,
    pub quantity: u64,
    pub side: Side,
    pub order_type: OrderType,
    pub gateway_id: u8,
    pub session_id: u32,
}

impl Order {
    pub fn new(
        participant: u64,
        instrument_id: u64,
        price: u64,
        quantity: u64,
        side: Side,
        order_type: OrderType,
        gateway_id: u8,
        session_id: u32,
    ) -> (r: Order)
        ensures
            r == (Order {
                id: 0,
                participant,
                instrument_id,
                price,
                quantity,
                side,
                order_type,
                gateway_id,
                session_id,
            }),
    {
        Order {
            id: 0,
            participant,
            instrument_id,
            price,
            quantity,
            side,
            order_type,
            gateway_id,
            session_id,
        }
    }

    pub fn set_id(&mut self, id: u64)
        ensures
            *final(self) == (Order { id, ..*old(self) }),
    {
        self.id = id;
    }

    pub fn get_id(&self) -> (r: u64)
        ensures
            r == self.spec_id(),
    {
        self.id
    }

    /// The exchange order id, 0 until the book assigns one.
    pub open spec fn spec_id(self) -> u64 {
        self.id
    }
}

/// Outcome of a book operation, reported back to the order's owner.
#[derive(Debug, Copy, Clone, PartialEq, Eq, Structural)]
pub enum OrderState {
    Inserted,
    Modified,
    Cancelled,
    Rejected,
    Traded,
    PartiallyTraded,
}

impl OrderState {
    pub open spec fn wire(self) -> u8 {
        match self {
            OrderState::Inserted => 0,
            OrderState::Modified => 1,
            OrderState::Cancelled => 2,
            OrderState::Rejected => 3,
            OrderState::Traded => 4,
            OrderState::PartiallyTraded => 5,
        }
    }

    /// Wire encoding of an order state, in declaration order from 0.
    pub fn into(self) -> (r: u8)
        ensures
            r == self.wire(),
    {
        match self {
            OrderState::Inserted => 0,
            OrderState::Modified => 1,
            OrderState::Cancelled => 2,
            OrderState::Rejected => 3,
            OrderState::Traded => 4,
            OrderState::PartiallyTraded => 5,
        }
    }
}

} // verus!
