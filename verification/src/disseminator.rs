//! The feed publisher capability handed to every book.
//!
//! A disseminator is modelled by six event logs, one per record kind; each
//! send appends to its own log and leaves the others alone. The book's
//! contracts state which events each operation publishes in terms of these
//! logs; an implementation over a real socket keeps them as the (ghost)
//! history of what it sent.

use crate::instrument::{Instrument, InstrumentModel};
use crate::oep::trade::Trade;
use crate::order::Order;
use vstd::prelude::*;

verus! {

/// A feed send failed; publication is at-most-once and never retried.
#[derive(Debug, Copy, Clone, PartialEq, Eq, Structural)]
pub struct SendError;

pub trait Disseminator: Sized {
    /// Cancel records published so far.
    spec fn spec_cancels(&self) -> Seq<Order>;

    /// New-order records published so far.
    spec fn spec_new_orders(&self) -> Seq<Order>;

    /// Modify records published so far.
    spec fn spec_modifies(&self) -> Seq<Order>;

    /// Trade records published so far.
    spec fn spec_trades(&self) -> Seq<Trade>;

    /// Instrument-info records published so far.
    spec fn spec_instrument_info(&self) -> Seq<InstrumentModel>;

    /// Market-order (snapshot) records published so far.
    spec fn spec_market_orders(&self) -> Seq<Order>;

    fn send_cancel_order(&mut self, order: &Order) -> (r: Result<usize, SendError>)
        ensures
            final(self).spec_cancels() == old(self).spec_cancels().push(*order),
            final(self).spec_new_orders() == old(self).spec_new_orders(),
            final(self).spec_modifies() == old(self).spec_modifies(),
            final(self).spec_trades() == old(self).spec_trades(),
            final(self).spec_instrument_info() == old(self).spec_instrument_info(),
            final(self).spec_market_orders() == old(self).spec_market_orders(),
    ;

    fn send_new_order(&mut self, order: &Order) -> (r: Result<usize, SendError>)
        ensures
            final(self).spec_new_orders() == old(self).spec_new_orders().push(*order),
            final(self).spec_cancels() == old(self).spec_cancels(),
            final(self).spec_modifies() == old(self).spec_modifies(),
            final(self).spec_trades() == old(self).spec_trades(),
            final(self).spec_instrument_info() == old(self).spec_instrument_info(),
            final(self).spec_market_orders() == old(self).spec_market_orders(),
    ;

    fn send_modify_order(&mut self, order: &Order) -> (r: Result<usize, SendError>)
        ensures
            final(self).spec_modifies() == old(self).spec_modifies().push(*order),
            final(self).spec_cancels() == old(self).spec_cancels(),
            final(self).spec_new_orders() == old(self).spec_new_orders(),
            final(self).spec_trades() == old(self).spec_trades(),
            final(self).spec_instrument_info() == old(self).spec_instrument_info(),
            final(self).spec_market_orders() == old(self).spec_market_orders(),
    ;

    fn send_trade(&mut self, trade: &Trade) -> (r: Result<usize, SendError>)
        ensures
            final(self).spec_trades() == old(self).spec_trades().push(*trade),
            final(self).spec_cancels() == old(self).spec_cancels(),
            final(self).spec_new_orders() == old(self).spec_new_orders(),
            final(self).spec_modifies() == old(self).spec_modifies(),
            final(self).spec_instrument_info() == old(self).spec_instrument_info(),
            final(self).spec_market_orders() == old(self).spec_market_orders(),
    ;

    fn send_instrument_info(&mut self, instrument: &Instrument) -> (r: Result<usize, SendError>)
        ensures
            final(self).spec_instrument_info() == old(self).spec_instrument_info().push(
                instrument@,
            ),
            final(self).spec_cancels() == old(self).spec_cancels(),
            final(self).spec_new_orders() == old(self).spec_new_orders(),
            final(self).spec_modifies() == old(self).spec_modifies(),
            final(self).spec_trades() == old(self).spec_trades(),
            final(self).spec_market_orders() == old(self).spec_market_orders(),
    ;

    fn send_market_order(&mut self, order: &Order) -> (r: Result<usize, SendError>)
        ensures
            final(self).spec_market_orders() == old(self).spec_market_orders().push(*order),
            final(self).spec_cancels() == old(self).spec_cancels(),
            final(self).spec_new_orders() == old(self).spec_new_orders(),
            final(self).spec_modifies() == old(self).spec_modifies(),
            final(self).spec_trades() == old(self).spec_trades(),
            final(self).spec_instrument_info() == old(self).spec_instrument_info(),
    ;
}

} // verus!
