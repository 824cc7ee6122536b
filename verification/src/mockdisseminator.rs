//! An in-memory feed collector, used by the book unit tests: every record
//! is kept in a vector instead of being sent anywhere.

use crate::disseminator::{Disseminator, SendError};
use crate::instrument::{Instrument, InstrumentModel};
use crate::oep::trade::Trade;
use crate::order::Order;
use vstd::prelude::*;

verus! {

#[derive(Debug, Clone)]
pub struct MockDisseminator {
    pub cancels: Vec<Order>,
    pub new_orders: Vec<Order>,
    pub modifies: Vec<Order>,
    pub trades: Vec<Trade>,
    pub instrument_info: Vec<Instrument>,
    /// not really market orders, but the orders a feed listener could
    /// rebuild a market from
    pub market_orders: Vec<Order>,
}

impl MockDisseminator {
    pub fn new() -> (r: MockDisseminator)
        ensures
            r.spec_cancels() == Seq::<Order>::empty(),
            r.spec_new_orders() == Seq::<Order>::empty(),
            r.spec_modifies() == Seq::<Order>::empty(),
            r.spec_trades() == Seq::<Trade>::empty(),
            r.spec_instrument_info() == Seq::<InstrumentModel>::empty(),
            r.spec_market_orders() == Seq::<Order>::empty(),
    {
        let r = MockDisseminator {
            cancels: Vec::new(),
            new_orders: Vec::new(),
            modifies: Vec::new(),
            trades: Vec::new(),
            instrument_info: Vec::new(),
            market_orders: Vec::new(),
        };
        proof {
            assert(r.spec_instrument_info() =~= Seq::<InstrumentModel>::empty());
        }
        r
    }
}

impl Disseminator for MockDisseminator {
    open spec fn spec_cancels(&self) -> Seq<Order> {
        self.cancels@
    }

    open spec fn spec_new_orders(&self) -> Seq<Order> {
        self.new_orders@
    }

    open spec fn spec_modifies(&self) -> Seq<Order> {
        self.modifies@
    }

    open spec fn spec_trades(&self) -> Seq<Trade> {
        self.trades@
    }

    open spec fn spec_instrument_info(&self) -> Seq<InstrumentModel> {
        self.instrument_info@.map_values(|x: Instrument| x@)
    }

    open spec fn spec_market_orders(&self) -> Seq<Order> {
        self.market_orders@
    }

    fn send_cancel_order(&mut self, order: &Order) -> (r: Result<usize, SendError>) {
        self.cancels.push(*order);
        Ok(1)
    }

    fn send_new_order(&mut self, order: &Order) -> (r: Result<usize, SendError>) {
        self.new_orders.push(*order);
        Ok(1)
    }

    fn send_modify_order(&mut self, order: &Order) -> (r: Result<usize, SendError>) {
        self.modifies.push(*order);
        Ok(1)
    }

    fn send_trade(&mut self, trade: &Trade) -> (r: Result<usize, SendError>) {
        self.trades.push(*trade);
        Ok(1)
    }

    fn send_instrument_info(&mut self, instrument: &Instrument) -> (r: Result<usize, SendError>) {
        let copy = Instrument::copy(instrument);
        proof {
            assert(copy@ == instrument@);
        }
        self.instrument_info.push(copy);
        proof {
            assert(self.instrument_info@.map_values(|x: Instrument| x@) =~= old(
                self,
            ).instrument_info@.map_values(|x: Instrument| x@).push(instrument@));
        }
        Ok(1)
    }

    fn send_market_order(&mut self, order: &Order) -> (r: Result<usize, SendError>) {
        self.market_orders.push(*order);
        Ok(1)
    }
}

} // verus!
