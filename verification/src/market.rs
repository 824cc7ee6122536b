//! The per-instrument limit order book: price-time priority matching with
//! banded price checks, partial fills, and event publication.
//!
//! The behaviour of every operation is stated over a small mathematical
//! model: the two sides as sequences of orders, the order-id counter, and
//! the disseminator's event logs. `spec_add` below is the complete
//! description of an add; the executable `add_order` is proved to follow it.

use crate::disseminator::{Disseminator, SendError};
use crate::instrument::{Instrument, InstrumentState};
use crate::oep::trade::Trade;
use crate::order::{Order, OrderState, OrderType, Side};
use std::collections::VecDeque;
use vstd::prelude::*;

verus! {

/// After this many operations on a side, the book compacts that side's
/// storage and starts counting afresh.
pub const REARRANGE_THRESHOLD: u32 = 10000;

/// Whether an aggressing order's limit allows it to trade against the
/// resident at the top of the opposite side.
pub open spec fn price_crosses(agg: Order, top: Order) -> bool {
    match agg.side {
        Side::Bid => agg.price >= top.price,
        Side::Ask => agg.price <= top.price,
    }
}

/// The trade record emitted when `agg` fills `vol` against resident `top`:
/// the resident's price wins, and each order id goes to its own side.
pub open spec fn spec_trade(agg: Order, top: Order, vol: u64) -> Trade {
    Trade {
        bid_order_id: if agg.side == Side::Bid {
            agg.id
        } else {
            top.id
        },
        ask_order_id: if agg.side == Side::Ask {
            agg.id
        } else {
            top.id
        },
        price: top.price,
        quantity: vol,
    }
}

pub open spec fn spec_min_u64(a: u64, b: u64) -> u64 {
    if a <= b {
        a
    } else {
        b
    }
}

/// The match loop: while the aggressor has quantity left, the opposite
/// side is non-empty, and the top either crosses or the aggressor is a
/// market order, fill `min(top.quantity, agg.quantity)`; a partially
/// filled top keeps its place (and so its time priority).
///
/// Returns the opposite side afterwards, the aggressor's remainder, and
/// the trades in the order they were struck.
pub open spec fn spec_match(opp: Seq<Order>, agg: Order) -> (Seq<Order>, Order, Seq<Trade>)
    decreases opp.len(), agg.quantity,
{
    if agg.quantity > 0 && opp.len() > 0 && (price_crosses(agg, opp[0]) || agg.order_type
        == OrderType::Market) && spec_min_u64(opp[0].quantity, agg.quantity) > 0 {
        let vol = spec_min_u64(opp[0].quantity, agg.quantity);
        let top2 = Order { quantity: (opp[0].quantity - vol) as u64, ..opp[0] };
        let agg2 = Order { quantity: (agg.quantity - vol) as u64, ..agg };
        let t = spec_trade(agg, opp[0], vol);
        let rest = if top2.quantity > 0 {
            seq![top2] + opp.skip(1)
        } else {
            opp.skip(1)
        };
        let m = spec_match(rest, agg2);
        (m.0, m.1, seq![t] + m.2)
    } else {
        (opp, agg, Seq::<Trade>::empty())
    }
}

/// Whether a resident's price is strictly worse than the incoming order's,
/// from the incoming order's point of view. An order posts at the first
/// such position, behind every equal-priced resident.
pub open spec fn spec_price_worse(resident: Order, o: Order) -> bool {
    match o.side {
        Side::Bid => resident.price < o.price,
        Side::Ask => resident.price > o.price,
    }
}

/// The position where an incoming order posts on its own side.
pub open spec fn spec_insert_pos(s: Seq<Order>, o: Order) -> int
    decreases s.len(),
{
    if s.len() == 0 {
        0
    } else if spec_price_worse(s[0], o) {
        0
    } else {
        1 + spec_insert_pos(s.skip(1), o)
    }
}

/// The banded price check: with both sides quoted, a limit order must
/// price within `bands` percent of the midpoint. A collar of 100 percent
/// or more leaves no lower bound.
pub open spec fn spec_band_ok(price: u64, best_bid: u64, best_ask: u64, bands: u8) -> bool {
    let mid = (best_bid + best_ask) / 2;
    let lo: int = if bands >= 100 {
        0
    } else {
        mid * (100 - bands) / 100
    };
    let hi: int = mid * (100 + bands) / 100;
    lo <= price && price <= hi
}

/// Price ordering of one side: bids descend, asks ascend, so the best
/// price is always at the front.
pub open spec fn side_sorted(s: Seq<Order>, side: Side) -> bool {
    forall|i: int, j: int|
        0 <= i < j < s.len() ==> match side {
            Side::Bid => s[i].price >= s[j].price,
            Side::Ask => s[i].price <= s[j].price,
        }
}

/// Time priority within a price level: of two equal-priced orders, the
/// one that arrived earlier (smaller exchange id) stands closer to the
/// front.
pub open spec fn price_time_ordered(s: Seq<Order>) -> bool {
    forall|i: int, j: int| 0 <= i < j < s.len() && s[i].price == s[j].price ==> s[i].id < s[j].id
}

/// Every resident of one side: positive quantity and price, the side it
/// sits on, this book's instrument, and an exchange id already assigned
/// and no newer than the book's counter.
pub open spec fn side_wf(s: Seq<Order>, side: Side, order_id: u64, instrument_id: u64) -> bool {
    &&& side_sorted(s, side)
    &&& price_time_ordered(s)
    &&& forall|i: int|
        0 <= i < s.len() ==> (#[trigger] s[i]).quantity > 0 && s[i].price > 0 && s[i].side == side
            && 1 <= s[i].id <= order_id && s[i].instrument_id == instrument_id
}

/// No crossed book: every resident bid prices strictly under every
/// resident ask.
pub open spec fn uncrossed(bids: Seq<Order>, asks: Seq<Order>) -> bool {
    forall|i: int, j: int|
        0 <= i < bids.len() && 0 <= j < asks.len() ==> (#[trigger] bids[i]).price < (
        #[trigger] asks[j]).price
}

/// Everything an add operation yields: the result pair, the two sides
/// afterwards, the trades struck, and what was posted or published.
pub struct AddOutcome {
    pub state: OrderState,
    pub id: u64,
    pub bids: Seq<Order>,
    pub asks: Seq<Order>,
    pub trades: Seq<Trade>,
    /// the order now resting in the book, if the add posted one
    pub posted: Option<Order>,
    /// whether a new-order record went to the feed (posts with no fill)
    pub published_new: bool,
}

/// The complete description of an add against a book whose sides are
/// `bids` and `asks`: validity checks in order (closed instrument, zero
/// quantity or price, price bands), then the match loop, then resolution
/// of the remainder by order type. `new_id` is the id the book assigns to
/// this attempt; a banded reject reports it, the earlier rejects report 0.
pub open spec fn spec_add(
    bids: Seq<Order>,
    asks: Seq<Order>,
    inst_state: InstrumentState,
    bands: u8,
    new_id: u64,
    o: Order,
) -> AddOutcome {
    let o1 = Order { id: new_id, ..o };
    let rejected = AddOutcome {
        state: OrderState::Rejected,
        id: 0,
        bids,
        asks,
        trades: Seq::<Trade>::empty(),
        posted: None,
        published_new: false,
    };
    if inst_state == InstrumentState::Closed {
        rejected
    } else if o.quantity == 0 || (o.price == 0 && o.order_type != OrderType::Market) {
        rejected
    } else if o.order_type != OrderType::Market && bids.len() > 0 && asks.len() > 0
        && !spec_band_ok(o.price, bids[0].price, asks[0].price, bands) {
        // a banded reject reports the exchange id the attempt drew
        AddOutcome { id: new_id, ..rejected }
    } else {
        spec_match_resolve(bids, asks, o1)
    }
}

/// The match loop followed by resolution of the remainder, for an
/// aggressor that already carries its exchange id.
pub open spec fn spec_match_resolve(bids: Seq<Order>, asks: Seq<Order>, o1: Order) -> AddOutcome {
    match o1.side {
        Side::Bid => {
            let m = spec_match(asks, o1);
            spec_resolve(bids, m.0, m.1, m.2, o1.id, true)
        },
        Side::Ask => {
            let m = spec_match(bids, o1);
            spec_resolve(m.0, asks, m.1, m.2, o1.id, false)
        },
    }
}

/// Resolution after the match loop: a spent aggressor traded in full; a
/// fill-and-kill or fill-or-kill remainder is discarded; a market order
/// never posts; anything else posts at its price-time position, and a
/// new-order record is published only when nothing filled.
pub open spec fn spec_resolve(
    bids: Seq<Order>,
    asks: Seq<Order>,
    rem: Order,
    trades: Seq<Trade>,
    new_id: u64,
    aggressor_is_bid: bool,
) -> AddOutcome {
    if rem.quantity == 0 {
        AddOutcome {
            state: OrderState::Traded,
            id: new_id,
            bids,
            asks,
            trades,
            posted: None,
            published_new: false,
        }
    } else if rem.order_type == OrderType::FillAndKill || rem.order_type == OrderType::FillOrKill {
        AddOutcome {
            state: OrderState::Cancelled,
            id: new_id,
            bids,
            asks,
            trades,
            posted: None,
            published_new: false,
        }
    } else if rem.order_type == OrderType::Market {
        AddOutcome {
            state: if trades.len() > 0 {
                OrderState::Traded
            } else {
                OrderState::Cancelled
            },
            id: new_id,
            bids,
            asks,
            trades,
            posted: None,
            published_new: false,
        }
    } else {
        let state = if trades.len() > 0 {
            OrderState::PartiallyTraded
        } else {
            OrderState::Inserted
        };
        if aggressor_is_bid {
            AddOutcome {
                state,
                id: new_id,
                bids: bids.insert(spec_insert_pos(bids, rem), rem),
                asks,
                trades,
                posted: Some(rem),
                published_new: trades.len() == 0,
            }
        } else {
            AddOutcome {
                state,
                id: new_id,
                bids,
                asks: asks.insert(spec_insert_pos(asks, rem), rem),
                trades,
                posted: Some(rem),
                published_new: trades.len() == 0,
            }
        }
    }
}

/// The operation counters after an add: a non-rejected add first resets
/// whichever counter ran past the compaction threshold, then counts one
/// operation on the incoming order's own side.
pub open spec fn spec_add_ops(bids_ops: u32, asks_ops: u32, side: Side, rejected: bool) -> (
    u32,
    u32,
)
    recommends
        bids_ops < u32::MAX,
        asks_ops < u32::MAX,
{
    if rejected {
        (bids_ops, asks_ops)
    } else {
        let b1: u32 = if bids_ops > REARRANGE_THRESHOLD {
            0
        } else {
            bids_ops
        };
        let a1: u32 = if bids_ops <= REARRANGE_THRESHOLD && asks_ops > REARRANGE_THRESHOLD {
            0
        } else {
            asks_ops
        };
        match side {
            Side::Bid => ((b1 + 1) as u32, a1),
            Side::Ask => (b1, (a1 + 1) as u32),
        }
    }
}

/// Structure that holds a market for a certain instrument.
///
/// In order to manipulate the market, a user has three main functions:
/// `add_order`, `modify_order` and `cancel_order`; arguments are orders
/// as defined in the order module.
///
/// Other notable functions: `publish_snapshot`, which publishes the
/// instrument and the resident orders on the disseminator, and
/// `get_state`, which returns the instrument state that is implicitly
/// assumed to also be the market state.
#[derive(Debug, Clone)]
pub struct Market<D: Disseminator> {
    pub instrument: Instrument,
    pub bids: VecDeque<Order>,
    pub asks: VecDeque<Order>,
    pub order_id: u64,
    pub disseminator: D,
    pub bids_ops: u32,
    pub asks_ops: u32,
}

impl<D: Disseminator> Market<D> {
    /// The book invariant: both sides well-formed in price-time order,
    /// and never crossed. Every operation preserves it.
    pub open spec fn wf(self) -> bool {
        &&& side_wf(self.bids@, Side::Bid, self.order_id, self.instrument.id)
        &&& side_wf(self.asks@, Side::Ask, self.order_id, self.instrument.id)
        &&& uncrossed(self.bids@, self.asks@)
    }

    /// Create a market for a certain instrument and attach a feed
    /// disseminator.
    pub fn new(instrument: Instrument, disseminator: D) -> (r: Market<D>)
        ensures
            r.instrument == instrument,
            r.bids@ == Seq::<Order>::empty(),
            r.asks@ == Seq::<Order>::empty(),
            r.order_id == 0,
            r.disseminator == disseminator,
            r.bids_ops == 0,
            r.asks_ops == 0,
            r.wf(),
    {
        Market {
            instrument,
            bids: VecDeque::new(),
            asks: VecDeque::new(),
            order_id: 0,
            disseminator,
            bids_ops: 0,
            asks_ops: 0,
        }
    }

    /// All resident bids, best price first.
    pub fn generate_bids(&self) -> (r: Vec<Order>)
        ensures
            r@ == self.bids@,
    {
        let mut r: Vec<Order> = Vec::new();
        let mut i: usize = 0;
        while i < self.bids.len()
            invariant
                i <= self.bids@.len(),
                r@ == self.bids@.subrange(0, i as int),
            decreases self.bids@.len() - i,
        {
            r.push(self.bids[i]);
            proof {
                assert(r@ =~= self.bids@.subrange(0, i + 1));
            }
            i += 1;
        }
        proof {
            assert(r@ =~= self.bids@);
        }
        r
    }

    /// All resident asks, best price first.
    pub fn generate_asks(&self) -> (r: Vec<Order>)
        ensures
            r@ == self.asks@,
    {
        let mut r: Vec<Order> = Vec::new();
        let mut i: usize = 0;
        while i < self.asks.len()
            invariant
                i <= self.asks@.len(),
                r@ == self.asks@.subrange(0, i as int),
            decreases self.asks@.len() - i,
        {
            r.push(self.asks[i]);
            proof {
                assert(r@ =~= self.asks@.subrange(0, i + 1));
            }
            i += 1;
        }
        proof {
            assert(r@ =~= self.asks@);
        }
        r
    }

    pub fn get_instrument(&self) -> (r: &Instrument)
        ensures
            *r == self.instrument,
    {
        &self.instrument
    }

    pub fn get_state(&self) -> (r: InstrumentState)
        ensures
            r == self.instrument.state,
    {
        self.instrument.get_state()
    }

    pub fn get_order_id(&self) -> (r: u64)
        ensures
            r == self.order_id,
    {
        self.order_id
    }

    /// Puts the instrument into the trading state; orders are accepted
    /// from then on.
    pub fn set_state_trading(&mut self)
        ensures
            *final(self) == (Market {
                instrument: final(self).instrument,
                ..*old(self)
            }),
            final(self).instrument@ == (crate::instrument::InstrumentModel {
                state: InstrumentState::Trading,
                ..old(self).instrument@
            }),
            old(self).wf() ==> final(self).wf(),
    {
        self.instrument.set_state(InstrumentState::Trading);
    }

    /// Hook called when the shared instrument has been updated from the
    /// clearing path; the book itself keeps no derived state, so there is
    /// nothing to refresh.
    pub fn instrument_updated(&self)
    {
    }

    /// Adds an order to the book, matching it against the opposite side
    /// first. The whole behaviour — the checks, the fills, the posted
    /// remainder and the published records — is the one described by
    /// `spec_add`; the id counter advances on every attempt, rejects
    /// included.
    #[verifier::spinoff_prover]
    #[verifier::rlimit(100)]
    pub fn add_order(&mut self, o: Order) -> (r: (OrderState, u64))
        requires
            old(self).wf(),
            o.instrument_id == old(self).instrument.id,
            old(self).order_id < u64::MAX,
            old(self).bids_ops < u32::MAX,
            old(self).asks_ops < u32::MAX,
        ensures
            final(self).order_id == old(self).order_id + 1,
            final(self).instrument == old(self).instrument,
            final(self).wf(),
            ({
                let out = spec_add(
                    old(self).bids@,
                    old(self).asks@,
                    old(self).instrument.state,
                    old(self).instrument.percentage_bands,
                    (old(self).order_id + 1) as u64,
                    o,
                );
                &&& r == (out.state, out.id)
                &&& final(self).bids@ == out.bids
                &&& final(self).asks@ == out.asks
                &&& final(self).disseminator.spec_trades() == old(self).disseminator.spec_trades()
                    + out.trades
                &&& final(self).disseminator.spec_new_orders() == old(self).disseminator.spec_new_orders() + (if out.published_new {
                    seq![out.posted.unwrap()]
                } else {
                    Seq::<Order>::empty()
                })
                &&& final(self).disseminator.spec_cancels() == old(self).disseminator.spec_cancels()
                &&& final(self).disseminator.spec_modifies() == old(self).disseminator.spec_modifies()
                &&& final(self).disseminator.spec_instrument_info() == old(self).disseminator.spec_instrument_info()
                &&& final(self).disseminator.spec_market_orders() == old(self).disseminator.spec_market_orders()
                &&& (final(self).bids_ops, final(self).asks_ops) == spec_add_ops(
                    old(self).bids_ops,
                    old(self).asks_ops,
                    o.side,
                    out.state == OrderState::Rejected,
                )
            }),
    {
        let ghost pre = *old(self);
        let ghost out = spec_add(
            pre.bids@,
            pre.asks@,
            pre.instrument.state,
            pre.instrument.percentage_bands,
            (pre.order_id + 1) as u64,
            o,
        );
        self.order_id = self.order_id + 1;
        let mut o = o;
        o.set_id(self.order_id);

        if self.instrument.get_state() == InstrumentState::Closed {
            return (OrderState::Rejected, 0);
        }
        if o.quantity == 0 || (o.price == 0 && o.order_type != OrderType::Market) {
            return (OrderState::Rejected, 0);
        }

        // price bands: a limit order must price within `bands` percent of
        // the midpoint whenever both sides are quoted
        if o.order_type != OrderType::Market && self.bids.len() > 0 && self.asks.len() > 0 {
            let best_bid = self.bids[0].price;
            let best_ask = self.asks[0].price;
            let bands = self.instrument.get_percentage_bands();
            let mid: u128 = (best_bid as u128 + best_ask as u128) / 2;
            let k_hi: u128 = 100 + bands as u128;
            proof {
                assert(mid <= u64::MAX as u128);
                assert(mid * k_hi <= (u64::MAX as u128) * 355) by (nonlinear_arith)
                    requires
                        mid <= u64::MAX as u128,
                        k_hi <= 355u128,
                ;
            }
            let hi: u128 = mid * k_hi / 100;
            let lo_ok: bool = if bands >= 100 {
                true
            } else {
                let k_lo: u128 = (100 - bands) as u128;
                proof {
                    assert(mid * k_lo <= (u64::MAX as u128) * 100) by (nonlinear_arith)
                        requires
                            mid <= u64::MAX as u128,
                            k_lo <= 100u128,
                    ;
                }
                (o.price as u128) >= mid * k_lo / 100
            };
            if !lo_ok || (o.price as u128) > hi {
                proof {
                    assert(!spec_band_ok(o.price, pre.bids@[0].price, pre.asks@[0].price, bands));
                }
                // a banded reject reports the exchange id the attempt drew
                return (OrderState::Rejected, o.get_id());
            }
            proof {
                assert(spec_band_ok(o.price, pre.bids@[0].price, pre.asks@[0].price, bands));
            }
        }

        // storage compaction heuristic: after enough operations on one
        // side, restart that side's count
        if self.bids_ops > REARRANGE_THRESHOLD {
            self.bids_ops = 0;
        } else if self.asks_ops > REARRANGE_THRESHOLD {
            self.asks_ops = 0;
        }

        match o.side {
            Side::Bid => {
                self.bids_ops = self.bids_ops + 1;
            },
            Side::Ask => {
                self.asks_ops = self.asks_ops + 1;
            },
        }
        self.match_and_resolve(o)
    }

    /// Matches an aggressor that already carries its exchange id against
    /// the opposite side, then resolves the remainder by order type.
    /// Validity checks and the operation counters are the caller's
    /// business.
    #[verifier::spinoff_prover]
    #[verifier::rlimit(100)]
    fn match_and_resolve(&mut self, o: Order) -> (r: (OrderState, u64))
        requires
            o.id >= 1,
            side_wf(old(self).bids@, Side::Bid, (o.id - 1) as u64, old(self).instrument.id),
            side_wf(old(self).asks@, Side::Ask, (o.id - 1) as u64, old(self).instrument.id),
            uncrossed(old(self).bids@, old(self).asks@),
            o.instrument_id == old(self).instrument.id,
            o.quantity > 0,
            o.price > 0 || o.order_type == OrderType::Market,
        ensures
            ({
                let out = spec_match_resolve(old(self).bids@, old(self).asks@, o);
                &&& r == (out.state, out.id)
                &&& final(self).bids@ == out.bids
                &&& final(self).asks@ == out.asks
                &&& final(self).disseminator.spec_trades() == old(self).disseminator.spec_trades()
                    + out.trades
                &&& final(self).disseminator.spec_new_orders() == old(self).disseminator.spec_new_orders() + (if out.published_new {
                    seq![out.posted.unwrap()]
                } else {
                    Seq::<Order>::empty()
                })
                &&& final(self).disseminator.spec_cancels() == old(self).disseminator.spec_cancels()
                &&& final(self).disseminator.spec_modifies() == old(self).disseminator.spec_modifies()
                &&& final(self).disseminator.spec_instrument_info() == old(self).disseminator.spec_instrument_info()
                &&& final(self).disseminator.spec_market_orders() == old(self).disseminator.spec_market_orders()
            }),
            side_wf(final(self).bids@, Side::Bid, o.id, final(self).instrument.id),
            side_wf(final(self).asks@, Side::Ask, o.id, final(self).instrument.id),
            uncrossed(final(self).bids@, final(self).asks@),
            final(self).order_id == old(self).order_id,
            final(self).instrument == old(self).instrument,
            final(self).bids_ops == old(self).bids_ops,
            final(self).asks_ops == old(self).asks_ops,
    {
        let ghost pre = *old(self);
        let ghost o1 = o;
        let mut o = o;
        match o.side {
            Side::Bid => {
                let traded = Self::run_match(&mut self.asks, &mut o, &mut self.disseminator);
                proof {
                    lemma_match_preserves(
                        pre.asks@,
                        o1,
                        Side::Ask,
                        (o1.id - 1) as u64,
                        pre.instrument.id,
                    );
                    lemma_remnant_uncrossed_asks(pre.bids@, pre.asks@, self.asks@);
                }
                if o.quantity == 0 {
                    return (OrderState::Traded, o.get_id());
                }
                match o.order_type {
                    OrderType::FillAndKill | OrderType::FillOrKill => (
                        OrderState::Cancelled,
                        o.get_id(),
                    ),
                    OrderType::Market => if traded {
                        (OrderState::Traded, o.get_id())
                    } else {
                        (OrderState::Cancelled, o.get_id())
                    },
                    _ => {
                        proof {
                            lemma_insert_wf(
                                pre.bids@,
                                Side::Bid,
                                o,
                                (o1.id - 1) as u64,
                                pre.instrument.id,
                            );
                            lemma_insert_uncrossed_bid(pre.bids@, self.asks@, o);
                        }
                        self.insert_into_right_position(&o);
                        if traded {
                            (OrderState::PartiallyTraded, o.get_id())
                        } else {
                            let _ = self.disseminator.send_new_order(&o);
                            (OrderState::Inserted, o.get_id())
                        }
                    },
                }
            },
            Side::Ask => {
                let traded = Self::run_match(&mut self.bids, &mut o, &mut self.disseminator);
                proof {
                    lemma_match_preserves(
                        pre.bids@,
                        o1,
                        Side::Bid,
                        (o1.id - 1) as u64,
                        pre.instrument.id,
                    );
                    lemma_remnant_uncrossed_bids(pre.bids@, pre.asks@, self.bids@);
                }
                if o.quantity == 0 {
                    return (OrderState::Traded, o.get_id());
                }
                match o.order_type {
                    OrderType::FillAndKill | OrderType::FillOrKill => (
                        OrderState::Cancelled,
                        o.get_id(),
                    ),
                    OrderType::Market => if traded {
                        (OrderState::Traded, o.get_id())
                    } else {
                        (OrderState::Cancelled, o.get_id())
                    },
                    _ => {
                        proof {
                            lemma_insert_wf(
                                pre.asks@,
                                Side::Ask,
                                o,
                                (o1.id - 1) as u64,
                                pre.instrument.id,
                            );
                            lemma_insert_uncrossed_ask(self.bids@, pre.asks@, o);
                        }
                        self.insert_into_right_position(&o);
                        if traded {
                            (OrderState::PartiallyTraded, o.get_id())
                        } else {
                            let _ = self.disseminator.send_new_order(&o);
                            (OrderState::Inserted, o.get_id())
                        }
                    },
                }
            },
        }
    }

    /// Cancels a resident order, located by owner and exchange id on the
    /// named side. A missing order is rejected; either way the operation
    /// counts against the named side.
    pub fn cancel_order(&mut self, o: &Order) -> (r: OrderState)
        requires
            old(self).wf(),
            o.instrument_id == old(self).instrument.id,
            o.side == Side::Bid ==> old(self).bids_ops < u32::MAX,
            o.side == Side::Ask ==> old(self).asks_ops < u32::MAX,
        ensures
            final(self).order_id == old(self).order_id,
            final(self).instrument == old(self).instrument,
            final(self).wf(),
            ({
                let s = if o.side == Side::Bid {
                    old(self).bids@
                } else {
                    old(self).asks@
                };
                let i = spec_find(s, cancel_pred(*o));
                &&& (i < s.len() ==> {
                    &&& r == OrderState::Cancelled
                    &&& (o.side == Side::Bid ==> final(self).bids@ == s.remove(i) && final(self).asks@ == old(self).asks@)
                    &&& (o.side == Side::Ask ==> final(self).asks@ == s.remove(i) && final(self).bids@ == old(self).bids@)
                    &&& final(self).disseminator.spec_cancels() == old(self).disseminator.spec_cancels().push(s[i])
                })
                &&& (i == s.len() ==> {
                    &&& r == OrderState::Rejected
                    &&& final(self).bids@ == old(self).bids@
                    &&& final(self).asks@ == old(self).asks@
                    &&& final(self).disseminator.spec_cancels() == old(self).disseminator.spec_cancels()
                })
            }),
            final(self).disseminator.spec_new_orders() == old(self).disseminator.spec_new_orders(),
            final(self).disseminator.spec_modifies() == old(self).disseminator.spec_modifies(),
            final(self).disseminator.spec_trades() == old(self).disseminator.spec_trades(),
            final(self).disseminator.spec_instrument_info() == old(self).disseminator.spec_instrument_info(),
            final(self).disseminator.spec_market_orders() == old(self).disseminator.spec_market_orders(),
            final(self).bids_ops == old(self).bids_ops + (if o.side == Side::Bid {
                1int
            } else {
                0int
            }),
            final(self).asks_ops == old(self).asks_ops + (if o.side == Side::Ask {
                1int
            } else {
                0int
            }),
    {
        let ghost pre = *old(self);
        match o.side {
            Side::Bid => {
                self.bids_ops = self.bids_ops + 1;
                let idx = Self::find_first_cancel(&self.bids, o);
                if idx < self.bids.len() {
                    let removed_opt = self.bids.remove(idx);
                    let removed = removed_opt.unwrap();
                    proof {
                        lemma_remove_wf(
                            pre.bids@,
                            Side::Bid,
                            pre.order_id,
                            pre.instrument.id,
                            idx as int,
                        );
                        lemma_remove_uncrossed_bid(pre.bids@, pre.asks@, idx as int);
                    }
                    let _ = self.disseminator.send_cancel_order(&removed);
                    OrderState::Cancelled
                } else {
                    OrderState::Rejected
                }
            },
            Side::Ask => {
                self.asks_ops = self.asks_ops + 1;
                let idx = Self::find_first_cancel(&self.asks, o);
                if idx < self.asks.len() {
                    let removed_opt = self.asks.remove(idx);
                    let removed = removed_opt.unwrap();
                    proof {
                        lemma_remove_wf(
                            pre.asks@,
                            Side::Ask,
                            pre.order_id,
                            pre.instrument.id,
                            idx as int,
                        );
                        lemma_remove_uncrossed_ask(pre.bids@, pre.asks@, idx as int);
                    }
                    let _ = self.disseminator.send_cancel_order(&removed);
                    OrderState::Cancelled
                } else {
                    OrderState::Rejected
                }
            },
        }
    }

    /// Closes the market: the instrument stops trading, and every
    /// resident order is cancelled, bids first, then asks.
    pub fn close(&mut self)
        requires
            old(self).wf(),
        ensures
            final(self).instrument == (Instrument {
                state: InstrumentState::Closed,
                ..old(self).instrument
            }),
            final(self).bids@ == Seq::<Order>::empty(),
            final(self).asks@ == Seq::<Order>::empty(),
            final(self).order_id == old(self).order_id,
            final(self).bids_ops == old(self).bids_ops,
            final(self).asks_ops == old(self).asks_ops,
            final(self).disseminator.spec_cancels() == old(self).disseminator.spec_cancels() + old(self).bids@ + old(self).asks@,
            final(self).disseminator.spec_new_orders() == old(self).disseminator.spec_new_orders(),
            final(self).disseminator.spec_modifies() == old(self).disseminator.spec_modifies(),
            final(self).disseminator.spec_trades() == old(self).disseminator.spec_trades(),
            final(self).disseminator.spec_instrument_info() == old(self).disseminator.spec_instrument_info(),
            final(self).disseminator.spec_market_orders() == old(self).disseminator.spec_market_orders(),
            final(self).wf(),
    {
        let ghost pre = *old(self);
        self.instrument.set_state(InstrumentState::Closed);
        let mut i: usize = 0;
        while i < self.bids.len()
            invariant
                i <= self.bids@.len(),
                pre == *old(self),
                self.bids@ == pre.bids@,
                self.asks@ == pre.asks@,
                self.instrument == (Instrument {
                    state: InstrumentState::Closed,
                    ..pre.instrument
                }),
                self.order_id == pre.order_id,
                self.bids_ops == pre.bids_ops,
                self.asks_ops == pre.asks_ops,
                self.disseminator.spec_cancels() == pre.disseminator.spec_cancels()
                    + pre.bids@.subrange(0, i as int),
                self.disseminator.spec_new_orders() == pre.disseminator.spec_new_orders(),
                self.disseminator.spec_modifies() == pre.disseminator.spec_modifies(),
                self.disseminator.spec_trades() == pre.disseminator.spec_trades(),
                self.disseminator.spec_instrument_info() == pre.disseminator.spec_instrument_info(),
                self.disseminator.spec_market_orders() == pre.disseminator.spec_market_orders(),
            decreases self.bids@.len() - i,
        {
            let ord = self.bids[i];
            let _ = self.disseminator.send_cancel_order(&ord);
            proof {
                assert(self.disseminator.spec_cancels() =~= pre.disseminator.spec_cancels()
                    + pre.bids@.subrange(0, i + 1));
            }
            i += 1;
        }
        proof {
            assert(pre.bids@.subrange(0, pre.bids@.len() as int) =~= pre.bids@);
        }
        let mut i: usize = 0;
        while i < self.asks.len()
            invariant
                i <= self.asks@.len(),
                pre == *old(self),
                self.bids@ == pre.bids@,
                self.asks@ == pre.asks@,
                self.instrument == (Instrument {
                    state: InstrumentState::Closed,
                    ..pre.instrument
                }),
                self.order_id == pre.order_id,
                self.bids_ops == pre.bids_ops,
                self.asks_ops == pre.asks_ops,
                self.disseminator.spec_cancels() == pre.disseminator.spec_cancels() + pre.bids@
                    + pre.asks@.subrange(0, i as int),
                self.disseminator.spec_new_orders() == pre.disseminator.spec_new_orders(),
                self.disseminator.spec_modifies() == pre.disseminator.spec_modifies(),
                self.disseminator.spec_trades() == pre.disseminator.spec_trades(),
                self.disseminator.spec_instrument_info() == pre.disseminator.spec_instrument_info(),
                self.disseminator.spec_market_orders() == pre.disseminator.spec_market_orders(),
            decreases self.asks@.len() - i,
        {
            let ord = self.asks[i];
            let _ = self.disseminator.send_cancel_order(&ord);
            proof {
                assert(self.disseminator.spec_cancels() =~= pre.disseminator.spec_cancels()
                    + pre.bids@ + pre.asks@.subrange(0, i + 1));
            }
            i += 1;
        }
        proof {
            assert(pre.asks@.subrange(0, pre.asks@.len() as int) =~= pre.asks@);
        }
        self.bids.clear();
        self.asks.clear();
    }

    /// Cancels all the standing orders of one `(participant, gateway,
    /// session)` triple, bids first, then asks; the cancel-on-disconnect
    /// sweep. Returns one `(order id, book id, side)` tuple per cancelled
    /// order, in the same sweep order.
    #[must_use]
    pub fn cancel_all_orders_for_session(
        &mut self,
        participant: u64,
        gateway_id: u8,
        session_id: u32,
    ) -> (r: Vec<(u64, u64, Side)>)
        requires
            old(self).wf(),
            old(self).bids_ops + 2 * old(self).bids@.len() <= u32::MAX,
            old(self).asks_ops + 2 * old(self).asks@.len() <= u32::MAX,
        ensures
            final(self).order_id == old(self).order_id,
            final(self).instrument == old(self).instrument,
            final(self).wf(),
            ({
                let hit = session_pred(participant, gateway_id, session_id);
                let bid_matches = old(self).bids@.filter(hit);
                let ask_matches = old(self).asks@.filter(hit);
                &&& final(self).bids@ == old(self).bids@.filter(
                    session_survives(participant, gateway_id, session_id),
                )
                &&& final(self).asks@ == old(self).asks@.filter(
                    session_survives(participant, gateway_id, session_id),
                )
                &&& final(self).disseminator.spec_cancels() == old(self).disseminator.spec_cancels() + bid_matches + ask_matches
                &&& r@ == (bid_matches + ask_matches).map_values(
                    (|x: Order| (x.id, x.instrument_id, x.side)),
                )
                &&& final(self).bids_ops == old(self).bids_ops + 2 * bid_matches.len()
                &&& final(self).asks_ops == old(self).asks_ops + 2 * ask_matches.len()
            }),
            final(self).disseminator.spec_new_orders() == old(self).disseminator.spec_new_orders(),
            final(self).disseminator.spec_modifies() == old(self).disseminator.spec_modifies(),
            final(self).disseminator.spec_trades() == old(self).disseminator.spec_trades(),
            final(self).disseminator.spec_instrument_info() == old(self).disseminator.spec_instrument_info(),
            final(self).disseminator.spec_market_orders() == old(self).disseminator.spec_market_orders(),
    {
        broadcast use vstd::seq_lib::group_filter_ensures;
        broadcast use Seq::lemma_filter_push;

        let ghost pre = *old(self);
        let ghost hit = session_pred(participant, gateway_id, session_id);
        let ghost keep = session_survives(participant, gateway_id, session_id);
        let mut r: Vec<(u64, u64, Side)> = Vec::new();

        let mut kept_bids: VecDeque<Order> = VecDeque::new();
        let mut matched_bids: u32 = 0;
        let mut i: usize = 0;
        while i < self.bids.len()
            invariant
                i <= self.bids@.len(),
                pre == *old(self),
                hit == session_pred(participant, gateway_id, session_id),
                keep == session_survives(participant, gateway_id, session_id),
                *self == (Market { disseminator: self.disseminator, ..pre }),
                kept_bids@ == pre.bids@.subrange(0, i as int).filter(keep),
                matched_bids == pre.bids@.subrange(0, i as int).filter(hit).len(),
                matched_bids <= i,
                pre.bids_ops + 2 * pre.bids@.len() <= u32::MAX,
                self.disseminator.spec_cancels() == pre.disseminator.spec_cancels()
                    + pre.bids@.subrange(0, i as int).filter(hit),
                r@ == pre.bids@.subrange(0, i as int).filter(hit).map_values(
                    (|x: Order| (x.id, x.instrument_id, x.side)),
                ),
                self.disseminator.spec_new_orders() == pre.disseminator.spec_new_orders(),
                self.disseminator.spec_modifies() == pre.disseminator.spec_modifies(),
                self.disseminator.spec_trades() == pre.disseminator.spec_trades(),
                self.disseminator.spec_instrument_info() == pre.disseminator.spec_instrument_info(),
                self.disseminator.spec_market_orders() == pre.disseminator.spec_market_orders(),
            decreases self.bids@.len() - i,
        {
            let ghost prefix = pre.bids@.subrange(0, i as int);
            let x = self.bids[i];
            proof {
                assert(pre.bids@.subrange(0, i + 1) =~= prefix.push(x));
            }
            if x.participant == participant && x.gateway_id == gateway_id && x.session_id
                == session_id {
                let _ = self.disseminator.send_cancel_order(&x);
                r.push((x.get_id(), x.instrument_id, x.side));
                matched_bids = matched_bids + 1;
                proof {
                    assert(hit(x));
                    assert(!keep(x));
                    prefix.lemma_filter_push(x, hit);
                    prefix.lemma_filter_push(x, keep);
                    assert(prefix.push(x).filter(hit) =~= prefix.filter(hit).push(x));
                    assert(prefix.push(x).filter(keep) =~= prefix.filter(keep));
                    assert(prefix.push(x).filter(hit).map_values(
                        (|y: Order| (y.id, y.instrument_id, y.side)),
                    ) =~= prefix.filter(hit).map_values(
                        (|y: Order| (y.id, y.instrument_id, y.side)),
                    ).push((x.id, x.instrument_id, x.side)));
                }
            } else {
                kept_bids.push_back(x);
                proof {
                    assert(!hit(x));
                    assert(keep(x));
                    prefix.lemma_filter_push(x, hit);
                    prefix.lemma_filter_push(x, keep);
                    assert(prefix.push(x).filter(keep) =~= prefix.filter(keep).push(x));
                    assert(prefix.push(x).filter(hit) =~= prefix.filter(hit));
                }
            }
            i += 1;
        }
        proof {
            assert(pre.bids@.subrange(0, pre.bids@.len() as int) =~= pre.bids@);
        }
        self.bids = kept_bids;
        self.bids_ops = self.bids_ops + 2 * matched_bids;

        let mut kept_asks: VecDeque<Order> = VecDeque::new();
        let mut matched_asks: u32 = 0;
        let mut i: usize = 0;
        while i < self.asks.len()
            invariant
                i <= self.asks@.len(),
                pre == *old(self),
                hit == session_pred(participant, gateway_id, session_id),
                keep == session_survives(participant, gateway_id, session_id),
                self.asks@ == pre.asks@,
                self.bids@ == pre.bids@.filter(keep),
                self.instrument == pre.instrument,
                self.order_id == pre.order_id,
                self.bids_ops == pre.bids_ops + 2 * pre.bids@.filter(hit).len(),
                self.asks_ops == pre.asks_ops,
                kept_asks@ == pre.asks@.subrange(0, i as int).filter(keep),
                matched_asks == pre.asks@.subrange(0, i as int).filter(hit).len(),
                matched_asks <= i,
                pre.asks_ops + 2 * pre.asks@.len() <= u32::MAX,
                self.disseminator.spec_cancels() == pre.disseminator.spec_cancels()
                    + pre.bids@.filter(hit) + pre.asks@.subrange(0, i as int).filter(hit),
                r@ == (pre.bids@.filter(hit) + pre.asks@.subrange(0, i as int).filter(
                    hit,
                )).map_values((|x: Order| (x.id, x.instrument_id, x.side))),
                self.disseminator.spec_new_orders() == pre.disseminator.spec_new_orders(),
                self.disseminator.spec_modifies() == pre.disseminator.spec_modifies(),
                self.disseminator.spec_trades() == pre.disseminator.spec_trades(),
                self.disseminator.spec_instrument_info() == pre.disseminator.spec_instrument_info(),
                self.disseminator.spec_market_orders() == pre.disseminator.spec_market_orders(),
            decreases self.asks@.len() - i,
        {
            let ghost prefix = pre.asks@.subrange(0, i as int);
            let x = self.asks[i];
            proof {
                assert(pre.asks@.subrange(0, i + 1) =~= prefix.push(x));
            }
            if x.participant == participant && x.gateway_id == gateway_id && x.session_id
                == session_id {
                let _ = self.disseminator.send_cancel_order(&x);
                r.push((x.get_id(), x.instrument_id, x.side));
                matched_asks = matched_asks + 1;
                proof {
                    assert(hit(x));
                    assert(!keep(x));
                    prefix.lemma_filter_push(x, hit);
                    prefix.lemma_filter_push(x, keep);
                    assert(prefix.push(x).filter(hit) =~= prefix.filter(hit).push(x));
                    assert(prefix.push(x).filter(keep) =~= prefix.filter(keep));
                    assert(self.disseminator.spec_cancels() =~= pre.disseminator.spec_cancels()
                        + pre.bids@.filter(hit) + prefix.push(x).filter(hit));
                    assert((pre.bids@.filter(hit) + prefix.push(x).filter(hit)).map_values(
                        (|y: Order| (y.id, y.instrument_id, y.side)),
                    ) =~= (pre.bids@.filter(hit) + prefix.filter(hit)).map_values(
                        (|y: Order| (y.id, y.instrument_id, y.side)),
                    ).push((x.id, x.instrument_id, x.side)));
                }
            } else {
                kept_asks.push_back(x);
                proof {
                    assert(!hit(x));
                    assert(keep(x));
                    prefix.lemma_filter_push(x, hit);
                    prefix.lemma_filter_push(x, keep);
                    assert(prefix.push(x).filter(keep) =~= prefix.filter(keep).push(x));
                    assert(prefix.push(x).filter(hit) =~= prefix.filter(hit));
                }
            }
            i += 1;
        }
        proof {
            assert(pre.asks@.subrange(0, pre.asks@.len() as int) =~= pre.asks@);
        }
        self.asks = kept_asks;
        self.asks_ops = self.asks_ops + 2 * matched_asks;
        proof {
            lemma_filter_wf(pre.bids@, keep, Side::Bid, pre.order_id, pre.instrument.id);
            lemma_filter_wf(pre.asks@, keep, Side::Ask, pre.order_id, pre.instrument.id);
            lemma_subset_uncrossed(
                pre.bids@,
                pre.asks@,
                pre.bids@.filter(keep),
                pre.asks@.filter(keep),
            );
        }
        r
    }

    /// Publishes the state of the registered instrument and a snapshot of
    /// the market: one record per resident order, bids first, then asks.
    /// A failed send ends the snapshot early; on success the returned
    /// count is the number of records published.
    pub fn publish_snapshot(&mut self) -> (r: Result<usize, SendError>)
        requires
            old(self).bids@.len() + old(self).asks@.len() < usize::MAX,
        ensures
            final(self).bids@ == old(self).bids@,
            final(self).asks@ == old(self).asks@,
            final(self).order_id == old(self).order_id,
            final(self).instrument == old(self).instrument,
            final(self).bids_ops == old(self).bids_ops,
            final(self).asks_ops == old(self).asks_ops,
            old(self).wf() ==> final(self).wf(),
            final(self).disseminator.spec_instrument_info() == old(self).disseminator.spec_instrument_info().push(old(self).instrument@),
            final(self).disseminator.spec_cancels() == old(self).disseminator.spec_cancels(),
            final(self).disseminator.spec_new_orders() == old(self).disseminator.spec_new_orders(),
            final(self).disseminator.spec_modifies() == old(self).disseminator.spec_modifies(),
            final(self).disseminator.spec_trades() == old(self).disseminator.spec_trades(),
            ({
                let all = old(self).bids@ + old(self).asks@;
                exists|k: int|
                    0 <= k <= all.len() && final(self).disseminator.spec_market_orders() == old(self).disseminator.spec_market_orders() + #[trigger] all.subrange(0, k) && (
                    r matches Ok(_) ==> k == all.len())
            }),
            (match r {
                Ok(n) => n == 1 + old(self).bids@.len() + old(self).asks@.len(),
                Err(_) => true,
            }),
    {
        let ghost pre = *old(self);
        let ghost all = pre.bids@ + pre.asks@;
        let mut result: usize;
        match self.disseminator.send_instrument_info(&self.instrument) {
            Ok(_) => {
                result = 1;
            },
            Err(e) => {
                proof {
                    assert(self.disseminator.spec_market_orders()
                        == pre.disseminator.spec_market_orders() + all.subrange(0, 0)) by {
                        assert(all.subrange(0, 0) =~= Seq::<Order>::empty());
                        assert(pre.disseminator.spec_market_orders() + Seq::<Order>::empty()
                            =~= pre.disseminator.spec_market_orders());
                    }
                }
                return Err(e);
            },
        }
        let mut i: usize = 0;
        while i < self.bids.len()
            invariant
                i <= self.bids@.len(),
                pre == *old(self),
                *self == (Market { disseminator: self.disseminator, ..pre }),
                self.disseminator.spec_instrument_info()
                    == pre.disseminator.spec_instrument_info().push(pre.instrument@),
                self.disseminator.spec_cancels() == pre.disseminator.spec_cancels(),
                self.disseminator.spec_new_orders() == pre.disseminator.spec_new_orders(),
                self.disseminator.spec_modifies() == pre.disseminator.spec_modifies(),
                self.disseminator.spec_trades() == pre.disseminator.spec_trades(),
                self.disseminator.spec_market_orders() == pre.disseminator.spec_market_orders()
                    + pre.bids@.subrange(0, i as int),
                all == pre.bids@ + pre.asks@,
                pre.bids@.len() + pre.asks@.len() < usize::MAX,
                result == 1 + i,
            decreases self.bids@.len() - i,
        {
            let ord = self.bids[i];
            let sent = self.disseminator.send_market_order(&ord);
            proof {
                assert(pre.disseminator.spec_market_orders() + pre.bids@.subrange(0, i as int).push(
                    ord,
                ) =~= pre.disseminator.spec_market_orders() + pre.bids@.subrange(0, i + 1));
            }
            match sent {
                Ok(_) => {
                    result = result + 1;
                },
                Err(e) => {
                    proof {
                        assert(all.subrange(0, i + 1) =~= pre.bids@.subrange(0, i + 1));
                    }
                    return Err(e);
                },
            }
            i += 1;
        }
        proof {
            assert(pre.bids@.subrange(0, pre.bids@.len() as int) =~= pre.bids@);
        }
        let mut i: usize = 0;
        while i < self.asks.len()
            invariant
                i <= self.asks@.len(),
                pre == *old(self),
                *self == (Market { disseminator: self.disseminator, ..pre }),
                self.disseminator.spec_instrument_info()
                    == pre.disseminator.spec_instrument_info().push(pre.instrument@),
                self.disseminator.spec_cancels() == pre.disseminator.spec_cancels(),
                self.disseminator.spec_new_orders() == pre.disseminator.spec_new_orders(),
                self.disseminator.spec_modifies() == pre.disseminator.spec_modifies(),
                self.disseminator.spec_trades() == pre.disseminator.spec_trades(),
                self.disseminator.spec_market_orders() == pre.disseminator.spec_market_orders()
                    + pre.bids@ + pre.asks@.subrange(0, i as int),
                all == pre.bids@ + pre.asks@,
                pre.bids@.len() + pre.asks@.len() < usize::MAX,
                result == 1 + pre.bids@.len() + i,
            decreases self.asks@.len() - i,
        {
            let ord = self.asks[i];
            let sent = self.disseminator.send_market_order(&ord);
            proof {
                assert((pre.disseminator.spec_market_orders() + pre.bids@ + pre.asks@.subrange(
                    0,
                    i as int,
                )).push(ord) =~= pre.disseminator.spec_market_orders() + pre.bids@
                    + pre.asks@.subrange(0, i + 1));
            }
            match sent {
                Ok(_) => {
                    result = result + 1;
                },
                Err(e) => {
                    proof {
                        assert(all.subrange(0, pre.bids@.len() + i + 1) =~= pre.bids@
                            + pre.asks@.subrange(0, i + 1));
                        assert(self.disseminator.spec_market_orders()
                            == pre.disseminator.spec_market_orders() + all.subrange(
                            0,
                            pre.bids@.len() + i + 1,
                        ));
                    }
                    return Err(e);
                },
            }
            i += 1;
        }
        proof {
            assert(pre.asks@.subrange(0, pre.asks@.len() as int) =~= pre.asks@);
            assert(all.subrange(0, all.len() as int) =~= all);
            assert(self.disseminator.spec_market_orders()
                == pre.disseminator.spec_market_orders() + all.subrange(0, all.len() as int)) by {
                assert(pre.disseminator.spec_market_orders() + pre.bids@ + pre.asks@
                    =~= pre.disseminator.spec_market_orders() + (pre.bids@ + pre.asks@));
            }
        }
        Ok(result)
    }

    /// Modifies a resident order, located by owner, exchange id and order
    /// type on the named side. A quantity change keeps the order's place;
    /// a price change cancels it and runs the changed order through
    /// `add_order`, losing time priority and drawing a fresh exchange id.
    pub fn modify_order(&mut self, o: Order) -> (r: (OrderState, u64))
        requires
            old(self).wf(),
            o.instrument_id == old(self).instrument.id,
            old(self).order_id < u64::MAX,
            old(self).bids_ops < u32::MAX,
            old(self).asks_ops < u32::MAX,
        ensures
            final(self).instrument == old(self).instrument,
            final(self).wf(),
            ({
                let s = if o.side == Side::Bid {
                    old(self).bids@
                } else {
                    old(self).asks@
                };
                let i = spec_find(s, modify_pred(o));
                &&& (o.quantity == 0 ==> r == (OrderState::Rejected, 0u64) && *final(self) == *old(self))
                &&& (o.quantity != 0 && i == s.len() ==> r == (OrderState::Rejected, 0u64)
                    && *final(self) == *old(self))
                &&& (o.quantity != 0 && i < s.len() && o.price == s[i].price ==> {
                    let updated = Order { quantity: o.quantity, ..s[i] };
                    &&& r == (OrderState::Modified, s[i].id)
                    &&& (o.side == Side::Bid ==> final(self).bids@ == s.update(i, updated)
                        && final(self).asks@ == old(self).asks@)
                    &&& (o.side == Side::Ask ==> final(self).asks@ == s.update(i, updated)
                        && final(self).bids@ == old(self).bids@)
                    &&& final(self).disseminator.spec_modifies() == old(self).disseminator.spec_modifies().push(updated)
                    &&& final(self).disseminator.spec_cancels() == old(self).disseminator.spec_cancels()
                    &&& final(self).disseminator.spec_trades() == old(self).disseminator.spec_trades()
                    &&& final(self).disseminator.spec_new_orders() == old(self).disseminator.spec_new_orders()
                    &&& final(self).order_id == old(self).order_id
                    &&& final(self).bids_ops == old(self).bids_ops
                    &&& final(self).asks_ops == old(self).asks_ops
                })
                &&& (o.quantity != 0 && i < s.len() && o.price != s[i].price ==> {
                    let bids1 = if o.side == Side::Bid {
                        old(self).bids@.remove(i)
                    } else {
                        old(self).bids@
                    };
                    let asks1 = if o.side == Side::Ask {
                        old(self).asks@.remove(i)
                    } else {
                        old(self).asks@
                    };
                    let out = spec_add(
                        bids1,
                        asks1,
                        old(self).instrument.state,
                        old(self).instrument.percentage_bands,
                        (old(self).order_id + 1) as u64,
                        o,
                    );
                    &&& r == (out.state, out.id)
                    &&& final(self).bids@ == out.bids
                    &&& final(self).asks@ == out.asks
                    &&& final(self).order_id == old(self).order_id + 1
                    &&& final(self).disseminator.spec_cancels() == old(self).disseminator.spec_cancels().push(s[i])
                    &&& final(self).disseminator.spec_trades() == old(self).disseminator.spec_trades() + out.trades
                    &&& final(self).disseminator.spec_new_orders() == old(self).disseminator.spec_new_orders() + (if out.published_new {
                        seq![out.posted.unwrap()]
                    } else {
                        Seq::<Order>::empty()
                    })
                    &&& final(self).disseminator.spec_modifies() == old(self).disseminator.spec_modifies()
                    &&& (final(self).bids_ops, final(self).asks_ops) == spec_add_ops(
                        old(self).bids_ops,
                        old(self).asks_ops,
                        o.side,
                        out.state == OrderState::Rejected,
                    )
                })
            }),
            final(self).disseminator.spec_instrument_info() == old(self).disseminator.spec_instrument_info(),
            final(self).disseminator.spec_market_orders() == old(self).disseminator.spec_market_orders(),
    {
        let ghost pre = *old(self);
        if o.quantity == 0 {
            return (OrderState::Rejected, 0);
        }
        match o.side {
            Side::Bid => {
                let idx = Self::find_first_modify(&self.bids, &o);
                if idx >= self.bids.len() {
                    return (OrderState::Rejected, 0);
                }
                let resident = self.bids[idx];
                if o.price == resident.price {
                    // change the quantity only; the order keeps its place
                    let updated = Order { quantity: o.quantity, ..resident };
                    let _ = self.bids.remove(idx);
                    self.bids.insert(idx, updated);
                    proof {
                        assert(self.bids@ =~= pre.bids@.update(idx as int, updated));
                        lemma_update_qty_wf(
                            pre.bids@,
                            Side::Bid,
                            pre.order_id,
                            pre.instrument.id,
                            idx as int,
                            o.quantity,
                        );
                        assert forall|a: int, b: int|
                            0 <= a < self.bids@.len() && 0 <= b < self.asks@.len() implies (
                        #[trigger] self.bids@[a]).price < (#[trigger] self.asks@[b]).price by {
                            if a != idx {
                                assert(self.bids@[a] == pre.bids@[a]);
                            }
                        }
                    }
                    let _ = self.disseminator.send_modify_order(&updated);
                    (OrderState::Modified, resident.get_id())
                } else {
                    let _ = self.disseminator.send_cancel_order(&resident);
                    let _ = self.bids.remove(idx);
                    proof {
                        lemma_remove_wf(
                            pre.bids@,
                            Side::Bid,
                            pre.order_id,
                            pre.instrument.id,
                            idx as int,
                        );
                        lemma_remove_uncrossed_bid(pre.bids@, pre.asks@, idx as int);
                    }
                    self.add_order(o)
                }
            },
            Side::Ask => {
                let idx = Self::find_first_modify(&self.asks, &o);
                if idx >= self.asks.len() {
                    return (OrderState::Rejected, 0);
                }
                let resident = self.asks[idx];
                if o.price == resident.price {
                    // change the quantity only; the order keeps its place
                    let updated = Order { quantity: o.quantity, ..resident };
                    let _ = self.asks.remove(idx);
                    self.asks.insert(idx, updated);
                    proof {
                        assert(self.asks@ =~= pre.asks@.update(idx as int, updated));
                        lemma_update_qty_wf(
                            pre.asks@,
                            Side::Ask,
                            pre.order_id,
                            pre.instrument.id,
                            idx as int,
                            o.quantity,
                        );
                        assert forall|a: int, b: int|
                            0 <= a < self.bids@.len() && 0 <= b < self.asks@.len() implies (
                        #[trigger] self.bids@[a]).price < (#[trigger] self.asks@[b]).price by {
                            if b != idx {
                                assert(self.asks@[b] == pre.asks@[b]);
                            }
                        }
                    }
                    let _ = self.disseminator.send_modify_order(&updated);
                    (OrderState::Modified, resident.get_id())
                } else {
                    let _ = self.disseminator.send_cancel_order(&resident);
                    let _ = self.asks.remove(idx);
                    proof {
                        lemma_remove_wf(
                            pre.asks@,
                            Side::Ask,
                            pre.order_id,
                            pre.instrument.id,
                            idx as int,
                        );
                        lemma_remove_uncrossed_ask(pre.bids@, pre.asks@, idx as int);
                    }
                    self.add_order(o)
                }
            },
        }
    }

    /// The first resident that a cancel for `o` names, or the side's
    /// length if there is none.
    fn find_first_cancel(s: &VecDeque<Order>, o: &Order) -> (i: usize)
        ensures
            i == spec_find(s@, cancel_pred(*o)),
            i <= s@.len(),
    {
        let mut i: usize = 0;
        while i < s.len()
            invariant
                i <= s@.len(),
                forall|j: int| 0 <= j < i ==> !cancel_pred(*o)(#[trigger] s@[j]),
            decreases s@.len() - i,
        {
            let x = s[i];
            if x.participant == o.participant && x.gateway_id == o.gateway_id && x.session_id
                == o.session_id && x.get_id() == o.get_id() {
                proof {
                    lemma_find_char(s@, cancel_pred(*o), i as int);
                }
                return i;
            }
            i += 1;
        }
        proof {
            lemma_find_char(s@, cancel_pred(*o), i as int);
        }
        i
    }

    /// The first resident that a modify for `o` names (the order type
    /// must agree too), or the side's length if there is none.
    fn find_first_modify(s: &VecDeque<Order>, o: &Order) -> (i: usize)
        ensures
            i == spec_find(s@, modify_pred(*o)),
            i <= s@.len(),
    {
        let mut i: usize = 0;
        while i < s.len()
            invariant
                i <= s@.len(),
                forall|j: int| 0 <= j < i ==> !modify_pred(*o)(#[trigger] s@[j]),
            decreases s@.len() - i,
        {
            let x = s[i];
            if x.participant == o.participant && x.gateway_id == o.gateway_id && x.session_id
                == o.session_id && x.get_id() == o.get_id() && x.order_type == o.order_type {
                proof {
                    lemma_find_char(s@, modify_pred(*o), i as int);
                }
                return i;
            }
            i += 1;
        }
        proof {
            lemma_find_char(s@, modify_pred(*o), i as int);
        }
        i
    }

    /// Whether the aggressor can fill against this resident right now.
    fn should_match(agg: &Order, top: &Order) -> (r: bool)
        ensures
            r == (price_crosses(*agg, *top) || agg.order_type == OrderType::Market),
    {
        let crosses = match agg.side {
            Side::Bid => agg.price >= top.price,
            Side::Ask => agg.price <= top.price,
        };
        crosses || agg.order_type == OrderType::Market
    }

    /// The match loop of an add: fills `agg` against the front of `opp`
    /// until the aggressor is spent, the side is empty, or the top no
    /// longer crosses, publishing one trade record per fill.
    fn run_match(opp: &mut VecDeque<Order>, agg: &mut Order, dissem: &mut D) -> (traded: bool)
        requires
            forall|i: int| 0 <= i < old(opp)@.len() ==> old(opp)@[i].quantity > 0,
        ensures
            final(opp)@ == spec_match(old(opp)@, *old(agg)).0,
            *final(agg) == spec_match(old(opp)@, *old(agg)).1,
            final(dissem).spec_trades() == old(dissem).spec_trades() + spec_match(
                old(opp)@,
                *old(agg),
            ).2,
            final(dissem).spec_cancels() == old(dissem).spec_cancels(),
            final(dissem).spec_new_orders() == old(dissem).spec_new_orders(),
            final(dissem).spec_modifies() == old(dissem).spec_modifies(),
            final(dissem).spec_instrument_info() == old(dissem).spec_instrument_info(),
            final(dissem).spec_market_orders() == old(dissem).spec_market_orders(),
            traded == (spec_match(old(opp)@, *old(agg)).2.len() > 0),
    {
        let ghost opp0 = opp@;
        let ghost agg0 = *agg;
        let ghost d0 = *dissem;
        let ghost mut emitted: Seq<Trade> = Seq::<Trade>::empty();
        let mut traded = false;
        while agg.quantity > 0 && opp.len() > 0 && Self::should_match(agg, &opp[0])
            invariant
                forall|i: int| 0 <= i < opp@.len() ==> opp@[i].quantity > 0,
                spec_match(opp0, agg0).0 == spec_match(opp@, *agg).0,
                spec_match(opp0, agg0).1 == spec_match(opp@, *agg).1,
                spec_match(opp0, agg0).2 == emitted + spec_match(opp@, *agg).2,
                dissem.spec_trades() == d0.spec_trades() + emitted,
                dissem.spec_cancels() == d0.spec_cancels(),
                dissem.spec_new_orders() == d0.spec_new_orders(),
                dissem.spec_modifies() == d0.spec_modifies(),
                dissem.spec_instrument_info() == d0.spec_instrument_info(),
                dissem.spec_market_orders() == d0.spec_market_orders(),
                traded == (emitted.len() > 0),
            decreases opp@.len(), agg.quantity,
        {
            let ghost opp_iter = opp@;
            let ghost agg_iter = *agg;
            let front = opp[0];
            let trade_volume = if front.quantity <= agg.quantity {
                front.quantity
            } else {
                agg.quantity
            };
            agg.quantity = agg.quantity - trade_volume;
            let p_opt = opp.pop_front();
            let mut p = p_opt.unwrap();
            p.quantity = p.quantity - trade_volume;
            if p.quantity > 0 {
                opp.push_front(p);
            }
            let t = Trade {
                bid_order_id: if agg.side == Side::Bid {
                    agg.get_id()
                } else {
                    p.get_id()
                },
                ask_order_id: if agg.side == Side::Ask {
                    agg.get_id()
                } else {
                    p.get_id()
                },
                price: p.price,
                quantity: trade_volume,
            };
            let _ = dissem.send_trade(&t);
            traded = true;
            proof {
                let vol = spec_min_u64(opp_iter[0].quantity, agg_iter.quantity);
                assert(vol == trade_volume);
                let top2 = Order { quantity: (opp_iter[0].quantity - vol) as u64, ..opp_iter[0] };
                let rest = if top2.quantity > 0 {
                    seq![top2] + opp_iter.skip(1)
                } else {
                    opp_iter.skip(1)
                };
                assert(t == spec_trade(agg_iter, opp_iter[0], vol));
                assert(opp@ =~= rest);
                emitted = emitted.push(t);
                assert(emitted + spec_match(opp@, *agg).2 =~= (emitted.drop_last()) + (seq![t]
                    + spec_match(opp@, *agg).2));
                assert(dissem.spec_trades() =~= d0.spec_trades() + emitted);
            }
        }
        proof {
            assert(spec_match(opp@, *agg) == (opp@, *agg, Seq::<Trade>::empty()));
            assert(spec_match(opp0, agg0).2 =~= emitted);
        }
        traded
    }

    /// Posts an order on its own side at the first position whose
    /// resident prices strictly worse, so equal-priced residents keep
    /// their time priority.
    fn insert_into_right_position(&mut self, o: &Order)
        ensures
            (match o.side {
                Side::Bid => final(self).bids@ == old(self).bids@.insert(
                    spec_insert_pos(old(self).bids@, *o),
                    *o,
                ) && final(self).asks@ == old(self).asks@,
                Side::Ask => final(self).asks@ == old(self).asks@.insert(
                    spec_insert_pos(old(self).asks@, *o),
                    *o,
                ) && final(self).bids@ == old(self).bids@,
            }),
            *final(self) == (Market {
                bids: final(self).bids,
                asks: final(self).asks,
                ..*old(self)
            }),
    {
        match o.side {
            Side::Bid => {
                let mut pos: usize = 0;
                while pos < self.bids.len() && !(self.bids[pos as usize].price < o.price)
                    invariant
                        pos <= self.bids@.len(),
                        forall|i: int| 0 <= i < pos ==> !spec_price_worse(self.bids@[i], *o),
                        o.side == Side::Bid,
                    decreases self.bids@.len() - pos,
                {
                    pos += 1;
                }
                proof {
                    lemma_insert_pos_char(self.bids@, *o, pos as int);
                }
                self.bids.insert(pos, *o);
            },
            Side::Ask => {
                let mut pos: usize = 0;
                while pos < self.asks.len() && !(self.asks[pos as usize].price > o.price)
                    invariant
                        pos <= self.asks@.len(),
                        forall|i: int| 0 <= i < pos ==> !spec_price_worse(self.asks@[i], *o),
                        o.side == Side::Ask,
                    decreases self.asks@.len() - pos,
                {
                    pos += 1;
                }
                proof {
                    lemma_insert_pos_char(self.asks@, *o, pos as int);
                }
                self.asks.insert(pos, *o);
            },
        }
    }
}

/// The same order but for its remaining quantity.
pub open spec fn same_except_quantity(a: Order, b: Order) -> bool {
    a == (Order { quantity: a.quantity, ..b })
}

/// How one side looks after a match loop consumed its front: a suffix of
/// the original side whose first element may have had its quantity
/// reduced, everything else untouched.
pub open spec fn match_remnant(opp: Seq<Order>, res: Seq<Order>) -> bool {
    &&& res.len() <= opp.len()
    &&& forall|j: int|
        0 <= j < res.len() ==> same_except_quantity(
            #[trigger] res[j],
            opp[j + opp.len() - res.len()],
        ) && res[j].quantity <= opp[j + opp.len() - res.len()].quantity
    &&& forall|j: int| 1 <= j < res.len() ==> #[trigger] res[j] == opp[j + opp.len() - res.len()]
}

/// Being a match remnant is transitive.
proof fn lemma_remnant_trans(a: Seq<Order>, b: Seq<Order>, c: Seq<Order>)
    requires
        match_remnant(a, b),
        match_remnant(b, c),
    ensures
        match_remnant(a, c),
{
    assert forall|j: int| 0 <= j < c.len() implies same_except_quantity(
        #[trigger] c[j],
        a[j + a.len() - c.len()],
    ) && c[j].quantity <= a[j + a.len() - c.len()].quantity by {
        let jb = j + b.len() - c.len();
        assert(same_except_quantity(c[j], b[jb]));
        assert(same_except_quantity(b[jb], a[jb + a.len() - b.len()]));
    }
    assert forall|j: int| 1 <= j < c.len() implies #[trigger] c[j] == a[j + a.len() - c.len()] by {
        let jb = j + b.len() - c.len();
        assert(c[j] == b[jb]);
        assert(b[jb] == a[jb + a.len() - b.len()]);
    }
}

/// What the match loop leaves behind: the opposite side is a remnant of
/// the original (so well-formedness and the crossing discipline carry
/// over), the remainder differs from the aggressor only in quantity, and
/// a standing remainder of a limit order no longer crosses the top.
#[verifier::rlimit(50)]
pub proof fn lemma_match_preserves(
    opp: Seq<Order>,
    agg: Order,
    side: Side,
    order_id: u64,
    instrument_id: u64,
)
    requires
        side_wf(opp, side, order_id, instrument_id),
    ensures
        ({
            let m = spec_match(opp, agg);
            &&& side_wf(m.0, side, order_id, instrument_id)
            &&& match_remnant(opp, m.0)
            &&& same_except_quantity(m.1, agg)
            &&& m.1.quantity <= agg.quantity
            &&& (m.1.quantity > 0 && m.0.len() > 0 ==> !(price_crosses(m.1, m.0[0])
                || agg.order_type == OrderType::Market))
        }),
    decreases opp.len(), agg.quantity,
{
    let m = spec_match(opp, agg);
    if agg.quantity > 0 && opp.len() > 0 && (price_crosses(agg, opp[0]) || agg.order_type
        == OrderType::Market) && spec_min_u64(opp[0].quantity, agg.quantity) > 0 {
        let vol = spec_min_u64(opp[0].quantity, agg.quantity);
        let top2 = Order { quantity: (opp[0].quantity - vol) as u64, ..opp[0] };
        let agg2 = Order { quantity: (agg.quantity - vol) as u64, ..agg };
        let rest = if top2.quantity > 0 {
            seq![top2] + opp.skip(1)
        } else {
            opp.skip(1)
        };
        if top2.quantity > 0 {
            assert(forall|i: int| 0 <= i < rest.len() ==> #[trigger] rest[i] == if i == 0 {
                top2
            } else {
                opp[i]
            });
        } else {
            assert(forall|i: int| 0 <= i < rest.len() ==> #[trigger] rest[i] == opp[i + 1]);
        }
        assert(side_wf(rest, side, order_id, instrument_id));
        assert(match_remnant(opp, rest));
        lemma_match_preserves(rest, agg2, side, order_id, instrument_id);
        let m2 = spec_match(rest, agg2);
        assert(m.0 == m2.0);
        lemma_remnant_trans(opp, rest, m2.0);
    } else {
        assert(match_remnant(opp, m.0));
    }
}

/// A book stays uncrossed when one side is replaced by a match remnant
/// of itself: remnant prices are a subset of the original prices.
pub proof fn lemma_remnant_uncrossed_asks(bids: Seq<Order>, asks: Seq<Order>, asks2: Seq<Order>)
    requires
        uncrossed(bids, asks),
        match_remnant(asks, asks2),
    ensures
        uncrossed(bids, asks2),
{
    assert forall|i: int, j: int| 0 <= i < bids.len() && 0 <= j < asks2.len() implies (
    #[trigger] bids[i]).price < (#[trigger] asks2[j]).price by {
        assert(same_except_quantity(asks2[j], asks[j + asks.len() - asks2.len()]));
    }
}

/// Symmetric form of `lemma_remnant_uncrossed_asks` for the bid side.
pub proof fn lemma_remnant_uncrossed_bids(bids: Seq<Order>, asks: Seq<Order>, bids2: Seq<Order>)
    requires
        uncrossed(bids, asks),
        match_remnant(bids, bids2),
    ensures
        uncrossed(bids2, asks),
{
    assert forall|i: int, j: int| 0 <= i < bids2.len() && 0 <= j < asks.len() implies (
    #[trigger] bids2[i]).price < (#[trigger] asks[j]).price by {
        assert(same_except_quantity(bids2[i], bids[i + bids.len() - bids2.len()]));
    }
}

/// Posting an order with a fresh id at its price-time position keeps the
/// side well-formed, under the id bound of the posted order.
pub proof fn lemma_insert_wf(s: Seq<Order>, side: Side, o: Order, bound: u64, instrument_id: u64)
    requires
        side_wf(s, side, bound, instrument_id),
        o.side == side,
        o.quantity > 0,
        o.price > 0,
        o.instrument_id == instrument_id,
        bound < o.id,
    ensures
        side_wf(s.insert(spec_insert_pos(s, o), o), side, o.id, instrument_id),
    decreases s.len(),
{
    let p = spec_insert_pos(s, o);
    lemma_insert_pos_bounds(s, o);
    let s2 = s.insert(p, o);
    assert forall|i: int, j: int| 0 <= i < j < s2.len() implies match side {
        Side::Bid => s2[i].price >= s2[j].price,
        Side::Ask => s2[i].price <= s2[j].price,
    } by {
        if i < p && j > p {
            assert(s2[i] == s[i]);
            assert(s2[j] == s[j - 1]);
        }
    }
    assert(price_time_ordered(s2)) by {
        assert forall|i: int, j: int|
            0 <= i < j < s2.len() && s2[i].price == s2[j].price implies s2[i].id < s2[j].id by {
            if j == p {
                // an equal-priced resident before the insert position is older
                assert(s2[i] == s[i]);
            } else if i == p {
                // everything behind the insert position prices strictly worse
                assert(s2[j] == s[j - 1]);
                assert(spec_price_worse(s[j - 1], o));
            } else if i < p && j < p {
                assert(s2[i] == s[i] && s2[j] == s[j]);
            } else if i > p && j > p {
                assert(s2[i] == s[i - 1] && s2[j] == s[j - 1]);
            } else {
                assert(s2[i] == s[i]);
                assert(s2[j] == s[j - 1]);
            }
        }
    }
}

/// What a cancel for `o` looks for: the same owner triple and the same
/// exchange id.
pub open spec fn cancel_pred(o: Order) -> spec_fn(Order) -> bool {
    |x: Order|
        x.participant == o.participant && x.gateway_id == o.gateway_id && x.session_id
            == o.session_id && x.id == o.id
}

/// What a modify for `o` looks for: a cancel's criteria, and the same
/// order type.
pub open spec fn modify_pred(o: Order) -> spec_fn(Order) -> bool {
    |x: Order|
        x.participant == o.participant && x.gateway_id == o.gateway_id && x.session_id
            == o.session_id && x.id == o.id && x.order_type == o.order_type
}

/// Whether a resident belongs to the given session triple; what a
/// cancel-on-disconnect sweeps out.
pub open spec fn session_pred(participant: u64, gateway_id: u8, session_id: u32) -> spec_fn(
    Order,
) -> bool {
    |x: Order| x.participant == participant && x.gateway_id == gateway_id && x.session_id
        == session_id
}

/// Whether a resident stays in the book when the given session triple is
/// swept; the complement of `session_pred`.
pub open spec fn session_survives(participant: u64, gateway_id: u8, session_id: u32) -> spec_fn(
    Order,
) -> bool {
    |x: Order|
        !(x.participant == participant && x.gateway_id == gateway_id && x.session_id
            == session_id)
}

/// The first index satisfying `pred`, or the length if there is none.
pub open spec fn spec_find(s: Seq<Order>, pred: spec_fn(Order) -> bool) -> int
    decreases s.len(),
{
    if s.len() == 0 {
        0
    } else if pred(s[0]) {
        0
    } else {
        1 + spec_find(s.skip(1), pred)
    }
}

/// `spec_find` is the unique index with no earlier hit that either hits
/// or is the end.
pub proof fn lemma_find_char(s: Seq<Order>, pred: spec_fn(Order) -> bool, p: int)
    requires
        0 <= p <= s.len(),
        forall|i: int| 0 <= i < p ==> !pred(#[trigger] s[i]),
        p < s.len() ==> pred(s[p]),
    ensures
        spec_find(s, pred) == p,
    decreases s.len(),
{
    if s.len() == 0 {
    } else if pred(s[0]) {
        assert(p == 0);
    } else {
        assert(p >= 1);
        let s1 = s.skip(1);
        assert(forall|i: int| 0 <= i < p - 1 ==> s1[i] == s[i + 1]);
        lemma_find_char(s1, pred, p - 1);
    }
}

/// Removing one resident keeps a side well-formed.
pub proof fn lemma_remove_wf(s: Seq<Order>, side: Side, bound: u64, instrument_id: u64, i: int)
    requires
        side_wf(s, side, bound, instrument_id),
        0 <= i < s.len(),
    ensures
        side_wf(s.remove(i), side, bound, instrument_id),
{
    let s2 = s.remove(i);
    assert(forall|j: int| 0 <= j < s2.len() ==> #[trigger] s2[j] == (if j < i {
        s[j]
    } else {
        s[j + 1]
    }));
}

/// Keeping only the residents that survive a predicate keeps a side
/// well-formed; every survivor already stood somewhere in the side.
pub proof fn lemma_filter_wf(
    s: Seq<Order>,
    p: spec_fn(Order) -> bool,
    side: Side,
    bound: u64,
    instrument_id: u64,
)
    requires
        side_wf(s, side, bound, instrument_id),
    ensures
        side_wf(s.filter(p), side, bound, instrument_id),
        forall|j: int| 0 <= j < s.filter(p).len() ==> s.contains(#[trigger] s.filter(p)[j]),
    decreases s.len(),
{
    reveal(Seq::filter);
    let fs = s.filter(p);
    if s.len() > 0 {
        let pre = s.drop_last();
        assert(forall|i: int| 0 <= i < pre.len() ==> #[trigger] pre[i] == s[i]);
        assert(side_wf(pre, side, bound, instrument_id));
        lemma_filter_wf(pre, p, side, bound, instrument_id);
        let fpre = pre.filter(p);
        if p(s.last()) {
            assert(fs == fpre.push(s.last()));
            assert forall|j: int| 0 <= j < fs.len() implies s.contains(#[trigger] fs[j]) by {
                if j < fpre.len() {
                    assert(pre.contains(fpre[j]));
                    let k = choose|k: int| 0 <= k < pre.len() && pre[k] == fpre[j];
                    assert(s[k] == fs[j]);
                } else {
                    assert(fs[j] == s[s.len() - 1]);
                }
            }
            assert forall|i: int, j: int| 0 <= i < j < fs.len() implies (match side {
                Side::Bid => fs[i].price >= fs[j].price,
                Side::Ask => fs[i].price <= fs[j].price,
            }) && (fs[i].price == fs[j].price ==> fs[i].id < fs[j].id) by {
                if j < fpre.len() {
                    assert(fs[i] == fpre[i] && fs[j] == fpre[j]);
                } else {
                    assert(fs[j] == s.last());
                    assert(pre.contains(fpre[i]));
                    let k = choose|k: int| 0 <= k < pre.len() && pre[k] == fpre[i];
                    assert(fs[i] == s[k]);
                    assert(k < s.len() - 1);
                }
            }
        } else {
            assert(fs == fpre);
        }
    }
}

/// A book stays uncrossed when each side is reduced to residents it
/// already held.
pub proof fn lemma_subset_uncrossed(
    bids: Seq<Order>,
    asks: Seq<Order>,
    bids2: Seq<Order>,
    asks2: Seq<Order>,
)
    requires
        uncrossed(bids, asks),
        forall|i: int| 0 <= i < bids2.len() ==> bids.contains(#[trigger] bids2[i]),
        forall|j: int| 0 <= j < asks2.len() ==> asks.contains(#[trigger] asks2[j]),
    ensures
        uncrossed(bids2, asks2),
{
    assert forall|i: int, j: int| 0 <= i < bids2.len() && 0 <= j < asks2.len() implies (
    #[trigger] bids2[i]).price < (#[trigger] asks2[j]).price by {
        assert(bids.contains(bids2[i]));
        assert(asks.contains(asks2[j]));
        let ki = choose|k: int| 0 <= k < bids.len() && bids[k] == bids2[i];
        let kj = choose|k: int| 0 <= k < asks.len() && asks[k] == asks2[j];
        assert(bids[ki].price < asks[kj].price);
    }
}

/// Removing one bid keeps the book uncrossed.
pub proof fn lemma_remove_uncrossed_bid(bids: Seq<Order>, asks: Seq<Order>, i: int)
    requires
        uncrossed(bids, asks),
        0 <= i < bids.len(),
    ensures
        uncrossed(bids.remove(i), asks),
{
    let bids2 = bids.remove(i);
    assert forall|a: int, b: int| 0 <= a < bids2.len() && 0 <= b < asks.len() implies (
    #[trigger] bids2[a]).price < (#[trigger] asks[b]).price by {
        if a < i {
            assert(bids2[a] == bids[a]);
        } else {
            assert(bids2[a] == bids[a + 1]);
        }
    }
}

/// Removing one ask keeps the book uncrossed.
pub proof fn lemma_remove_uncrossed_ask(bids: Seq<Order>, asks: Seq<Order>, j: int)
    requires
        uncrossed(bids, asks),
        0 <= j < asks.len(),
    ensures
        uncrossed(bids, asks.remove(j)),
{
    let asks2 = asks.remove(j);
    assert forall|a: int, b: int| 0 <= a < bids.len() && 0 <= b < asks2.len() implies (
    #[trigger] bids[a]).price < (#[trigger] asks2[b]).price by {
        if b < j {
            assert(asks2[b] == asks[b]);
        } else {
            assert(asks2[b] == asks[b + 1]);
        }
    }
}

/// Changing only the quantity of one resident (to a positive value)
/// keeps a side well-formed and the book uncrossed.
pub proof fn lemma_update_qty_wf(
    s: Seq<Order>,
    side: Side,
    bound: u64,
    instrument_id: u64,
    i: int,
    q: u64,
)
    requires
        side_wf(s, side, bound, instrument_id),
        0 <= i < s.len(),
        q > 0,
    ensures
        side_wf(s.update(i, (Order { quantity: q, ..s[i] })), side, bound, instrument_id),
{
}

/// A bid that prices under every resident ask keeps the book uncrossed
/// when it posts.
pub proof fn lemma_insert_uncrossed_bid(bids: Seq<Order>, asks: Seq<Order>, o: Order)
    requires
        uncrossed(bids, asks),
        o.side == Side::Bid,
        side_sorted(asks, Side::Ask),
        asks.len() > 0 ==> o.price < asks[0].price,
    ensures
        uncrossed(bids.insert(spec_insert_pos(bids, o), o), asks),
{
    lemma_insert_pos_bounds(bids, o);
    let p = spec_insert_pos(bids, o);
    let bids2 = bids.insert(p, o);
    assert forall|i: int, j: int| 0 <= i < bids2.len() && 0 <= j < asks.len() implies (
    #[trigger] bids2[i]).price < (#[trigger] asks[j]).price by {
        if i < p {
            assert(bids2[i] == bids[i]);
        } else if i == p {
            assert(bids2[i] == o);
            assert(asks[0].price <= asks[j].price);
        } else {
            assert(bids2[i] == bids[i - 1]);
        }
    }
}

/// An ask that prices over every resident bid keeps the book uncrossed
/// when it posts.
pub proof fn lemma_insert_uncrossed_ask(bids: Seq<Order>, asks: Seq<Order>, o: Order)
    requires
        uncrossed(bids, asks),
        o.side == Side::Ask,
        side_sorted(bids, Side::Bid),
        bids.len() > 0 ==> o.price > bids[0].price,
    ensures
        uncrossed(bids, asks.insert(spec_insert_pos(asks, o), o)),
{
    lemma_insert_pos_bounds(asks, o);
    let p = spec_insert_pos(asks, o);
    let asks2 = asks.insert(p, o);
    assert forall|i: int, j: int| 0 <= i < bids.len() && 0 <= j < asks2.len() implies (
    #[trigger] bids[i]).price < (#[trigger] asks2[j]).price by {
        if j < p {
            assert(asks2[j] == asks[j]);
        } else if j == p {
            assert(asks2[j] == o);
            assert(bids[i].price <= bids[0].price);
        } else {
            assert(asks2[j] == asks[j - 1]);
        }
    }
}

/// The insert position lies within the side, nothing before it prices
/// strictly worse, and everything from it on does.
pub proof fn lemma_insert_pos_bounds(s: Seq<Order>, o: Order)
    ensures
        0 <= spec_insert_pos(s, o) <= s.len(),
        forall|i: int| 0 <= i < spec_insert_pos(s, o) ==> !spec_price_worse(#[trigger] s[i], o),
        side_sorted(s, o.side) ==> forall|i: int|
            spec_insert_pos(s, o) <= i < s.len() ==> spec_price_worse(#[trigger] s[i], o),
    decreases s.len(),
{
    if s.len() == 0 {
    } else if spec_price_worse(s[0], o) {
        if side_sorted(s, o.side) {
            assert forall|i: int| 0 <= i < s.len() implies spec_price_worse(#[trigger] s[i], o) by {
                assert(match o.side {
                    Side::Bid => s[0].price >= s[i].price,
                    Side::Ask => s[0].price <= s[i].price,
                });
            }
        }
    } else {
        let s1 = s.skip(1);
        lemma_insert_pos_bounds(s1, o);
        let p = spec_insert_pos(s, o);
        assert(p == 1 + spec_insert_pos(s1, o));
        assert(forall|i: int| 0 <= i < s1.len() ==> #[trigger] s1[i] == s[i + 1]);
        assert forall|i: int| 0 <= i < p implies !spec_price_worse(#[trigger] s[i], o) by {
            if i >= 1 {
                assert(s1[i - 1] == s[i]);
                assert(!spec_price_worse(s1[i - 1], o));
            }
        }
        if side_sorted(s, o.side) {
            assert(side_sorted(s1, o.side));
            assert forall|i: int| p <= i < s.len() implies spec_price_worse(#[trigger] s[i], o) by {
                assert(s1[i - 1] == s[i]);
                assert(spec_price_worse(s1[i - 1], o));
            }
        }
    }
}

/// `spec_insert_pos` is the unique position with nothing strictly worse
/// before it and, unless it is the end, something strictly worse at it.
pub proof fn lemma_insert_pos_char(s: Seq<Order>, o: Order, p: int)
    requires
        0 <= p <= s.len(),
        forall|i: int| 0 <= i < p ==> !spec_price_worse(s[i], o),
        p < s.len() ==> spec_price_worse(s[p], o),
    ensures
        spec_insert_pos(s, o) == p,
    decreases s.len(),
{
    if s.len() == 0 {
    } else if spec_price_worse(s[0], o) {
        assert(p == 0);
    } else {
        assert(p >= 1);
        let s1 = s.skip(1);
        assert(forall|i: int| 0 <= i < p - 1 ==> s1[i] == s[i + 1]);
        lemma_insert_pos_char(s1, o, p - 1);
    }
}

/// Total quantity across a run of trade records.
pub open spec fn sum_trade_qty(ts: Seq<Trade>) -> int
    decreases ts.len(),
{
    if ts.len() == 0 {
        0
    } else {
        ts[0].quantity + sum_trade_qty(ts.skip(1))
    }
}

/// The matched depth: the total resident quantity in the prefix of the
/// opposite side that the aggressor's limit reaches (all of it, for a
/// market order).
pub open spec fn crossing_depth(opp: Seq<Order>, agg: Order) -> int
    decreases opp.len(),
{
    if opp.len() > 0 && (price_crosses(agg, opp[0]) || agg.order_type == OrderType::Market) {
        opp[0].quantity + crossing_depth(opp.skip(1), agg)
    } else {
        0
    }
}

/// The matched depth never looks at the aggressor's quantity or id.
proof fn lemma_depth_qty_irrelevant(opp: Seq<Order>, a: Order, b: Order)
    requires
        a.price == b.price,
        a.side == b.side,
        a.order_type == b.order_type,
    ensures
        crossing_depth(opp, a) == crossing_depth(opp, b),
    decreases opp.len(),
{
    if opp.len() > 0 {
        assert(price_crosses(a, opp[0]) == price_crosses(b, opp[0]));
        lemma_depth_qty_irrelevant(opp.skip(1), a, b);
    }
}

/// The matched depth is never negative.
proof fn lemma_depth_nonneg(opp: Seq<Order>, agg: Order)
    ensures
        crossing_depth(opp, agg) >= 0,
    decreases opp.len(),
{
    if opp.len() > 0 && (price_crosses(agg, opp[0]) || agg.order_type == OrderType::Market) {
        lemma_depth_nonneg(opp.skip(1), agg);
    }
}

/// Soundness of every trade the match loop emits: positive quantity, the
/// price of the resident it filled (the k-th trade fills the k-th
/// resident), distinct bid and ask order ids, and quantity conservation —
/// the trades add up to exactly what the matched depth let the aggressor
/// fill.
pub proof fn lemma_match_trades_sound(opp: Seq<Order>, agg: Order, id_bound: u64)
    requires
        forall|i: int|
            0 <= i < opp.len() ==> (#[trigger] opp[i]).quantity > 0 && opp[i].id <= id_bound,
        agg.id > id_bound,
    ensures
        ({
            let m = spec_match(opp, agg);
            &&& forall|k: int|
                0 <= k < m.2.len() ==> (#[trigger] m.2[k]).quantity > 0 && m.2[k].price
                    == opp[k].price && m.2[k].bid_order_id != m.2[k].ask_order_id
            &&& m.2.len() <= opp.len()
            &&& sum_trade_qty(m.2) == agg.quantity - m.1.quantity
            &&& sum_trade_qty(m.2) == if agg.quantity <= crossing_depth(opp, agg) {
                agg.quantity as int
            } else {
                crossing_depth(opp, agg)
            }
        }),
    decreases opp.len(), agg.quantity,
{
    let m = spec_match(opp, agg);
    lemma_depth_nonneg(opp, agg);
    if agg.quantity > 0 && opp.len() > 0 && (price_crosses(agg, opp[0]) || agg.order_type
        == OrderType::Market) && spec_min_u64(opp[0].quantity, agg.quantity) > 0 {
        let vol = spec_min_u64(opp[0].quantity, agg.quantity);
        let top2 = Order { quantity: (opp[0].quantity - vol) as u64, ..opp[0] };
        let agg2 = Order { quantity: (agg.quantity - vol) as u64, ..agg };
        let t = spec_trade(agg, opp[0], vol);
        let rest = if top2.quantity > 0 {
            seq![top2] + opp.skip(1)
        } else {
            opp.skip(1)
        };
        let m2 = spec_match(rest, agg2);
        lemma_match_trades_sound(rest, agg2, id_bound);
        lemma_depth_nonneg(rest, agg2);
        assert(m.2 == seq![t] + m2.2);
        assert(forall|k: int| 0 <= k < m2.2.len() ==> #[trigger] m.2[k + 1] == m2.2[k]);
        assert(m.2.skip(1) =~= m2.2);
        if top2.quantity > 0 {
            // the top absorbed the whole aggressor; no further trades
            assert(agg2.quantity == 0);
            assert(m2.2 =~= Seq::<Trade>::empty());
            assert(sum_trade_qty(m.2) == vol);
            lemma_depth_nonneg(opp.skip(1), agg);
            assert(crossing_depth(opp, agg) == opp[0].quantity + crossing_depth(
                opp.skip(1),
                agg,
            ));
        } else {
            assert(rest =~= opp.skip(1));
            assert(forall|k: int| 0 <= k < rest.len() ==> #[trigger] rest[k] == opp[k + 1]);
            lemma_depth_qty_irrelevant(rest, agg2, agg);
            lemma_depth_nonneg(rest, agg);
            assert(crossing_depth(opp, agg) == opp[0].quantity + crossing_depth(rest, agg));
            assert(sum_trade_qty(m.2) == vol + sum_trade_qty(m2.2));
        }
    } else {
        assert(m.2 =~= Seq::<Trade>::empty());
        if agg.quantity > 0 {
            assert(crossing_depth(opp, agg) == 0);
        }
    }
}

/// No crossed book: whenever both sides of a well-formed book are
/// non-empty, every resident bid prices strictly below every resident
/// ask; in particular the best bid under the best ask.
pub proof fn lemma_no_crossed_book<D: Disseminator>(m: Market<D>)
    requires
        m.wf(),
    ensures
        forall|i: int, j: int|
            0 <= i < m.bids@.len() && 0 <= j < m.asks@.len() ==> (#[trigger] m.bids@[i]).price < (
            #[trigger] m.asks@[j]).price,
{
}

/// Price-time priority: on either side of a well-formed book, of two
/// orders at the same price the one with the smaller exchange order id
/// stands at the better (earlier) position.
pub proof fn lemma_price_time_priority<D: Disseminator>(m: Market<D>)
    requires
        m.wf(),
    ensures
        forall|i: int, j: int|
            0 <= i < j < m.bids@.len() && m.bids@[i].price == m.bids@[j].price ==> m.bids@[i].id
                < m.bids@[j].id,
        forall|i: int, j: int|
            0 <= i < j < m.asks@.len() && m.asks@[i].price == m.asks@[j].price ==> m.asks@[i].id
                < m.asks@[j].id,
{
}

/// Soundness of the trades of a whole add operation: an add against a
/// well-formed book only ever emits trades with positive quantity, the
/// resident side's price, and distinct bid and ask ids, and their
/// quantities sum to the smaller of the aggressor's quantity and the
/// matched depth of the opposite side.
pub proof fn lemma_add_trades_sound<D: Disseminator>(m: Market<D>, o: Order)
    requires
        m.wf(),
        m.order_id < u64::MAX,
    ensures
        ({
            let out = spec_add(
                m.bids@,
                m.asks@,
                m.instrument.state,
                m.instrument.percentage_bands,
                (m.order_id + 1) as u64,
                o,
            );
            let opp = if o.side == Side::Bid {
                m.asks@
            } else {
                m.bids@
            };
            &&& forall|k: int|
                0 <= k < out.trades.len() ==> (#[trigger] out.trades[k]).quantity > 0
                    && out.trades[k].price == opp[k].price && out.trades[k].bid_order_id
                    != out.trades[k].ask_order_id
            &&& out.state != OrderState::Rejected ==> sum_trade_qty(out.trades) == if o.quantity
                <= crossing_depth(opp, (Order { id: (m.order_id + 1) as u64, ..o })) {
                o.quantity as int
            } else {
                crossing_depth(opp, (Order { id: (m.order_id + 1) as u64, ..o }))
            }
            &&& out.state == OrderState::Rejected ==> out.trades.len() == 0
        }),
{
    let o1 = Order { id: (m.order_id + 1) as u64, ..o };
    let opp = if o.side == Side::Bid {
        m.asks@
    } else {
        m.bids@
    };
    lemma_match_trades_sound(opp, o1, m.order_id);
}

/// The set of books the matching engine owns, one per instrument, keyed
/// by instrument id (the book id), together with the feed disseminator
/// that newly created books are attached to.
pub struct MarketStore<D: Disseminator + Clone> {
    pub markets: Vec<Market<D>>,
    pub disseminator: D,
}

/// The first position of a book with the given instrument id, or the
/// store's length if there is none.
pub open spec fn spec_find_market<D: Disseminator + Clone>(s: Seq<Market<D>>, id: u64) -> int
    decreases s.len(),
{
    if s.len() == 0 {
        0
    } else if s[0].instrument.id == id {
        0
    } else {
        1 + spec_find_market(s.skip(1), id)
    }
}

/// `spec_find_market` is the unique position with no earlier hit that
/// either hits or is the end.
pub proof fn lemma_find_market_char<D: Disseminator + Clone>(s: Seq<Market<D>>, id: u64, p: int)
    requires
        0 <= p <= s.len(),
        forall|i: int| 0 <= i < p ==> (#[trigger] s[i]).instrument.id != id,
        p < s.len() ==> s[p].instrument.id == id,
    ensures
        spec_find_market(s, id) == p,
    decreases s.len(),
{
    if s.len() == 0 {
    } else if s[0].instrument.id == id {
        assert(p == 0);
    } else {
        assert(p >= 1);
        let s1 = s.skip(1);
        assert(forall|i: int| 0 <= i < p - 1 ==> s1[i] == s[i + 1]);
        lemma_find_market_char(s1, id, p - 1);
    }
}

/// The position `spec_find_market` names is in range, holds the id it
/// looked for, and nothing before it does.
pub proof fn lemma_find_market_props<D: Disseminator + Clone>(s: Seq<Market<D>>, id: u64)
    ensures
        0 <= spec_find_market(s, id) <= s.len(),
        spec_find_market(s, id) < s.len() ==> s[spec_find_market(s, id)].instrument.id == id,
        forall|j: int|
            0 <= j < spec_find_market(s, id) ==> (#[trigger] s[j]).instrument.id != id,
    decreases s.len(),
{
    if s.len() == 0 {
    } else if s[0].instrument.id == id {
    } else {
        let s1 = s.skip(1);
        lemma_find_market_props(s1, id);
        assert(forall|j: int| 0 <= j < s1.len() ==> #[trigger] s1[j] == s[j + 1]);
        assert forall|j: int|
            0 <= j < spec_find_market(s, id) implies (#[trigger] s[j]).instrument.id != id by {
            if j >= 1 {
                assert(s[j] == s1[j - 1]);
            }
        }
    }
}

impl<D: Disseminator + Clone> MarketStore<D> {
    pub fn new(disseminator: D) -> (r: MarketStore<D>)
        ensures
            r.markets@ == Seq::<Market<D>>::empty(),
            r.disseminator == disseminator,
    {
        MarketStore { markets: Vec::new(), disseminator }
    }

    pub fn len(&self) -> (r: usize)
        ensures
            r == self.markets@.len(),
    {
        self.markets.len()
    }

    /// The position of the book with this id, or the store's length.
    pub fn find_market(&self, id: u64) -> (r: usize)
        ensures
            r == spec_find_market(self.markets@, id),
            r <= self.markets@.len(),
            r < self.markets@.len() ==> self.markets@[r as int].instrument.id == id,
            forall|j: int| 0 <= j < r ==> (#[trigger] self.markets@[j]).instrument.id != id,
    {
        let mut i: usize = 0;
        while i < self.markets.len()
            invariant
                i <= self.markets@.len(),
                forall|j: int| 0 <= j < i ==> (#[trigger] self.markets@[j]).instrument.id != id,
            decreases self.markets@.len() - i,
        {
            if self.markets[i].get_instrument().get_id() == id {
                proof {
                    lemma_find_market_char(self.markets@, id, i as int);
                }
                return i;
            }
            i += 1;
        }
        proof {
            lemma_find_market_char(self.markets@, id, i as int);
        }
        i
    }

    pub fn contains_market(&self, id: u64) -> (r: bool)
        ensures
            r == (spec_find_market(self.markets@, id) < self.markets@.len()),
    {
        let k = self.find_market(id);
        k < self.markets.len()
    }

    /// Registers a book; the caller keeps ids unique.
    pub fn insert_market(&mut self, m: Market<D>)
        ensures
            final(self).markets@ == old(self).markets@.push(m),
            final(self).disseminator == old(self).disseminator,
    {
        self.markets.push(m);
    }

    /// Creates a fresh book for this instrument, attached to a copy of
    /// the store's disseminator (whose event history Verus knows nothing
    /// about).
    pub fn create_market(&mut self, instrument: Instrument)
        ensures
            final(self).markets@.len() == old(self).markets@.len() + 1,
            final(self).markets@.subrange(0, old(self).markets@.len() as int) == old(self).markets@,
            ({
                let m = final(self).markets@.last();
                &&& m.instrument == instrument
                &&& m.bids@ == Seq::<Order>::empty()
                &&& m.asks@ == Seq::<Order>::empty()
                &&& m.order_id == 0
                &&& m.wf()
            }),
            final(self).disseminator == old(self).disseminator,
    {
        let d = self.disseminator.clone();
        let m = Market::new(instrument, d);
        self.markets.push(m);
        proof {
            assert(self.markets@.subrange(0, old(self).markets@.len() as int) =~= old(self).markets@);
        }
    }

    /// Fans an instrument update out to the book that trades it, if any:
    /// the book's instrument is replaced field for field, so the book
    /// applies the new state and collars from then on.
    pub fn apply_instrument_update(&mut self, instrument: &Instrument)
        requires
            forall|j: int| 0 <= j < old(self).markets@.len() ==> (#[trigger] old(self).markets@[j]).wf(),
        ensures
            final(self).markets@.len() == old(self).markets@.len(),
            final(self).disseminator == old(self).disseminator,
            ({
                let k = spec_find_market(old(self).markets@, instrument@.id);
                &&& (k == old(self).markets@.len() ==> final(self).markets@ == old(self).markets@)
                &&& (k < old(self).markets@.len() ==> {
                    &&& forall|j: int|
                        0 <= j < old(self).markets@.len() && j != k ==> final(self).markets@[j]
                            == old(self).markets@[j]
                    &&& final(self).markets@[k].instrument@ == instrument@
                    &&& final(self).markets@[k] == (Market {
                        instrument: final(self).markets@[k].instrument,
                        ..old(self).markets@[k]
                    })
                })
            }),
            forall|j: int| 0 <= j < final(self).markets@.len() ==> (#[trigger] final(self).markets@[j]).wf(),
    {
        let k = self.find_market(instrument.get_id());
        if k < self.markets.len() {
            let mut m = self.markets.remove(k);
            let ghost m0 = m;
            m.instrument = Instrument::copy(instrument);
            self.markets.insert(k, m);
            proof {
                assert(self.markets@ =~= old(self).markets@.update(
                    k as int,
                    (Market { instrument: self.markets@[k as int].instrument, ..m0 }),
                ));
                let upd = self.markets@[k as int];
                assert(upd.bids@ == m0.bids@ && upd.asks@ == m0.asks@ && upd.order_id
                    == m0.order_id);
                assert(upd.instrument.id == m0.instrument.id);
                assert(upd.wf());
            }
        }
    }

    /// A mutable borrow of the book with this id, for running order flow
    /// against it; the rest of the store stays as it is.
    pub fn get_market_mut(&mut self, book_id: u64) -> (r: Option<&mut Market<D>>)
        ensures
            ({
                let k = spec_find_market(old(self).markets@, book_id);
                match r {
                    Some(m) => k < old(self).markets@.len() && *m == old(self).markets@[k] && final(self).markets@ == old(self).markets@.update(k, *final(m)) && final(self).disseminator == old(self).disseminator,
                    None => k == old(self).markets@.len() && *final(self) == *old(self),
                }
            }),
    {
        let k = self.find_market(book_id);
        if k < self.markets.len() {
            let slice = self.markets.as_mut_slice();
            let m = &mut slice[k];
            Some(m)
        } else {
            None
        }
    }
}

} // verus!
