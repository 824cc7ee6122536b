//! The matching engine core: decodes one order-pipe datagram and runs it
//! against a book, turning the outcome into execution reports.

use crate::disseminator::Disseminator;
use crate::market::{modify_pred, session_pred, spec_add, spec_find, Market};
use crate::oep::cancel::{Cancel, CANCEL_SIZE};
use crate::oep::decoder::{DecodeError, Decoder};
use crate::oep::execution_report::ExecutionReport;
use crate::oep::modify::{Modify, MODIFY_SIZE};
use crate::oep::neworder::{NewOrder, NEWORDER_SIZE};
use crate::oep::oep_message::OepMessage;
use crate::oep::sessioninfo::{SessionInfo, SESSIONINFO_SIZE};
use crate::order::{Order, OrderState, OrderType, Side};
use vstd::prelude::*;
use vstd::slice::slice_subrange;

verus! {

/// Every datagram on the order pipe starts with this local header: one
/// message-kind byte and three bytes of padding.
pub const HEADER_SIZE: usize = 4;

/// One decoded order-pipe message.
pub enum MessageWrapper {
    NewOrder(NewOrder),
    Modify(Modify),
    Cancel(Cancel),
    KillSession(SessionInfo),
}

/// The order a new-order message asks a book for; the book assigns the
/// exchange id itself.
pub open spec fn order_of_new(m: NewOrder, instrument_id: u64) -> Order {
    Order {
        id: 0,
        participant: m.participant,
        instrument_id,
        price: m.price,
        quantity: m.quantity,
        side: Side::from_wire(m.side),
        order_type: OrderType::from_wire(m.order_type),
        gateway_id: m.gateway_id,
        session_id: m.session_id,
    }
}

/// The order a modify message names. The wire format carries no order
/// type, so only resident day orders can be modified.
pub open spec fn order_of_modify(m: Modify, instrument_id: u64) -> Order {
    Order {
        id: m.order_id,
        participant: m.participant,
        instrument_id,
        price: m.price,
        quantity: m.quantity,
        side: Side::from_wire(m.side),
        order_type: OrderType::Day,
        gateway_id: m.gateway_id,
        session_id: m.session_id,
    }
}

/// The order a cancel message names; price and quantity play no part in
/// the lookup.
pub open spec fn order_of_cancel(m: Cancel, instrument_id: u64) -> Order {
    Order {
        id: m.order_id,
        participant: m.participant,
        instrument_id,
        price: 0,
        quantity: 0,
        side: Side::from_wire(m.side),
        order_type: OrderType::Day,
        gateway_id: m.gateway_id,
        session_id: m.session_id,
    }
}

/// The report answering a new-order message.
pub open spec fn report_of_new(m: NewOrder, state: OrderState, order_id: u64) -> ExecutionReport {
    ExecutionReport {
        participant: m.participant,
        order_id,
        submitted_order_id: m.client_order_id,
        book: m.book_id,
        quantity: m.quantity,
        price: m.price,
        flags: 0,
        side: m.side,
        state: state.wire(),
        session_id: m.session_id,
        gateway_id: m.gateway_id,
    }
}

/// The report answering a modify message.
pub open spec fn report_of_modify(m: Modify, state: OrderState, order_id: u64) -> ExecutionReport {
    ExecutionReport {
        participant: m.participant,
        order_id,
        submitted_order_id: m.order_id,
        book: m.book_id,
        quantity: m.quantity,
        price: m.price,
        flags: 0,
        side: m.side,
        state: state.wire(),
        session_id: m.session_id,
        gateway_id: m.gateway_id,
    }
}

/// The report answering a cancel message.
pub open spec fn report_of_cancel(m: Cancel, state: OrderState) -> ExecutionReport {
    ExecutionReport {
        participant: m.participant,
        order_id: m.order_id,
        submitted_order_id: m.order_id,
        book: m.book_id,
        quantity: 0,
        price: 0,
        flags: 0,
        side: m.side,
        state: state.wire(),
        session_id: m.session_id,
        gateway_id: m.gateway_id,
    }
}

/// The report telling a session that one of its orders was swept by a
/// cancel-on-disconnect; one such report is produced per cancelled order.
pub open spec fn report_of_kill(m: SessionInfo, entry: (u64, u64, Side)) -> ExecutionReport {
    ExecutionReport {
        participant: m.participant,
        order_id: entry.0,
        submitted_order_id: entry.0,
        book: entry.1,
        quantity: 0,
        price: 0,
        flags: 0,
        side: entry.2.wire(),
        state: OrderState::Cancelled.wire(),
        session_id: m.session_id,
        gateway_id: m.gateway_id,
    }
}

/// Decodes one order-pipe datagram: the first header byte selects the
/// message kind, the payload follows the 4-byte local header at its fixed
/// size. Returns the message and the book id it addresses (session
/// notifications address every book and report 0).
pub fn decode_message(buffer: &[u8]) -> (r: Result<(MessageWrapper, u64), DecodeError>)
    requires
        buffer@.len() >= 4,
        buffer@[0] == 0 ==> buffer@.len() == HEADER_SIZE + NEWORDER_SIZE,
        buffer@[0] == 1 ==> buffer@.len() == HEADER_SIZE + MODIFY_SIZE,
        buffer@[0] == 2 ==> buffer@.len() == HEADER_SIZE + CANCEL_SIZE,
        buffer@[0] == 3 ==> buffer@.len() == HEADER_SIZE + SESSIONINFO_SIZE,
    ensures
        (match r {
            Ok((MessageWrapper::NewOrder(m), book)) => buffer@[0] == 0 && NewOrder::decodes_to(
                buffer@.skip(4),
                m,
            ) && book == m.book_id,
            Ok((MessageWrapper::Modify(m), book)) => buffer@[0] == 1 && Modify::decodes_to(
                buffer@.skip(4),
                m,
            ) && book == m.book_id,
            Ok((MessageWrapper::Cancel(m), book)) => buffer@[0] == 2 && Cancel::decodes_to(
                buffer@.skip(4),
                m,
            ) && book == m.book_id,
            Ok((MessageWrapper::KillSession(m), book)) => buffer@[0] == 3
                && SessionInfo::decodes_to(buffer@.skip(4), m) && book == 0,
            Err(_) => buffer@[0] != 0 && buffer@[0] != 1 && buffer@[0] != 2 && buffer@[0] != 3,
        }),
{
    let payload = slice_subrange(buffer, HEADER_SIZE, buffer.len());
    proof {
        assert(payload@ =~= buffer@.skip(4));
    }
    match buffer[0] {
        0 => match NewOrder::decode(payload) {
            Ok(m) => Ok((MessageWrapper::NewOrder(m), m.book_id)),
            Err(e) => Err(e),
        },
        1 => match Modify::decode(payload) {
            Ok(m) => Ok((MessageWrapper::Modify(m), m.book_id)),
            Err(e) => Err(e),
        },
        2 => match Cancel::decode(payload) {
            Ok(m) => Ok((MessageWrapper::Cancel(m), m.book_id)),
            Err(e) => Err(e),
        },
        3 => match SessionInfo::decode(payload) {
            Ok(m) => Ok((MessageWrapper::KillSession(m), 0)),
            Err(e) => Err(e),
        },
        _ => Err(DecodeError),
    }
}

/// Processes one message against the given market and returns the
/// execution reports to publish: exactly one per order message — a
/// rejection when the book id or the participant is wrong — and one per
/// swept order for a session notification.
pub fn process_message<D: Disseminator>(market: &mut Market<D>, msg: MessageWrapper) -> (r: Vec<
    ExecutionReport,
>)
    requires
        old(market).wf(),
        old(market).order_id < u64::MAX,
        old(market).bids_ops + 2 * old(market).bids@.len() <= u32::MAX,
        old(market).asks_ops + 2 * old(market).asks@.len() <= u32::MAX,
        old(market).bids_ops < u32::MAX,
        old(market).asks_ops < u32::MAX,
    ensures
        final(market).wf(),
        final(market).instrument == old(market).instrument,
        (match msg {
            MessageWrapper::NewOrder(m) => {
                if old(market).instrument.id != m.book_id || m.participant == 0 {
                    r@ == seq![report_of_new(m, OrderState::Rejected, m.client_order_id)]
                        && *final(market) == *old(market)
                } else {
                    let out = spec_add(
                        old(market).bids@,
                        old(market).asks@,
                        old(market).instrument.state,
                        old(market).instrument.percentage_bands,
                        (old(market).order_id + 1) as u64,
                        order_of_new(m, old(market).instrument.id),
                    );
                    &&& r@ == seq![report_of_new(m, out.state, out.id)]
                    &&& final(market).bids@ == out.bids
                    &&& final(market).asks@ == out.asks
                    &&& final(market).order_id == old(market).order_id + 1
                    &&& final(market).disseminator.spec_trades() == old(
                        market,
                    ).disseminator.spec_trades() + out.trades
                    &&& final(market).disseminator.spec_new_orders() == old(
                        market,
                    ).disseminator.spec_new_orders() + (if out.published_new {
                        seq![out.posted.unwrap()]
                    } else {
                        Seq::<Order>::empty()
                    })
                    &&& final(market).disseminator.spec_cancels() == old(
                        market,
                    ).disseminator.spec_cancels()
                }
            },
            MessageWrapper::Modify(m) => {
                if old(market).instrument.id != m.book_id || m.participant == 0 {
                    r@ == seq![report_of_modify(m, OrderState::Rejected, m.order_id)] && *final(market) == *old(market)
                } else {
                    let o = order_of_modify(m, old(market).instrument.id);
                    let s = if o.side == Side::Bid {
                        old(market).bids@
                    } else {
                        old(market).asks@
                    };
                    let i = spec_find(s, modify_pred(o));
                    &&& (o.quantity == 0 || i == s.len() ==> r@ == seq![
                        report_of_modify(m, OrderState::Rejected, 0u64),
                    ] && *final(market) == *old(market))
                    &&& (o.quantity != 0 && i < s.len() && o.price == s[i].price ==> {
                        let updated = Order { quantity: o.quantity, ..s[i] };
                        &&& r@ == seq![report_of_modify(m, OrderState::Modified, s[i].id)]
                        &&& (o.side == Side::Bid ==> final(market).bids@ == s.update(i, updated)
                            && final(market).asks@ == old(market).asks@)
                        &&& (o.side == Side::Ask ==> final(market).asks@ == s.update(i, updated)
                            && final(market).bids@ == old(market).bids@)
                        &&& final(market).order_id == old(market).order_id
                        &&& final(market).disseminator.spec_modifies() == old(
                            market,
                        ).disseminator.spec_modifies().push(updated)
                        &&& final(market).disseminator.spec_cancels() == old(
                            market,
                        ).disseminator.spec_cancels()
                    })
                    &&& (o.quantity != 0 && i < s.len() && o.price != s[i].price ==> {
                        let bids1 = if o.side == Side::Bid {
                            old(market).bids@.remove(i)
                        } else {
                            old(market).bids@
                        };
                        let asks1 = if o.side == Side::Ask {
                            old(market).asks@.remove(i)
                        } else {
                            old(market).asks@
                        };
                        let out = spec_add(
                            bids1,
                            asks1,
                            old(market).instrument.state,
                            old(market).instrument.percentage_bands,
                            (old(market).order_id + 1) as u64,
                            o,
                        );
                        &&& r@ == seq![report_of_modify(m, out.state, out.id)]
                        &&& final(market).bids@ == out.bids
                        &&& final(market).asks@ == out.asks
                        &&& final(market).order_id == old(market).order_id + 1
                        &&& final(market).disseminator.spec_cancels() == old(
                            market,
                        ).disseminator.spec_cancels().push(s[i])
                        &&& final(market).disseminator.spec_trades() == old(
                            market,
                        ).disseminator.spec_trades() + out.trades
                    })
                }
            },
            MessageWrapper::Cancel(m) => {
                if old(market).instrument.id != m.book_id || m.participant == 0 {
                    r@ == seq![report_of_cancel(m, OrderState::Rejected)] && *final(market)
                        == *old(market)
                } else {
                    let o = order_of_cancel(m, old(market).instrument.id);
                    let s = if o.side == Side::Bid {
                        old(market).bids@
                    } else {
                        old(market).asks@
                    };
                    let i = spec_find(s, crate::market::cancel_pred(o));
                    &&& (i < s.len() ==> {
                        &&& r@ == seq![report_of_cancel(m, OrderState::Cancelled)]
                        &&& (o.side == Side::Bid ==> final(market).bids@ == s.remove(i) && final(market).asks@ == old(market).asks@)
                        &&& (o.side == Side::Ask ==> final(market).asks@ == s.remove(i) && final(market).bids@ == old(market).bids@)
                        &&& final(market).disseminator.spec_cancels() == old(
                            market,
                        ).disseminator.spec_cancels().push(s[i])
                    })
                    &&& (i == s.len() ==> {
                        &&& r@ == seq![report_of_cancel(m, OrderState::Rejected)]
                        &&& final(market).bids@ == old(market).bids@
                        &&& final(market).asks@ == old(market).asks@
                        &&& final(market).disseminator.spec_cancels() == old(
                            market,
                        ).disseminator.spec_cancels()
                    })
                    &&& final(market).order_id == old(market).order_id
                }
            },
            MessageWrapper::KillSession(m) => {
                let hit = session_pred(m.participant, m.gateway_id, m.session_id);
                let keep = crate::market::session_survives(m.participant, m.gateway_id, m.session_id);
                let matches = old(market).bids@.filter(hit) + old(market).asks@.filter(hit);
                &&& r@ == matches.map_values(
                    (|x: Order| (x.id, x.instrument_id, x.side)),
                ).map_values((|entry: (u64, u64, Side)| report_of_kill(m, entry)))
                &&& final(market).bids@ == old(market).bids@.filter(keep)
                &&& final(market).asks@ == old(market).asks@.filter(keep)
                &&& final(market).disseminator.spec_cancels() == old(
                    market,
                ).disseminator.spec_cancels() + matches
                &&& final(market).disseminator.spec_new_orders() == old(
                    market,
                ).disseminator.spec_new_orders()
                &&& final(market).disseminator.spec_trades() == old(
                    market,
                ).disseminator.spec_trades()
                &&& final(market).disseminator.spec_modifies() == old(
                    market,
                ).disseminator.spec_modifies()
                &&& final(market).order_id == old(market).order_id
            },
        }),
{
    match msg {
        MessageWrapper::NewOrder(m) => {
            if market.get_instrument().get_id() != m.book_id || m.get_participant() == 0 {
                let mut r: Vec<ExecutionReport> = Vec::new();
                r.push(
                    ExecutionReport {
                        participant: m.participant,
                        order_id: m.client_order_id,
                        submitted_order_id: m.client_order_id,
                        book: m.book_id,
                        quantity: m.quantity,
                        price: m.price,
                        flags: 0,
                        side: m.side,
                        state: OrderState::Rejected.into(),
                        gateway_id: m.gateway_id,
                        session_id: m.session_id,
                    },
                );
                proof {
                    assert(r@ =~= seq![
                        report_of_new(m, OrderState::Rejected, m.client_order_id),
                    ]);
                }
                return r;
            }
            let o = Order::new(
                m.get_participant(),
                market.get_instrument().get_id(),
                m.price,
                m.quantity,
                Side::from(m.side),
                OrderType::from(m.order_type),
                m.get_gateway_id(),
                m.get_session_id(),
            );
            let (state, id) = market.add_order(o);
            let mut r: Vec<ExecutionReport> = Vec::new();
            r.push(
                ExecutionReport {
                    participant: m.participant,
                    order_id: id,
                    submitted_order_id: m.client_order_id,
                    book: m.book_id,
                    quantity: m.quantity,
                    price: m.price,
                    flags: 0,
                    side: m.side,
                    state: state.into(),
                    gateway_id: m.gateway_id,
                    session_id: m.session_id,
                },
            );
            proof {
                assert(r@ =~= seq![report_of_new(m, state, id)]);
            }
            r
        },
        MessageWrapper::Modify(m) => {
            if market.get_instrument().get_id() != m.book_id || m.get_participant() == 0 {
                let mut r: Vec<ExecutionReport> = Vec::new();
                r.push(
                    ExecutionReport {
                        participant: m.participant,
                        order_id: m.order_id,
                        submitted_order_id: m.order_id,
                        book: m.book_id,
                        quantity: m.quantity,
                        price: m.price,
                        flags: 0,
                        side: m.side,
                        state: OrderState::Rejected.into(),
                        gateway_id: m.gateway_id,
                        session_id: m.session_id,
                    },
                );
                proof {
                    assert(r@ =~= seq![report_of_modify(m, OrderState::Rejected, m.order_id)]);
                }
                return r;
            }
            let mut o = Order::new(
                m.get_participant(),
                market.get_instrument().get_id(),
                m.price,
                m.quantity,
                Side::from(m.get_side()),
                OrderType::Day,
                m.get_gateway_id(),
                m.get_session_id(),
            );
            o.set_id(m.order_id);
            let (state, id) = market.modify_order(o);
            let mut r: Vec<ExecutionReport> = Vec::new();
            r.push(
                ExecutionReport {
                    participant: m.participant,
                    order_id: id,
                    submitted_order_id: m.order_id,
                    book: m.book_id,
                    quantity: m.quantity,
                    price: m.price,
                    flags: 0,
                    side: m.get_side(),
                    state: state.into(),
                    gateway_id: m.gateway_id,
                    session_id: m.session_id,
                },
            );
            proof {
                assert(r@ =~= seq![report_of_modify(m, state, id)]);
            }
            r
        },
        MessageWrapper::Cancel(m) => {
            if market.get_instrument().get_id() != m.book_id || m.get_participant() == 0 {
                let mut r: Vec<ExecutionReport> = Vec::new();
                r.push(
                    ExecutionReport {
                        participant: m.participant,
                        order_id: m.order_id,
                        submitted_order_id: m.order_id,
                        book: m.book_id,
                        quantity: 0,
                        price: 0,
                        flags: 0,
                        side: m.side,
                        state: OrderState::Rejected.into(),
                        gateway_id: m.gateway_id,
                        session_id: m.session_id,
                    },
                );
                proof {
                    assert(r@ =~= seq![report_of_cancel(m, OrderState::Rejected)]);
                }
                return r;
            }
            let mut o = Order::new(
                m.participant,
                market.get_instrument().get_id(),
                0,
                0,
                Side::from(m.get_side()),
                OrderType::Day,
                m.get_gateway_id(),
                m.get_session_id(),
            );
            o.set_id(m.order_id);
            let state = market.cancel_order(&o);
            let mut r: Vec<ExecutionReport> = Vec::new();
            r.push(
                ExecutionReport {
                    participant: m.participant,
                    order_id: m.order_id,
                    submitted_order_id: m.order_id,
                    book: m.book_id,
                    quantity: 0,
                    price: 0,
                    flags: 0,
                    side: m.get_side(),
                    state: state.into(),
                    gateway_id: m.gateway_id,
                    session_id: m.session_id,
                },
            );
            proof {
                assert(r@ =~= seq![report_of_cancel(m, state)]);
            }
            r
        },
        MessageWrapper::KillSession(m) => {
            let v = market.cancel_all_orders_for_session(
                m.get_participant(),
                m.get_gateway_id(),
                m.get_session_id(),
            );
            let ghost tuples = v@;
            let mut r: Vec<ExecutionReport> = Vec::new();
            let mut i: usize = 0;
            while i < v.len()
                invariant
                    i <= v@.len(),
                    v@ == tuples,
                    r@ == tuples.subrange(0, i as int).map_values(
                        (|entry: (u64, u64, Side)| report_of_kill(m, entry)),
                    ),
                decreases v@.len() - i,
            {
                let entry = v[i];
                r.push(
                    ExecutionReport {
                        participant: m.participant,
                        order_id: entry.0,
                        submitted_order_id: entry.0,
                        book: entry.1,
                        quantity: 0,
                        price: 0,
                        flags: 0,
                        side: entry.2.into(),
                        state: OrderState::Cancelled.into(),
                        session_id: m.session_id,
                        gateway_id: m.gateway_id,
                    },
                );
                proof {
                    assert(r@ =~= tuples.subrange(0, i + 1).map_values(
                        (|entry: (u64, u64, Side)| report_of_kill(m, entry)),
                    ));
                }
                i += 1;
            }
            proof {
                assert(tuples.subrange(0, tuples.len() as int) =~= tuples);
            }
            r
        },
    }
}

} // verus!
