//! Order book behaviour: posting, matching, modifying, cancelling and
//! publication on the mock feed.

use exchange_core::instrument::{Instrument, InstrumentState, InstrumentType};
use exchange_core::market::Market;
use exchange_core::mockdisseminator::MockDisseminator;
use exchange_core::order::{Order, OrderState, OrderType, Side};

fn trading_market(i: &Instrument) -> Market<MockDisseminator> {
    let mut m = Market::new(i.clone(), MockDisseminator::new());
    m.set_state_trading();
    m
}

#[test]
fn order_insert() {
    let i = Instrument::new_fast(500, InstrumentType::Share);
    let o = Order::new(1000, 500, 123, 100, Side::Bid, OrderType::Day, 100, 2000);

    let mut target = trading_market(&i);

    let r = target.add_order(o);
    assert_eq!(r.0, OrderState::Inserted);

    let bids = target.generate_bids();
    assert_eq!(1, bids.len());
    assert_eq!(1000, bids[0].participant);
    assert_eq!(123, bids[0].price);
    assert_eq!(100, bids[0].quantity);
    assert_eq!(Side::Bid, bids[0].side);
    assert_eq!(OrderType::Day, bids[0].order_type);

    assert_eq!(500, bids[0].instrument_id);
    assert_eq!(500, target.get_instrument().get_id());
    assert_eq!(InstrumentType::Share, target.get_instrument().get_type());
}

#[test]
fn ioc_cancelled() {
    let i = Instrument::new_fast(500, InstrumentType::Share);
    let o = Order::new(1000, 500, 123, 100, Side::Bid, OrderType::FillOrKill, 100, 2000);

    let mut target = trading_market(&i);

    let r = target.add_order(o);
    assert_eq!(r.0, OrderState::Cancelled); // nothing to match against
    assert_eq!(0, target.generate_bids().len());
    assert_eq!(0, target.generate_asks().len());
}

#[test]
fn new_order_zero_quantity_rejected() {
    let i = Instrument::new_fast(500, InstrumentType::Share);
    let o = Order::new(1000, 500, 123, 0, Side::Bid, OrderType::Day, 100, 2000);

    let mut target = trading_market(&i);

    let r = target.add_order(o);
    assert_eq!(r.0, OrderState::Rejected);

    let bids = target.generate_bids();
    assert_eq!(0, bids.len());
}

#[test]
fn cross_completely() {
    let i = Instrument::new_fast(500, InstrumentType::Share);
    let o_passive = Order::new(1000, 500, 123, 400, Side::Bid, OrderType::Day, 100, 2000);
    let o_aggressive = Order::new(1001, 500, 123, 100, Side::Ask, OrderType::Day, 101, 2001);

    let mut target = trading_market(&i);

    assert_eq!(OrderState::Inserted, target.add_order(o_passive).0);
    let id1 = target.get_order_id();

    assert_eq!(OrderState::Traded, target.add_order(o_aggressive).0);
    let id2 = target.get_order_id();

    assert_eq!(0, target.generate_asks().len());

    let bids = target.generate_bids();
    assert_eq!(1, bids.len());
    assert_eq!(1000, bids[0].participant);
    assert_eq!(123, bids[0].price);
    assert_eq!(300, bids[0].quantity);
    assert_eq!(Side::Bid, bids[0].side);
    assert_eq!(OrderType::Day, bids[0].order_type);

    assert_eq!(500, bids[0].instrument_id);
    assert_eq!(InstrumentType::Share, target.get_instrument().get_type());

    // make sure we're publishing the trade
    assert_eq!(1, target.disseminator.trades.len());
    let trade = &target.disseminator.trades[0];

    assert_eq!(id1, trade.bid_order_id);
    assert_eq!(id2, trade.ask_order_id);
    assert_eq!(100, trade.quantity);
    assert_eq!(123, trade.price);
}

#[test]
fn cross_partially_and_post() {
    let i = Instrument::new_fast(500, InstrumentType::Share);
    let o_passive = Order::new(1000, 500, 123, 100, Side::Bid, OrderType::Day, 100, 2000);
    let o_aggressive = Order::new(1001, 500, 123, 300, Side::Ask, OrderType::Day, 100, 2000);

    let mut target = trading_market(&i);

    let r = target.add_order(o_passive);
    assert_eq!(r.0, OrderState::Inserted);

    let r = target.add_order(o_aggressive);
    assert_eq!(r.0, OrderState::PartiallyTraded);

    assert_eq!(0, target.generate_bids().len());

    let asks = target.generate_asks();
    assert_eq!(1, asks.len());
    assert_eq!(1001, asks[0].participant);
    assert_eq!(123, asks[0].price);
    assert_eq!(200, asks[0].quantity);
    assert_eq!(Side::Ask, asks[0].side);
    assert_eq!(OrderType::Day, asks[0].order_type);

    assert_eq!(500, asks[0].instrument_id);
    assert_eq!(InstrumentType::Share, target.get_instrument().get_type());
}

#[test]
fn post_if_same_side() {
    let i = Instrument::new_fast(500, InstrumentType::Share);
    let o_passive = Order::new(1000, 500, 123, 100, Side::Bid, OrderType::Day, 100, 2000);
    let o_aggressive = Order::new(1001, 500, 123, 300, Side::Bid, OrderType::Day, 100, 2001);

    let mut target = trading_market(&i);

    let r = target.add_order(o_passive);
    assert_eq!(r.0, OrderState::Inserted);

    let r = target.add_order(o_aggressive);
    assert_eq!(r.0, OrderState::Inserted);

    assert_eq!(0, target.generate_asks().len());

    let bids = target.generate_bids();
    assert_eq!(2, bids.len());
    // first order
    assert_eq!(1000, bids[0].participant);
    assert_eq!(123, bids[0].price);
    assert_eq!(100, bids[0].quantity);
    assert_eq!(Side::Bid, bids[0].side);
    assert_eq!(OrderType::Day, bids[0].order_type);
    assert_eq!(500, bids[0].instrument_id);

    // second order
    assert_eq!(1001, bids[1].participant);
    assert_eq!(123, bids[1].price);
    assert_eq!(300, bids[1].quantity);
    assert_eq!(Side::Bid, bids[1].side);
    assert_eq!(OrderType::Day, bids[1].order_type);
    assert_eq!(500, bids[1].instrument_id);
}

#[test]
fn cross_against_multiple_passive() {
    let i = Instrument::new_fast(500, InstrumentType::Share);
    let o_passive1 = Order::new(1000, 500, 123, 100, Side::Bid, OrderType::Day, 100, 2000);
    let o_passive2 = Order::new(1001, 500, 123, 200, Side::Bid, OrderType::Day, 100, 2000);
    let o_passive3 = Order::new(1002, 500, 123, 300, Side::Bid, OrderType::Day, 100, 2000);
    let o_aggressive = Order::new(1003, 500, 123, 400, Side::Ask, OrderType::Day, 101, 2002);

    let mut target = trading_market(&i);

    assert_eq!(OrderState::Inserted, target.add_order(o_passive1).0);
    assert_eq!(OrderState::Inserted, target.add_order(o_passive2).0);
    assert_eq!(OrderState::Inserted, target.add_order(o_passive3).0);

    assert_eq!(OrderState::Traded, target.add_order(o_aggressive).0);

    assert_eq!(0, target.generate_asks().len());

    // the remainder order
    let bids = target.generate_bids();
    assert_eq!(1, bids.len());
    assert_eq!(1002, bids[0].participant);
    assert_eq!(123, bids[0].price);
    assert_eq!(200, bids[0].quantity);
    assert_eq!(Side::Bid, bids[0].side);
    assert_eq!(OrderType::Day, bids[0].order_type);
    assert_eq!(500, bids[0].instrument_id);

    // check the feed
    assert_eq!(3, target.disseminator.trades.len());
}

#[test]
fn cross_partially_against_multiple_passive_and_post() {
    let i = Instrument::new_fast(500, InstrumentType::Share);
    let o_passive1 = Order::new(1000, 500, 123, 100, Side::Bid, OrderType::Day, 100, 2000);
    let o_passive2 = Order::new(1001, 500, 123, 200, Side::Bid, OrderType::Day, 100, 2000);
    let o_passive3 = Order::new(1002, 500, 123, 300, Side::Bid, OrderType::Day, 100, 2000);
    let o_aggressive = Order::new(1003, 500, 123, 900, Side::Ask, OrderType::Day, 200, 1000);

    let mut target = trading_market(&i);

    assert_eq!(OrderState::Inserted, target.add_order(o_passive1).0);
    assert_eq!(OrderState::Inserted, target.add_order(o_passive2).0);
    assert_eq!(OrderState::Inserted, target.add_order(o_passive3).0);

    assert_eq!(OrderState::PartiallyTraded, target.add_order(o_aggressive).0);

    assert_eq!(0, target.generate_bids().len());

    let asks = target.generate_asks();
    assert_eq!(1, asks.len());
    assert_eq!(1003, asks[0].participant);
    assert_eq!(123, asks[0].price);
    assert_eq!(300, asks[0].quantity);
    assert_eq!(Side::Ask, asks[0].side);
    assert_eq!(OrderType::Day, asks[0].order_type);
    assert_eq!(500, asks[0].instrument_id);
}

#[test]
fn close_deletes_orders() {
    let i = Instrument::new_fast(500, InstrumentType::Share);
    let o = Order::new(1000, 500, 123, 100, Side::Bid, OrderType::Day, 100, 2000);

    let mut target = trading_market(&i);
    let _ = (0..100).map(|_| {
        assert_eq!(OrderState::Inserted, target.add_order(o.clone()).0);
    });
    target.close();

    assert_eq!(0, target.generate_bids().len());
    assert_eq!(0, target.generate_asks().len());
}

#[test]
fn close_closes_instrument() {
    let i = Instrument::new_fast(500, InstrumentType::Share);
    let o = Order::new(1000, 500, 123, 100, Side::Bid, OrderType::Day, 100, 2000);

    let mut target = trading_market(&i);
    let _ = (0..100).map(|_| {
        assert_eq!(OrderState::Inserted, target.add_order(o.clone()).0);
    });
    target.close();

    assert_eq!(InstrumentState::Closed, target.get_instrument().get_state());
}

#[test]
fn reject_if_out_of_price_bands() {
    let mut i = Instrument::new_fast(500, InstrumentType::Share);
    i.set_percentage_bands(10);

    let o1 = Order::new(1000, 500, 1000, 100, Side::Bid, OrderType::Day, 100, 2000);
    let o2 = Order::new(1000, 500, 1001, 100, Side::Ask, OrderType::Day, 100, 2000);
    let o = Order::new(1000, 500, 123, 100, Side::Bid, OrderType::Day, 100, 2000);

    let mut target = trading_market(&i);
    assert_eq!(OrderState::Inserted, target.add_order(o1).0);
    assert_eq!(OrderState::Inserted, target.add_order(o2).0);
    assert_eq!(OrderState::Rejected, target.add_order(o).0);
}

#[test]
fn market_order_not_inserted() {
    let i = Instrument::new_fast(500, InstrumentType::Share);
    let o = Order::new(1000, 500, 0, 1000, Side::Bid, OrderType::Market, 100, 2000);

    let mut target = trading_market(&i);
    assert_eq!(OrderState::Cancelled, target.add_order(o).0);
}

#[test]
fn market_order_not_inserted_after_trade() {
    let mut i = Instrument::new_fast(500, InstrumentType::Share);
    i.set_percentage_bands(10);

    let o1 = Order::new(1000, 500, 1000, 100, Side::Bid, OrderType::Day, 100, 2000);
    let o2 = Order::new(1000, 500, 1001, 100, Side::Ask, OrderType::Day, 100, 2000);
    let o = Order::new(1000, 500, 0, 1000, Side::Bid, OrderType::Market, 100, 2000);

    let mut target = trading_market(&i);
    assert_eq!(OrderState::Inserted, target.add_order(o1).0);
    assert_eq!(OrderState::Inserted, target.add_order(o2).0);
    assert_eq!(OrderState::Traded, target.add_order(o).0);
}

#[test]
fn market_order_trades() {
    let mut i = Instrument::new_fast(500, InstrumentType::Share);
    i.set_percentage_bands(10);

    let o1 = Order::new(1000, 500, 1000, 100, Side::Bid, OrderType::Day, 100, 2000);
    let o2 = Order::new(1000, 500, 1001, 100, Side::Ask, OrderType::Day, 100, 2000);
    let o = Order::new(1000, 500, 0, 100, Side::Bid, OrderType::Market, 100, 2000);

    let mut target = trading_market(&i);
    assert_eq!(OrderState::Inserted, target.add_order(o1).0);
    assert_eq!(OrderState::Inserted, target.add_order(o2).0);
    assert_eq!(OrderState::Traded, target.add_order(o).0);
}

#[test]
fn order_id_increments() {
    let mut i = Instrument::new_fast(500, InstrumentType::Share);
    i.set_percentage_bands(10);

    let o1 = Order::new(1000, 500, 1000, 100, Side::Bid, OrderType::Day, 100, 2000);
    let o2 = Order::new(1000, 500, 1001, 100, Side::Ask, OrderType::Day, 100, 2000);
    let o3 = Order::new(1000, 500, 0, 100, Side::Bid, OrderType::Day, 100, 2000);

    let mut target = trading_market(&i);
    assert_eq!(OrderState::Inserted, target.add_order(o1).0);
    assert_eq!(1, target.get_order_id());
    assert_eq!(OrderState::Inserted, target.add_order(o2).0);
    assert_eq!(2, target.get_order_id());
    assert_eq!(OrderState::Rejected, target.add_order(o3).0);
    assert_eq!(3, target.get_order_id());
}

#[test]
fn publish_new_order() {
    let mut i = Instrument::new_fast(500, InstrumentType::Share);
    i.set_percentage_bands(10);

    let mut o1 = Order::new(1000, 500, 1000, 100, Side::Bid, OrderType::Day, 100, 2000);
    let mut target = trading_market(&i);

    assert_eq!(OrderState::Inserted, target.add_order(o1.clone()).0);
    assert_eq!(1, target.disseminator.new_orders.len());
    assert_eq!(0, target.disseminator.cancels.len());

    o1.set_id(target.get_order_id()); // fix the order id
    assert_eq!(target.disseminator.new_orders[0], o1);
}

#[test]
fn cancel_invalid_order() {
    let mut i = Instrument::new_fast(500, InstrumentType::Share);
    i.set_percentage_bands(10);

    let o1 = Order::new(1000, 500, 1000, 100, Side::Bid, OrderType::Day, 100, 2000);
    let mut target = trading_market(&i);

    assert_eq!(OrderState::Inserted, target.add_order(o1.clone()).0);
    assert_eq!(OrderState::Rejected, target.cancel_order(&o1));
}

#[test]
fn cancel_valid_order() {
    let mut i = Instrument::new_fast(500, InstrumentType::Share);
    i.set_percentage_bands(10);

    let mut o1 = Order::new(1000, 500, 1000, 100, Side::Bid, OrderType::Day, 100, 2000);
    let mut target = trading_market(&i);

    assert_eq!(OrderState::Inserted, target.add_order(o1.clone()).0);
    o1.set_id(target.get_order_id());
    assert_eq!(OrderState::Cancelled, target.cancel_order(&o1));
}

#[test]
fn cancel_invalid_order_side() {
    let mut i = Instrument::new_fast(500, InstrumentType::Share);
    i.set_percentage_bands(10);

    let mut o1 = Order::new(1000, 500, 1000, 100, Side::Bid, OrderType::Day, 100, 2000);
    let mut target = trading_market(&i);

    assert_eq!(OrderState::Inserted, target.add_order(o1.clone()).0);
    o1.set_id(target.get_order_id());
    o1.side = Side::Ask;
    assert_eq!(OrderState::Rejected, target.cancel_order(&o1));
}

#[test]
fn cancel_publishes() {
    let mut i = Instrument::new_fast(500, InstrumentType::Share);
    i.set_percentage_bands(10);

    let mut o1 = Order::new(1000, 500, 1000, 100, Side::Bid, OrderType::Day, 100, 2000);
    let mut target = trading_market(&i);

    assert_eq!(OrderState::Inserted, target.add_order(o1.clone()).0);
    o1.set_id(target.get_order_id());
    assert_eq!(OrderState::Cancelled, target.cancel_order(&o1));
    assert_eq!(1, target.disseminator.new_orders.len());
    assert_eq!(1, target.disseminator.cancels.len());
}

#[test]
fn modify_invalid_order() {
    let mut i = Instrument::new_fast(500, InstrumentType::Share);
    i.set_percentage_bands(10);

    let o1 = Order::new(1000, 500, 1000, 100, Side::Bid, OrderType::Day, 100, 2000);
    let mut target = trading_market(&i);

    assert_eq!(OrderState::Inserted, target.add_order(o1.clone()).0);
    assert_eq!(OrderState::Rejected, target.modify_order(o1).0);
}

#[test]
fn modify_valid_order() {
    let mut i = Instrument::new_fast(500, InstrumentType::Share);
    i.set_percentage_bands(10);

    let mut o1 = Order::new(1000, 500, 1000, 100, Side::Bid, OrderType::Day, 100, 2000);
    let mut target = trading_market(&i);

    assert_eq!(OrderState::Inserted, target.add_order(o1.clone()).0);
    o1.set_id(target.get_order_id());
    o1.price = 990;
    assert_eq!(OrderState::Inserted, target.modify_order(o1).0);

    let bids = target.generate_bids();
    assert_eq!(1, bids.len());
    assert_eq!(990, bids[0].price);
}

#[test]
fn modify_to_zero_quantity_reject() {
    let mut i = Instrument::new_fast(500, InstrumentType::Share);
    i.set_percentage_bands(10);

    let mut o1 = Order::new(1000, 500, 1000, 100, Side::Bid, OrderType::Day, 100, 2000);
    let mut target = trading_market(&i);

    assert_eq!(OrderState::Inserted, target.add_order(o1.clone()).0);
    o1.set_id(target.get_order_id());
    o1.quantity = 0;
    assert_eq!(OrderState::Rejected, target.modify_order(o1).0);

    let bids = target.generate_bids();

    // let's make sure that the original order is still there
    // and its price is the original one
    assert_eq!(1, bids.len());
    assert_eq!(1000, bids[0].price);
}

#[test]
fn modify_cant_change_sides() {
    let mut i = Instrument::new_fast(500, InstrumentType::Share);
    i.set_percentage_bands(10);

    let mut o1 = Order::new(1000, 500, 1000, 100, Side::Bid, OrderType::Day, 100, 2000);
    let mut target = trading_market(&i);

    assert_eq!(OrderState::Inserted, target.add_order(o1.clone()).0);
    o1.set_id(target.get_order_id());
    o1.side = Side::Ask;
    assert_eq!(OrderState::Rejected, target.modify_order(o1).0);

    // let's make sure that the original order is still there
    assert_eq!(1, target.generate_bids().len());
    assert_eq!(0, target.generate_asks().len());
}

#[test]
fn modify_cant_change_order_type() {
    let mut i = Instrument::new_fast(500, InstrumentType::Share);
    i.set_percentage_bands(10);

    let mut o1 = Order::new(1000, 500, 1000, 100, Side::Bid, OrderType::Day, 100, 2000);
    let mut target = trading_market(&i);

    assert_eq!(OrderState::Inserted, target.add_order(o1.clone()).0);
    o1.set_id(target.get_order_id());
    o1.order_type = OrderType::FillOrKill;
    assert_eq!(OrderState::Rejected, target.modify_order(o1).0);

    // let's make sure that the original order is still there
    assert_eq!(1, target.generate_bids().len());
}

#[test]
fn modify_quantity_doesnt_change_position() {
    let mut i = Instrument::new_fast(500, InstrumentType::Share);
    i.set_percentage_bands(10);

    let mut o1 = Order::new(1000, 500, 1000, 100, Side::Bid, OrderType::Day, 100, 2000);
    let mut o2 = Order::new(1000, 500, 1000, 200, Side::Bid, OrderType::Day, 100, 2000);

    let mut target = trading_market(&i);

    assert_eq!(OrderState::Inserted, target.add_order(o1.clone()).0);
    o1.set_id(target.get_order_id());
    assert_eq!(OrderState::Inserted, target.add_order(o2.clone()).0);
    o2.set_id(target.get_order_id());

    // modifying the first order's quantity should keep it first
    o1.quantity = 50;
    assert_eq!(OrderState::Modified, target.modify_order(o1).0);

    let bids = target.generate_bids();
    assert_eq!(2, bids.len());
    assert_eq!(50, bids[0].quantity);
    assert_eq!(200, bids[1].quantity);
}

#[test]
fn modify_valid_order_invalid_side() {
    let mut i = Instrument::new_fast(500, InstrumentType::Share);
    i.set_percentage_bands(10);

    let mut o1 = Order::new(1000, 500, 1000, 100, Side::Bid, OrderType::Day, 100, 2000);
    let mut target = trading_market(&i);

    assert_eq!(OrderState::Inserted, target.add_order(o1.clone()).0);
    o1.set_id(target.get_order_id());
    o1.side = Side::Ask;
    assert_eq!(OrderState::Rejected, target.modify_order(o1).0);
}

#[test]
fn modify_valid_order_publish_delete_new() {
    let mut i = Instrument::new_fast(500, InstrumentType::Share);
    i.set_percentage_bands(10);

    let mut o1 = Order::new(1000, 500, 1000, 100, Side::Bid, OrderType::Day, 100, 2000);
    let mut target = trading_market(&i);

    assert_eq!(OrderState::Inserted, target.add_order(o1.clone()).0);
    o1.set_id(target.get_order_id());
    o1.price += 1;
    assert_eq!(OrderState::Inserted, target.modify_order(o1).0);

    assert_eq!(1, target.disseminator.cancels.len());
    assert_eq!(2, target.disseminator.new_orders.len());
}

#[test]
fn modify_quantity_publish_modify() {
    let mut i = Instrument::new_fast(500, InstrumentType::Share);
    i.set_percentage_bands(10);

    let mut o1 = Order::new(1000, 500, 1000, 100, Side::Bid, OrderType::Day, 100, 2000);
    let mut target = trading_market(&i);

    assert_eq!(OrderState::Inserted, target.add_order(o1.clone()).0);
    o1.set_id(target.get_order_id());
    o1.quantity += 100;
    assert_eq!(OrderState::Modified, target.modify_order(o1).0);

    assert_eq!(1, target.disseminator.modifies.len());
}

#[test]
fn publish_instrument_and_market() {
    let mut i = Instrument::new_fast(500, InstrumentType::Share);
    i.set_percentage_bands(10);

    let o1 = Order::new(1000, 500, 1000, 100, Side::Bid, OrderType::Day, 100, 2000);
    let o2 = Order::new(1001, 500, 990, 200, Side::Bid, OrderType::Day, 100, 2000);

    let mut target = trading_market(&i);

    assert_eq!(OrderState::Inserted, target.add_order(o1).0);
    assert_eq!(OrderState::Inserted, target.add_order(o2).0);

    let r = target.publish_snapshot();
    assert!(r.is_ok());
    assert_eq!(3, r.unwrap());
    assert_eq!(1, target.disseminator.instrument_info.len());
    assert_eq!(2, target.disseminator.market_orders.len());
}

#[test]
fn cancel_all_orders_for_session() {
    let mut i = Instrument::new_fast(500, InstrumentType::Share);
    i.set_percentage_bands(10);

    let o1 = Order::new(1000, 500, 1000, 100, Side::Bid, OrderType::Day, 100, 2000);
    let o2 = Order::new(1000, 500, 990, 200, Side::Bid, OrderType::Day, 100, 2000);
    let o3 = Order::new(1001, 500, 1010, 300, Side::Ask, OrderType::Day, 100, 2001);
    let o4 = Order::new(1001, 500, 1020, 400, Side::Ask, OrderType::Day, 101, 2002);

    let mut target = trading_market(&i);

    assert_eq!(OrderState::Inserted, target.add_order(o1).0);
    assert_eq!(OrderState::Inserted, target.add_order(o2).0);
    assert_eq!(OrderState::Inserted, target.add_order(o3).0);
    assert_eq!(OrderState::Inserted, target.add_order(o4).0);

    // Verify initial state
    assert_eq!(2, target.generate_bids().len());
    assert_eq!(2, target.generate_asks().len());

    // Cancel all orders for participant 1000, gateway 100, session 2000
    let r = target.cancel_all_orders_for_session(1000, 100, 2000);
    assert_eq!(2, r.len());

    // Verify state after cancellation
    let bids = target.generate_bids();
    let asks = target.generate_asks();

    assert_eq!(0, bids.len());
    assert_eq!(2, asks.len());

    // Verify remaining orders
    assert_eq!(1001, asks[0].participant);
    assert_eq!(1010, asks[0].price);
    assert_eq!(300, asks[0].quantity);
    assert_eq!(1001, asks[1].participant);
    assert_eq!(1020, asks[1].price);
    assert_eq!(400, asks[1].quantity);

    // Verify operation counters
    assert_eq!(6, target.bids_ops);
    assert_eq!(2, target.asks_ops);
}
