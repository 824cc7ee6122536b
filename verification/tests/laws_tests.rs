//! Behaviour the book and the protocols promise: seed scenarios for the
//! integration suite, and concrete checks of the book's standing rules.

use exchange_core::clearing::{process_frames, ClearProtocol, GenericClearingProtocol, ProcessError, ProtocolSide};
use exchange_core::feed::{encode_feed_frame, FEED_TAG_TRADE};
use exchange_core::instrument::{Instrument, InstrumentState, InstrumentType};
use exchange_core::instrument_list::{GenericInstrumentList, MockInstrumentList};
use exchange_core::market::{Market, MarketStore};
use exchange_core::mockdisseminator::MockDisseminator;
use exchange_core::oep::decoder::Decoder;
use exchange_core::oep::login::Login;
use exchange_core::oep::trade::Trade;
use exchange_core::oep::{oep_decode, MessageTypes, OepDecodeError};
use exchange_core::order::{Order, OrderState, OrderType, Side};
use exchange_core::session::{
    receive_and_prepare_relay_message, ConnectedSession, GenericDB, MockDB, SessionError,
};

fn market_with_bands(id: u64, bands: u8) -> Market<MockDisseminator> {
    let i = Instrument::new(id, b"", InstrumentType::Share, InstrumentState::Trading, bands, 0);
    Market::new(i, MockDisseminator::new())
}

/// An order on a market with instrument id 500.
fn order(participant: u64, price: u64, qty: u64, side: Side, t: OrderType) -> Order {
    Order::new(participant, 500, price, qty, side, t, 1, 2)
}

/// Empty-book day order posts: `(Inserted, id=1)`, one resident bid, no
/// asks, and exactly one new-order record on the feed.
#[test]
fn empty_book_day_order_posts() {
    let mut m = market_with_bands(500, 0);
    let r = m.add_order(order(7, 123, 100, Side::Bid, OrderType::Day));
    assert_eq!((OrderState::Inserted, 1), r);
    assert_eq!(1, m.generate_bids().len());
    assert_eq!(0, m.generate_asks().len());
    assert_eq!(1, m.disseminator.new_orders.len());
    assert_eq!(0, m.disseminator.trades.len());
}

/// Full cross: a passive bid of 400 at 123, then an aggressive ask of 100
/// at 123: `(Traded, 2)`, one trade `{bid=1, ask=2, price=123, qty=100}`,
/// and a residual bid of 300.
#[test]
fn full_cross() {
    let mut m = market_with_bands(500, 0);
    assert_eq!(
        (OrderState::Inserted, 1),
        m.add_order(order(7, 123, 400, Side::Bid, OrderType::Day))
    );
    assert_eq!(
        (OrderState::Traded, 2),
        m.add_order(order(8, 123, 100, Side::Ask, OrderType::Day))
    );
    assert_eq!(1, m.disseminator.trades.len());
    let t = m.disseminator.trades[0];
    assert_eq!(
        Trade { bid_order_id: 1, ask_order_id: 2, price: 123, quantity: 100 },
        t
    );
    let bids = m.generate_bids();
    assert_eq!(1, bids.len());
    assert_eq!(300, bids[0].quantity);
}

/// Cascade: three passive bids at 123 with quantities 100, 200 and 300,
/// then an aggressive ask of 400: `(Traded, 4)`, three trades in arrival
/// order, and one residual bid `{id=3, qty=200}`.
#[test]
fn cascade() {
    let mut m = market_with_bands(500, 0);
    assert_eq!(
        (OrderState::Inserted, 1),
        m.add_order(order(7, 123, 100, Side::Bid, OrderType::Day))
    );
    assert_eq!(
        (OrderState::Inserted, 2),
        m.add_order(order(7, 123, 200, Side::Bid, OrderType::Day))
    );
    assert_eq!(
        (OrderState::Inserted, 3),
        m.add_order(order(7, 123, 300, Side::Bid, OrderType::Day))
    );
    assert_eq!(
        (OrderState::Traded, 4),
        m.add_order(order(8, 123, 400, Side::Ask, OrderType::Day))
    );
    assert_eq!(3, m.disseminator.trades.len());
    assert_eq!(1, m.disseminator.trades[0].bid_order_id);
    assert_eq!(100, m.disseminator.trades[0].quantity);
    assert_eq!(2, m.disseminator.trades[1].bid_order_id);
    assert_eq!(200, m.disseminator.trades[1].quantity);
    assert_eq!(3, m.disseminator.trades[2].bid_order_id);
    assert_eq!(100, m.disseminator.trades[2].quantity);
    let bids = m.generate_bids();
    assert_eq!(1, bids.len());
    assert_eq!(3, bids[0].get_id());
    assert_eq!(200, bids[0].quantity);
}

/// Band reject: with bands=10 and a 1000/1001 quote, `mid=1000` and the
/// lower bound is 900, so a bid at 123 is rejected.
#[test]
fn band_reject() {
    let mut m = market_with_bands(500, 10);
    assert_eq!(
        (OrderState::Inserted, 1),
        m.add_order(order(7, 1000, 100, Side::Bid, OrderType::Day))
    );
    assert_eq!(
        (OrderState::Inserted, 2),
        m.add_order(order(7, 1001, 100, Side::Ask, OrderType::Day))
    );
    // the reject reports the exchange id the attempt drew
    let r = m.add_order(order(7, 123, 100, Side::Bid, OrderType::Day));
    assert_eq!((OrderState::Rejected, 3), r);
    // a bid exactly at the lower bound of 900 is allowed
    assert_eq!(
        OrderState::Inserted,
        m.add_order(order(7, 900, 100, Side::Bid, OrderType::Day)).0
    );
    // one just under is not
    assert_eq!(
        (OrderState::Rejected, 5),
        m.add_order(order(7, 899, 100, Side::Bid, OrderType::Day))
    );
}

/// A fill-or-kill remainder cancels: into an empty book the whole order
/// is remainder, so it comes back `(Cancelled, id)` and the book does not
/// change.
#[test]
fn fak_remainder_cancels() {
    let mut m = market_with_bands(500, 0);
    let r = m.add_order(order(7, 123, 100, Side::Bid, OrderType::FillOrKill));
    assert_eq!((OrderState::Cancelled, 1), r);
    assert_eq!(0, m.generate_bids().len());
    assert_eq!(0, m.generate_asks().len());
    assert_eq!(0, m.disseminator.new_orders.len());
}

/// No crossed book: after a sequence of adds, every resident bid prices
/// strictly under every resident ask.
#[test]
fn no_crossed_book_after_adds() {
    let mut m = market_with_bands(500, 0);
    let _ = m.add_order(order(7, 100, 10, Side::Bid, OrderType::Day));
    let _ = m.add_order(order(7, 102, 10, Side::Ask, OrderType::Day));
    let _ = m.add_order(order(7, 101, 10, Side::Bid, OrderType::Day));
    let _ = m.add_order(order(7, 101, 10, Side::Ask, OrderType::Day));
    let _ = m.add_order(order(7, 103, 25, Side::Bid, OrderType::Day));
    let bids = m.generate_bids();
    let asks = m.generate_asks();
    for b in &bids {
        for a in &asks {
            assert!(b.price < a.price);
        }
    }
}

/// Price-time priority: same-price orders stand in arrival order, so the
/// smaller exchange id is nearer the front of its side.
#[test]
fn price_time_priority_on_each_side() {
    let mut m = market_with_bands(500, 0);
    let _ = m.add_order(order(7, 100, 10, Side::Bid, OrderType::Day));
    let _ = m.add_order(order(8, 100, 20, Side::Bid, OrderType::Day));
    let _ = m.add_order(order(9, 101, 30, Side::Bid, OrderType::Day));
    let _ = m.add_order(order(7, 100, 40, Side::Bid, OrderType::Day));
    let bids = m.generate_bids();
    for i in 0..bids.len() {
        for j in (i + 1)..bids.len() {
            assert!(bids[i].price >= bids[j].price);
            if bids[i].price == bids[j].price {
                assert!(bids[i].get_id() < bids[j].get_id());
            }
        }
    }
}

/// Every trade of an add: distinct bid and ask ids, positive quantity,
/// the resident's price, and quantities summing to the smaller of the
/// aggressor's quantity and the matched depth.
#[test]
fn trades_are_sound() {
    let mut m = market_with_bands(500, 0);
    let _ = m.add_order(order(7, 100, 10, Side::Bid, OrderType::Day));
    let _ = m.add_order(order(7, 101, 20, Side::Bid, OrderType::Day));
    let _ = m.add_order(order(8, 99, 25, Side::Ask, OrderType::Day));
    assert_eq!(2, m.disseminator.trades.len());
    let mut total = 0;
    for t in &m.disseminator.trades {
        assert_ne!(t.bid_order_id, t.ask_order_id);
        assert!(t.quantity > 0);
        total += t.quantity;
    }
    // the aggressor asked for 25 against a matched depth of 30
    assert_eq!(25, total);
    // the resident side's prices win, best first
    assert_eq!(101, m.disseminator.trades[0].price);
    assert_eq!(100, m.disseminator.trades[1].price);
}

/// The catalog answers a heartbeat with nothing and keeps its state.
#[test]
fn heartbeat_is_a_no_op() {
    let mut markets: MarketStore<MockDisseminator> = MarketStore::new(MockDisseminator::new());
    let mut target = ClearProtocol::new(MockInstrumentList::new());
    let packet = [b'C', b'P', 1, 1, 0, 0, 0, 0];
    let v = target.process(&packet, &mut markets).unwrap();
    assert_eq!(8, v.1);
    assert_eq!(0, v.0.len());
    assert_eq!(0, target.clone_instrument_list().len());
}

/// A frame with a bad magic or a bad version is a protocol error.
#[test]
fn bad_clearing_header_errors() {
    let mut markets: MarketStore<MockDisseminator> = MarketStore::new(MockDisseminator::new());
    let mut target = ClearProtocol::new(MockInstrumentList::new());
    let bad_magic = [b'X', b'P', 1, 1, 0, 0, 0, 0];
    assert!(target.process(&bad_magic, &mut markets).is_err());
    let bad_version = [b'C', b'P', 9, 1, 0, 0, 0, 0];
    assert!(target.process(&bad_version, &mut markets).is_err());
}

/// An entry of an unknown type is a protocol error.
#[test]
fn unknown_clearing_entry_errors() {
    let mut markets: MarketStore<MockDisseminator> = MarketStore::new(MockDisseminator::new());
    let mut target = ClearProtocol::new(MockInstrumentList::new());
    let packet = [b'C', b'P', 1, 1, 9, 0, 0, 0];
    let r: Result<(Vec<u8>, usize), ProcessError> = target.process(&packet, &mut markets);
    assert!(r.is_err());
}

/// A server-side protocol instance ignores catalog records instead of
/// registering them.
#[test]
fn server_side_ignores_updates() {
    let mut markets: MarketStore<MockDisseminator> = MarketStore::new(MockDisseminator::new());
    let mut target = ClearProtocol::new(MockInstrumentList::new());
    target.set_protocol_side(ProtocolSide::Server);
    let packet = [
        b'C', b'P', 1, 1, // technical header
        1, 0, 12, 0, // Instrument update, Len: 12
        8, 7, 6, 5, 4, 3, 2, 1, 0, 2, 20, 25,
    ];
    let v = target.process(&packet, &mut markets).unwrap();
    assert_eq!(packet.len(), v.1);
    assert_eq!(0, target.clone_instrument_list().len());
    assert_eq!(0, markets.len());
}

/// Instruments survive an encode/decode round trip, byte layout and all.
#[test]
fn instrument_round_trip() {
    let i = Instrument::new(
        0x0102030405060708,
        b"ABC",
        InstrumentType::OptionPut,
        InstrumentState::Auction,
        20,
        25,
    );
    let encoded = i.encode();
    assert_eq!(
        vec![8, 7, 6, 5, 4, 3, 2, 1, 2, 2, 20, 25, b'A', b'B', b'C'],
        encoded
    );
    let back = Instrument::decode(&encoded);
    assert_eq!(i.get_id(), back.get_id());
    assert_eq!(i.get_type(), back.get_type());
    assert_eq!(i.get_state(), back.get_state());
    assert_eq!(i.get_percentage_bands(), back.get_percentage_bands());
    assert_eq!(
        i.get_percentage_variation_allowed(),
        back.get_percentage_variation_allowed()
    );
    assert_eq!(*i.get_name(), *back.get_name());
}

/// A feed frame is the sequence number, the tag, and the payload.
#[test]
fn feed_frame_layout() {
    let t = Trade { bid_order_id: 1, ask_order_id: 2, price: 3, quantity: 4 };
    let frame = encode_feed_frame(9, FEED_TAG_TRADE, &t.encode());
    assert_eq!(8 + 1 + 32, frame.len());
    assert_eq!(vec![9, 0, 0, 0, 0, 0, 0, 0], frame[0..8].to_vec());
    assert_eq!(FEED_TAG_TRADE, frame[8]);
    assert_eq!(t.encode(), frame[9..].to_vec());
}

/// Messages a client never sends are rejected, and a second login closes
/// the session.
#[test]
fn session_rejects_bad_messages() {
    let mut db = MockDB::new();
    let mut session = ConnectedSession::new();

    // an order before login is rejected
    let order_msg = MessageTypes::NewOrder(exchange_core::oep::neworder::NewOrder {
        client_order_id: 1,
        participant: 111,
        book_id: 500,
        quantity: 1,
        price: 1,
        order_type: 0,
        side: 0,
        gateway_id: 1,
        session_id: 2,
    });
    assert_eq!(
        Err(SessionError::InvalidParticipant),
        receive_and_prepare_relay_message(&mut db, &mut session, &order_msg)
    );

    // log in
    let login = MessageTypes::Login(Login::new(1, 2, 1, b"user"));
    assert_eq!(
        Ok(111),
        receive_and_prepare_relay_message(&mut db, &mut session, &login)
    );

    // a second login is refused
    assert_eq!(
        Err(SessionError::AlreadyLoggedIn),
        receive_and_prepare_relay_message(&mut db, &mut session, &login)
    );

    // a trade never travels on this pipe
    let trade = MessageTypes::Trade(Trade { bid_order_id: 1, ask_order_id: 2, price: 3, quantity: 4 });
    assert_eq!(
        Err(SessionError::UnexpectedMessage),
        receive_and_prepare_relay_message(&mut db, &mut session, &trade)
    );

    // an order from the logged-in participant is relayed
    assert_eq!(
        Ok(111),
        receive_and_prepare_relay_message(&mut db, &mut session, &order_msg)
    );
    assert!(session.response_buffer.len() > 0);

    // an order from a different participant is rejected
    let foreign = MessageTypes::NewOrder(exchange_core::oep::neworder::NewOrder {
        client_order_id: 1,
        participant: 999,
        book_id: 500,
        quantity: 1,
        price: 1,
        order_type: 0,
        side: 0,
        gateway_id: 1,
        session_id: 2,
    });
    assert_eq!(
        Err(SessionError::InvalidParticipant),
        receive_and_prepare_relay_message(&mut db, &mut session, &foreign)
    );
}

/// The framed decoder names each protocol error: incomplete frames ask
/// for more bytes, unknown types are fatal.
#[test]
fn oep_decode_error_kinds() {
    assert_eq!(Err(OepDecodeError::Incomplete), oep_decode(&[1, 0]).map(|_| ()));
    // unknown message type 9
    let unknown = [1, 0, 9, 0, 0, 0, 0, 0];
    assert_eq!(Err(OepDecodeError::UnknownType), oep_decode(&unknown).map(|_| ()));
    // announced length fits, payload size does not
    let malformed = [1, 0, 0, 0, 1, 0, 0, 0, 7];
    assert_eq!(Err(OepDecodeError::Malformed), oep_decode(&malformed).map(|_| ()));
}

/// A store handle can be dropped without ever having connected.
#[test]
fn no_connect_disconnect_doesnt_panic() {
    let mut db = MockDB::new();
    db.disconnect();
}

/// A receive buffer may hold several frames; the driver walks them one
/// after the other and reports the whole consumed prefix.
#[test]
fn frame_driver_walks_whole_frames() {
    let mut markets: MarketStore<MockDisseminator> = MarketStore::new(MockDisseminator::new());
    let mut target = ClearProtocol::new(MockInstrumentList::new());
    let mut buffer: Vec<u8> = Vec::new();
    buffer.extend_from_slice(&[b'C', b'P', 1, 1, 0, 0, 0, 0]); // heartbeat frame
    buffer.extend_from_slice(&[b'C', b'P', 1, 1, 0, 0, 0, 0]); // heartbeat frame
    buffer.extend_from_slice(&[b'C', b'P']); // a split frame stays
    let (responses, consumed) = process_frames(&mut target, &buffer, &mut markets).unwrap();
    assert_eq!(16, consumed);
    assert_eq!(0, responses.len());
}

/// A closed mock socket refuses reads and writes.
#[test]
fn closed_mock_socket_refuses() {
    let mut s = exchange_core::network::MockSocket::new();
    s.close();
    assert!(s.write(b"x").is_err());
    assert!(s.read(1).is_err());
}

/// A client-side catalog record leaves a book for its instrument behind:
/// the engine can accept orders for it from then on.
#[test]
fn instrument_update_creates_book() {
    let mut markets: MarketStore<MockDisseminator> = MarketStore::new(MockDisseminator::new());
    let mut target = ClearProtocol::new(MockInstrumentList::new());
    let mut buffer: Vec<u8> = Vec::new();
    buffer.extend_from_slice(&[b'C', b'P', 1, 1]); // technical header
    buffer.extend_from_slice(&[1, 0, 12, 0]); // catalog record, len 12
    buffer.extend_from_slice(&[8, 7, 6, 5, 4, 3, 2, 1, 0, 2, 20, 25]);
    let (responses, consumed) = process_frames(&mut target, &buffer, &mut markets).unwrap();
    assert_eq!(buffer.len(), consumed);
    assert_eq!(0, responses.len());
    assert_eq!(1, markets.len());
    assert_eq!(
        0x0102030405060708,
        markets.markets[0].get_instrument().get_id()
    );
    assert_eq!(
        InstrumentState::Auction,
        markets.markets[0].get_state()
    );
}
