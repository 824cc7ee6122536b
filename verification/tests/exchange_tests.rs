//! One order's round trip through the whole pipeline: client socket to
//! gateway session, relay to the matching engine, book, and feed — and
//! the cancel-on-disconnect sweep at the end.

use exchange_core::instrument::{Instrument, InstrumentState, InstrumentType};
use exchange_core::market::Market;
use exchange_core::mockdisseminator::MockDisseminator;
use exchange_core::network::MockSocket;
use exchange_core::oep::decoder::Decoder;
use exchange_core::oep::execution_report::ExecutionReport;
use exchange_core::oep::login::Login;
use exchange_core::oep::neworder::{NewOrder, NEWORDER_SIZE};
use exchange_core::oep::sessioninfo::SessionInfo;
use exchange_core::oep::MessageTypes;
use exchange_core::order::{OrderState, OrderType, Side};
use exchange_core::processor::{decode_message, process_message};
use exchange_core::session::{receive_and_prepare_relay_message, ConnectedSession, MockDB};

const INSTRUMENT_ID: u64 = 1000;

/// An exchange in miniature: a client socket wired to a gateway socket, a
/// relay socket wired to the matching engine socket, one session, and one
/// market for a trading instrument.
struct TestExchange {
    client_socket: MockSocket,
    gateway_client_socket: MockSocket,
    gateway_sender: MockSocket,
    matching_engine_socket: MockSocket,
    market: Market<MockDisseminator>,
}

impl TestExchange {
    fn new() -> TestExchange {
        let instrument = Instrument::new(
            INSTRUMENT_ID,
            b"TESTINST",
            InstrumentType::Share,
            InstrumentState::Trading,
            10,
            20,
        );

        let mut r = TestExchange {
            client_socket: MockSocket::new(),
            gateway_client_socket: MockSocket::new(),
            gateway_sender: MockSocket::new(),
            matching_engine_socket: MockSocket::new(),
            market: Market::new(instrument, MockDisseminator::new()),
        };
        // connect the client socket to the gateway input socket
        r.client_socket.connect_output();
        r.gateway_client_socket.connect_output();
        // connect the gateway output to the matching engine input
        r.gateway_sender.connect_output();
        r
    }

    fn login(&mut self) -> ConnectedSession {
        let mut mockdb = MockDB::new();
        let mut connection = ConnectedSession::new();
        let login_message = MessageTypes::Login(Login::new(1, 1, 1, b"test"));
        let r = receive_and_prepare_relay_message(&mut mockdb, &mut connection, &login_message);
        assert!(r.is_ok());
        // nothing is sent further to the matching engine
        assert_eq!(0, connection.response_buffer.len());
        // the login echo travels to the client
        let echoed = connection.out_buffer.clone();
        connection.out_buffer.clear();
        let _ = self.gateway_client_socket.write(&echoed);
        MockSocket::transfer(&mut self.gateway_client_socket, &mut self.client_socket);
        connection
    }

    /// Sends an order to the gateway session and relays it to the
    /// matching engine socket.
    fn send_order_to_gateway(
        &mut self,
        connection: &mut ConnectedSession,
        message: &MessageTypes,
    ) -> Result<u64, exchange_core::session::SessionError> {
        let mut mockdb = MockDB::new();
        let result = receive_and_prepare_relay_message(&mut mockdb, connection, message);

        // check whether anything must be relayed to the matching engine
        if connection.response_buffer.len() > 0 {
            let relayed = connection.response_buffer.clone();
            connection.response_buffer.clear();
            let _ = self.gateway_sender.write(&relayed);
            MockSocket::transfer(&mut self.gateway_sender, &mut self.matching_engine_socket);
        }

        result
    }

    fn process_order_at_matching_engine(&mut self) -> Vec<ExecutionReport> {
        let buf = self.matching_engine_socket.read(2000).unwrap();
        assert!(buf.len() > 4);
        let (msg, book_id) = decode_message(&buf).unwrap();
        match &msg {
            exchange_core::processor::MessageWrapper::KillSession(_) => {}
            _ => assert_eq!(INSTRUMENT_ID, book_id),
        }
        process_message(&mut self.market, msg)
    }

    /// What the gateway sends upstream when a session disconnects, so the
    /// engine mass-cancels its resident orders.
    fn disconnect_session(&mut self, participant: u64, session_id: u32, gateway_id: u8) {
        let info = SessionInfo::new(participant, session_id, gateway_id);
        let mut datagram: Vec<u8> = vec![3, 0, 0, 0];
        datagram.extend_from_slice(&info.encode());
        let _ = self.gateway_sender.write(&datagram);
        MockSocket::transfer(&mut self.gateway_sender, &mut self.matching_engine_socket);
    }
}

#[test]
fn connect_client_sockets() {
    let mut target = TestExchange::new();
    assert_eq!(9, target.client_socket.write(b"something").expect("9"));

    MockSocket::transfer(&mut target.client_socket, &mut target.gateway_client_socket);
    let r = target.gateway_client_socket.read(10000).expect("9");
    assert_eq!(9, r.len());
}

#[test]
fn send_login() {
    let mut target = TestExchange::new();
    let connection = target.login();
    // it replies back with login
    assert_eq!(8 + 144, target.client_socket.read_buffer.len());
    // but it doesn't publish anything towards the matching engine
    assert_eq!(0, target.matching_engine_socket.read_buffer.len());
    assert_eq!(111, connection.participant);
}

/// New day order in an empty market.
#[test]
fn process_new_day_order() {
    const PARTICIPANT: u64 = 111;
    const CLIENT_ORDER_ID: u64 = 100;
    const GATEWAY_ID: u8 = 1;
    const SESSION_ID: u32 = 2;

    let mut target = TestExchange::new();
    let mut connection = target.login();
    // "read" the login response
    target.client_socket.read_buffer.clear();
    let input_order = NewOrder {
        client_order_id: CLIENT_ORDER_ID,
        participant: PARTICIPANT,
        book_id: INSTRUMENT_ID,
        quantity: 100,
        price: 197,
        order_type: OrderType::Day.into(),
        side: Side::Bid.into(),
        gateway_id: GATEWAY_ID,
        session_id: SESSION_ID,
    };
    let message = MessageTypes::NewOrder(input_order);
    // first process the order at the gateway
    let send_order_result = target.send_order_to_gateway(&mut connection, &message);
    assert!(send_order_result.is_ok());

    // check that the matching engine input holds header + new order
    assert_eq!(
        4 + NEWORDER_SIZE,
        target.matching_engine_socket.read_buffer.len()
    );

    // make sure there is no new order published at this time
    assert_eq!(0, target.market.disseminator.new_orders.len());

    // and now process the order at the matching engine
    let ereport = target.process_order_at_matching_engine();
    assert_eq!(ereport[0].state, OrderState::Inserted.into());
    assert_eq!(CLIENT_ORDER_ID, ereport[0].submitted_order_id);

    // test whether the order was accepted by the market
    assert_eq!(1, target.market.generate_bids().len());

    // test whether it published the new order on the feed
    assert_eq!(0, target.market.disseminator.cancels.len());
    assert_eq!(1, target.market.disseminator.new_orders.len());

    // check that what was published on the feed matches the input
    let feed_order = target.market.disseminator.new_orders[0];
    assert_eq!(input_order.participant, feed_order.participant);
    assert_eq!(INSTRUMENT_ID, feed_order.instrument_id);
    assert_eq!(input_order.quantity, feed_order.quantity);
    assert_eq!(input_order.price, feed_order.price);
    assert_eq!(input_order.side, feed_order.side.into());
    assert_eq!(input_order.order_type, feed_order.order_type.into());

    // disconnect the session and check that cancel on disconnect works
    target.disconnect_session(PARTICIPANT, SESSION_ID, GATEWAY_ID);
    // and now process it at the matching engine
    let ereport = target.process_order_at_matching_engine();
    assert_eq!(ereport[0].state, OrderState::Cancelled.into());
    // check that the order is deleted from the market
    assert_eq!(0, target.market.generate_bids().len());

    // test whether it published the cancel on the feed
    assert_eq!(1, target.market.disseminator.cancels.len());
}

#[test]
fn trade_against_standing_order() {
    let mut target = TestExchange::new();
    let mut connection = target.login();
    let passive_order = NewOrder {
        client_order_id: 100,
        participant: 111,
        book_id: INSTRUMENT_ID,
        quantity: 100,
        price: 197,
        order_type: OrderType::Day.into(),
        side: Side::Bid.into(),
        gateway_id: 1,
        session_id: 2,
    };
    let message = MessageTypes::NewOrder(passive_order);
    // first process the order at the gateway
    let send_order_result = target.send_order_to_gateway(&mut connection, &message);
    assert!(send_order_result.is_ok());

    // and now process it at the matching engine
    let ereport = target.process_order_at_matching_engine();
    assert_eq!(ereport[0].state, OrderState::Inserted.into());

    // test whether the order was accepted by the market
    assert_eq!(1, target.market.generate_bids().len());

    let aggressive_order = NewOrder {
        client_order_id: 100,
        participant: 111,
        book_id: INSTRUMENT_ID,
        quantity: 100,
        price: 197,
        order_type: OrderType::Day.into(),
        side: Side::Ask.into(),
        gateway_id: 1,
        session_id: 2,
    };
    let message = MessageTypes::NewOrder(aggressive_order);
    let send_order_result = target.send_order_to_gateway(&mut connection, &message);
    if send_order_result.is_err() {
        println!("{:#?}", send_order_result);
    }
    assert!(send_order_result.is_ok());

    // and now process it at the matching engine
    let ereport = target.process_order_at_matching_engine();
    assert_eq!(ereport[0].state, OrderState::Traded.into());

    // test whether the order was executed by the market
    assert_eq!(0, target.market.generate_bids().len());
}
