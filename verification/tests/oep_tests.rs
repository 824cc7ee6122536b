//! The order entry protocol codec: fixed layouts, round trips, and the
//! framed stream decoder.

use exchange_core::oep::cancel::Cancel;
use exchange_core::oep::decoder::Decoder;
use exchange_core::oep::execution_report::{ExecutionReport, EXECUTIONREPORT_SIZE};
use exchange_core::oep::header::OepHeader;
use exchange_core::oep::login::Login;
use exchange_core::oep::modify::{Modify, MODIFY_SIZE};
use exchange_core::oep::neworder::NewOrder;
use exchange_core::oep::oep_message::{MsgType, OepMessage};
use exchange_core::oep::trade::{Trade, TRADE_SIZE};
use exchange_core::oep::{oep_decode, MessageTypes};

#[test]
fn test_encode() {
    let cancel = Cancel {
        participant: 1234567890,
        order_id: 9876543210,
        book_id: 42,
        side: 1,
        gateway_id: 5,
        session_id: 987654,
    };

    let encoded = cancel.encode();

    let expected = [
        210, 2, 150, 73, 0, 0, 0, 0, // participant (1234567890)
        234, 22, 176, 76, 2, 0, 0, 0, // order_id (9876543210)
        42, 0, 0, 0, 0, 0, 0, 0, // book_id (42)
        1, // side
        5, // gateway_id
        6, 18, 15, 0, // session_id (987654)
    ];

    assert_eq!(encoded, expected.to_vec());
}

#[test]
fn test_decode() {
    let buffer = [
        210, 2, 150, 73, 0, 0, 0, 0, // participant (1234567890)
        234, 22, 176, 76, 2, 0, 0, 0, // order_id (9876543210)
        42, 0, 0, 0, 0, 0, 0, 0, // book_id (42)
        1, // side
        5, // gateway_id
        6, 18, 15, 0, // session_id (987654)
    ];

    let decoded = Cancel::decode(&buffer).unwrap();

    assert_eq!(decoded.participant, 1234567890);
    assert_eq!(decoded.order_id, 9876543210);
    assert_eq!(decoded.book_id, 42);
    assert_eq!(decoded.side, 1);
    assert_eq!(decoded.gateway_id, 5);
    assert_eq!(decoded.session_id, 987654);
}

#[test]
fn test_encode_decode_roundtrip() {
    let original = Cancel {
        participant: 1234567890,
        order_id: 9876543210,
        book_id: 42,
        side: 1,
        gateway_id: 5,
        session_id: 987654,
    };

    let encoded = original.encode();
    let decoded = Cancel::decode(&encoded).unwrap();

    assert_eq!(decoded.participant, original.participant);
    assert_eq!(decoded.order_id, original.order_id);
    assert_eq!(decoded.book_id, original.book_id);
    assert_eq!(decoded.side, original.side);
    assert_eq!(decoded.gateway_id, original.gateway_id);
    assert_eq!(decoded.session_id, original.session_id);
}

#[test]
fn test_oep_message_traits() {
    let cancel = Cancel {
        participant: 1234567890,
        order_id: 9876543210,
        book_id: 42,
        side: 1,
        gateway_id: 5,
        session_id: 987654,
    };

    assert_eq!(cancel.message_type(), MsgType::Cancel);
    assert_eq!(cancel.get_gateway_id(), 5);
    assert_eq!(cancel.get_session_id(), 987654);
    assert_eq!(cancel.get_participant(), 1234567890);
}

#[test]
fn cancel_test_get_side() {
    let cancel = Cancel {
        participant: 1234567890,
        order_id: 9876543210,
        book_id: 42,
        side: 1,
        gateway_id: 5,
        session_id: 987654,
    };

    assert_eq!(cancel.get_side(), 1);
}

#[test]
fn test_execution_report_creation() {
    let er = ExecutionReport {
        participant: 12345,
        order_id: 67890,
        submitted_order_id: 11111,
        book: 22222,
        quantity: 100,
        price: 1000,
        flags: 0,
        side: 1,
        state: 2,
        session_id: 33333,
        gateway_id: 5,
    };

    assert_eq!(er.participant, 12345);
    assert_eq!(er.order_id, 67890);
    assert_eq!(er.submitted_order_id, 11111);
    assert_eq!(er.book, 22222);
    assert_eq!(er.quantity, 100);
    assert_eq!(er.price, 1000);
    assert_eq!(er.flags, 0);
    assert_eq!(er.side, 1);
    assert_eq!(er.state, 2);
    assert_eq!(er.session_id, 33333);
    assert_eq!(er.gateway_id, 5);
}

#[test]
fn test_getter_methods() {
    let er = ExecutionReport {
        participant: 12345,
        order_id: 67890,
        submitted_order_id: 11111,
        book: 22222,
        quantity: 100,
        price: 1000,
        flags: 0,
        side: 1,
        state: 2,
        session_id: 33333,
        gateway_id: 5,
    };

    assert_eq!(er.get_book(), 22222);
    assert_eq!(er.get_price(), 1000);
    assert_eq!(er.get_submitted_order_id(), 11111);
    assert_eq!(er.get_order_id(), 67890);
    assert_eq!(er.get_quantity(), 100);
}

#[test]
fn execution_report_test_encode_decode() {
    let original = ExecutionReport {
        participant: 12345,
        order_id: 67890,
        submitted_order_id: 11111,
        book: 22222,
        quantity: 100,
        price: 1000,
        flags: 0,
        side: 1,
        state: 2,
        session_id: 33333,
        gateway_id: 5,
    };

    let encoded = original.encode();
    assert_eq!(EXECUTIONREPORT_SIZE, encoded.len());
    let decoded = ExecutionReport::decode(&encoded).unwrap();

    assert_eq!(original.participant, decoded.participant);
    assert_eq!(original.order_id, decoded.order_id);
    assert_eq!(original.submitted_order_id, decoded.submitted_order_id);
    assert_eq!(original.book, decoded.book);
    assert_eq!(original.quantity, decoded.quantity);
    assert_eq!(original.price, decoded.price);
    assert_eq!(original.flags, decoded.flags);
    assert_eq!(original.side, decoded.side);
    assert_eq!(original.state, decoded.state);
    assert_eq!(original.session_id, decoded.session_id);
    assert_eq!(original.gateway_id, decoded.gateway_id);
}

#[test]
fn execution_report_test_oep_message_trait() {
    let er = ExecutionReport {
        participant: 12345,
        order_id: 67890,
        submitted_order_id: 11111,
        book: 22222,
        quantity: 100,
        price: 1000,
        flags: 0,
        side: 1,
        state: 2,
        session_id: 33333,
        gateway_id: 5,
    };

    assert_eq!(er.message_type(), MsgType::ExecutionReport);
    assert_eq!(er.get_gateway_id(), 5);
    assert_eq!(er.get_session_id(), 33333);
    assert_eq!(er.get_participant(), 12345);
}

#[test]
fn header_decode() {
    let header_bytes = [1, 0, 2, 0, 20, 0, 0, 0];
    let boxed_target = OepHeader::decode(&header_bytes);
    assert!(boxed_target.is_ok());
    let target = boxed_target.unwrap();

    assert_eq!(target.oep_version, 1);
    assert_eq!(target.msg_type, 2);
    assert_eq!(target.msg_len, 20);
}

#[test]
fn deduce_login() {
    let header_bytes = [1, 0, 4, 0, 20, 0, 0, 0];
    let target = OepHeader::decode(&header_bytes);

    assert!(target.is_ok());
    assert_eq!(target.unwrap().message_type(), MsgType::Login);
}

#[test]
fn hash_password() {
    let mut target = Login::new(0, 0, 0, b"user");
    target.hash_text_to_password("abc");
    assert_eq!(
        target.password,
        [
            221, 175, 53, 161, 147, 97, 122, 186, 204, 65, 115, 73, 174, 32, 65, 49, 18, 230,
            250, 78, 137, 169, 126, 162, 10, 158, 238, 230, 75, 85, 211, 154, 33, 146, 153, 42,
            39, 79, 193, 168, 54, 186, 60, 35, 163, 254, 235, 189, 69, 77, 68, 35, 100, 60,
            232, 14, 42, 154, 201, 79, 165, 76, 164, 159
        ]
    );
}

#[test]
fn test_modify_creation() {
    let modify = Modify {
        participant: 12345,
        order_id: 67890,
        book_id: 11111,
        quantity: 100,
        price: 1000,
        side: 1,
        gateway_id: 5,
        session_id: 33333,
    };

    assert_eq!(modify.participant, 12345);
    assert_eq!(modify.order_id, 67890);
    assert_eq!(modify.book_id, 11111);
    assert_eq!(modify.quantity, 100);
    assert_eq!(modify.price, 1000);
    assert_eq!(modify.side, 1);
    assert_eq!(modify.gateway_id, 5);
    assert_eq!(modify.session_id, 33333);
}

#[test]
fn modify_test_get_side() {
    let modify = Modify {
        participant: 12345,
        order_id: 67890,
        book_id: 11111,
        quantity: 100,
        price: 1000,
        side: 1,
        gateway_id: 5,
        session_id: 33333,
    };

    assert_eq!(modify.get_side(), 1);
}

#[test]
fn modify_test_encode_decode() {
    let original = Modify {
        participant: 12345,
        order_id: 67890,
        book_id: 11111,
        quantity: 100,
        price: 1000,
        side: 1,
        gateway_id: 5,
        session_id: 33333,
    };

    let encoded = original.encode();
    let decoded = Modify::decode(&encoded).unwrap();

    assert_eq!(original.participant, decoded.participant);
    assert_eq!(original.order_id, decoded.order_id);
    assert_eq!(original.book_id, decoded.book_id);
    assert_eq!(original.quantity, decoded.quantity);
    assert_eq!(original.price, decoded.price);
    assert_eq!(original.side, decoded.side);
    assert_eq!(original.gateway_id, decoded.gateway_id);
    assert_eq!(original.session_id, decoded.session_id);
}

#[test]
fn modify_test_oep_message_trait() {
    let modify = Modify {
        participant: 12345,
        order_id: 67890,
        book_id: 11111,
        quantity: 100,
        price: 1000,
        side: 1,
        gateway_id: 5,
        session_id: 33333,
    };

    assert_eq!(modify.message_type(), MsgType::Modify);
    assert_eq!(modify.get_gateway_id(), 5);
    assert_eq!(modify.get_session_id(), 33333);
    assert_eq!(modify.get_participant(), 12345);
}

#[test]
fn test_modify_size() {
    let modify = Modify {
        participant: 12345,
        order_id: 67890,
        book_id: 11111,
        quantity: 100,
        price: 1000,
        side: 1,
        gateway_id: 5,
        session_id: 33333,
    };
    assert_eq!(MODIFY_SIZE, modify.encode().len());
}

#[test]
fn neworder_decode() {
    let neworder_bytes = [
        66, 0, 0, 0, 0, 0, 0, 0, 1, 0, 0, 0, 0, 0, 0, 0, 2, 0, 0, 0, 0, 0, 0, 0, 100, 0, 0, 0,
        0, 0, 0, 0, 100, 0, 0, 0, 0, 0, 0, 0, 66, 0, 1, 55, 66, 0, 0, 0,
    ];
    let boxed_target = NewOrder::decode(&neworder_bytes);
    assert!(boxed_target.is_ok());
    let target = boxed_target.unwrap();

    assert_eq!(target.client_order_id, 66);
    assert_eq!(target.participant, 1);
    assert_eq!(target.book_id, 2);
    assert_eq!(target.quantity, 100);
    assert_eq!(target.side, 1);
    assert_eq!(target.order_type, 66);
    assert_eq!(target.gateway_id, 55);
    assert_eq!(target.session_id, 66);
}

#[test]
fn neworder_test_encode_decode() {
    let new_order = NewOrder {
        client_order_id: 66,
        participant: 1,
        book_id: 2,
        quantity: 100,
        price: 1000,
        order_type: 66,
        side: 1,
        gateway_id: 55,
        session_id: 66,
    };

    let encoded = new_order.encode();

    let expected = [
        66, 0, 0, 0, 0, 0, 0, 0, // client_order_id
        1, 0, 0, 0, 0, 0, 0, 0, // participant
        2, 0, 0, 0, 0, 0, 0, 0, // book_id
        100, 0, 0, 0, 0, 0, 0, 0, // quantity
        232, 3, 0, 0, 0, 0, 0, 0, // price (1000)
        66, 0, // order_type
        1, // side
        55, // gateway_id
        66, 0, 0, 0, // session_id
    ];

    assert_eq!(encoded, expected.to_vec());

    // Test that decoding the encoded data gives back the original struct
    let decoded = NewOrder::decode(&encoded).unwrap();
    assert_eq!(decoded.client_order_id, new_order.client_order_id);
    assert_eq!(decoded.participant, new_order.participant);
    assert_eq!(decoded.book_id, new_order.book_id);
    assert_eq!(decoded.quantity, new_order.quantity);
    assert_eq!(decoded.price, new_order.price);
    assert_eq!(decoded.order_type, new_order.order_type);
    assert_eq!(decoded.side, new_order.side);
    assert_eq!(decoded.gateway_id, new_order.gateway_id);
    assert_eq!(decoded.session_id, new_order.session_id);
}

#[test]
fn test_trade_creation() {
    let trade = Trade {
        bid_order_id: 12345,
        ask_order_id: 67890,
        price: 1000,
        quantity: 100,
    };

    assert_eq!(trade.bid_order_id, 12345);
    assert_eq!(trade.ask_order_id, 67890);
    assert_eq!(trade.price, 1000);
    assert_eq!(trade.quantity, 100);
}

#[test]
fn trade_test_encode_decode() {
    let original = Trade {
        bid_order_id: 12345,
        ask_order_id: 67890,
        price: 1000,
        quantity: 100,
    };

    let encoded = original.encode();
    let decoded = Trade::decode(&encoded).unwrap();

    assert_eq!(original.bid_order_id, decoded.bid_order_id);
    assert_eq!(original.ask_order_id, decoded.ask_order_id);
    assert_eq!(original.price, decoded.price);
    assert_eq!(original.quantity, decoded.quantity);
}

#[test]
fn trade_test_oep_message_trait() {
    let trade = Trade {
        bid_order_id: 12345,
        ask_order_id: 67890,
        price: 1000,
        quantity: 100,
    };

    assert_eq!(trade.message_type(), MsgType::Trade);
}

#[test]
fn test_trade_size() {
    let trade = Trade {
        bid_order_id: 12345,
        ask_order_id: 67890,
        price: 1000,
        quantity: 100,
    };
    assert_eq!(TRADE_SIZE, trade.encode().len());
}

#[test]
fn decode_new_order() {
    let new_order_buffer = [
        1, 0, 0, 0, 20, 0, 0, 0, 50, 0, 0, 0, 0, 0, 0, 0, 1, 0, 0, 0, 0, 0, 0, 0, 2, 0, 0, 0,
        0, 0, 0, 0, 101, 0, 0, 0, 0, 0, 0, 0, 100, 0, 0, 0, 0, 0, 0, 0, 66, 0, 1, 55, 22, 0, 0,
        0,
    ];
    let msg = oep_decode(&new_order_buffer);
    if msg.is_err() {
        println!("Error in decoding: {:?}", msg.as_ref().err().unwrap());
    }
    assert!(msg.is_ok());
    match msg.unwrap() {
        MessageTypes::NewOrder(new_order) => {
            assert_eq!(new_order.client_order_id, 50);
            assert_eq!(new_order.participant, 1);
            assert_eq!(new_order.book_id, 2);
            assert_eq!(new_order.quantity, 101);
            assert_eq!(new_order.price, 100);
            assert_eq!(new_order.side, 1);
            assert_eq!(new_order.order_type, 66);
            assert_eq!(new_order.gateway_id, 55);
            assert_eq!(new_order.session_id, 22);
        }
        _ => panic!("decoded the wrong message type"),
    }
}

#[test]
fn short_header() {
    let new_order_buffer = [1, 0, 0, 0, 20];
    let msg = oep_decode(&new_order_buffer);
    assert!(msg.is_err());
}

#[test]
fn short_message() {
    let new_order_buffer = [1, 0, 0, 0, 20, 0, 0, 0, 1, 0, 0, 0, 0, 0, 0, 0, 2, 0, 0, 0];
    let msg = oep_decode(&new_order_buffer);
    assert!(msg.is_err());
}

#[test]
fn too_short_until_complete() {
    let new_order_buffer = [
        1, 0, 0, 0, 20, 0, 0, 0, 60, 0, 0, 0, 0, 0, 0, 0, 1, 0, 0, 0, 0, 0, 0, 0, 2, 0, 0, 0,
        0, 0, 0, 0, 101, 0, 0, 0, 0, 0, 0, 0, 100, 0, 0, 0, 0, 0, 0, 0, 66, 0, 1, 55, 22, 0, 0,
        0,
    ];
    for i in 0..new_order_buffer.len() {
        let msg = oep_decode(&new_order_buffer[..i]);
        assert!(msg.is_err());
    }
    let msg = oep_decode(&new_order_buffer);
    if msg.is_err() {
        println!("Error in decoding: {:?}", msg.as_ref().err().unwrap());
    }
    assert!(msg.is_ok());
    match msg.unwrap() {
        MessageTypes::NewOrder(new_order) => {
            assert_eq!(new_order.client_order_id, 60);
            assert_eq!(new_order.participant, 1);
            assert_eq!(new_order.book_id, 2);
            assert_eq!(new_order.quantity, 101);
            assert_eq!(new_order.price, 100);
            assert_eq!(new_order.side, 1);
            assert_eq!(new_order.order_type, 66);
            assert_eq!(new_order.gateway_id, 55);
            assert_eq!(new_order.session_id, 22);
        }
        _ => panic!("decoded the wrong message type"),
    }
}
