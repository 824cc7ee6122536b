//! The clearing protocol client: catalog records in, catalog and books
//! kept in step, requests answered.

use exchange_core::clearing::{
    ClearProtocol, GenericClearingProtocol, CLEAR_PROTOCOL_VERSION,
    CLEAR_TYPE_ALL_INSTRUMENTS_REQUEST, CLEAR_TYPE_INSTRUMENT_UPDATE,
};
use exchange_core::instrument::{Instrument, InstrumentState, InstrumentType};
use exchange_core::instrument_list::{GenericInstrumentList, InstrumentList, MockInstrumentList};
use exchange_core::market::{Market, MarketStore};
use exchange_core::mockdisseminator::MockDisseminator;

fn empty_markets() -> MarketStore<MockDisseminator> {
    MarketStore::new(MockDisseminator::new())
}

#[test]
fn instrument_update_no_upcall() {
    let mut markets = empty_markets();
    let mut target = ClearProtocol::new(MockInstrumentList::new());

    let packet = [
        b'C', b'P', CLEAR_PROTOCOL_VERSION, 1, // technical header
        CLEAR_TYPE_INSTRUMENT_UPDATE as u8, 0, 12, 0, // Instrument update, Len: 12
        8, 7, 6, 5, 4, 3, 2, 1, 0, 2, 20, 25,
    ];

    let v = target.process(&packet, &mut markets);
    assert!(v.is_ok());
    assert_eq!(v.unwrap().1, packet.len());
}

#[test]
fn one_instrument_update() {
    let mut markets = empty_markets();
    let mut target = ClearProtocol::new(MockInstrumentList::new());

    let packet = [
        b'C', b'P', CLEAR_PROTOCOL_VERSION, 1, // technical header
        CLEAR_TYPE_INSTRUMENT_UPDATE as u8, 0, 12 + 3, 0, // Instrument update
        8, 7, 6, 5, 4, 3, 2, 1, 0, 2, 20, 25,
        b'A', b'B', b'C',
    ];

    let v = target.process(&packet, &mut markets);

    assert!(v.is_ok());
    assert_eq!(v.unwrap().1, packet.len());

    let i_list = target.clone_instrument_list();
    assert_eq!(1, i_list.len());
    let ins = &i_list[0];
    assert_eq!(ins.get_id(), 0x0102030405060708);
    assert_eq!(ins.get_type(), InstrumentType::Share);
    assert_eq!(ins.get_state(), InstrumentState::Auction);
    assert_eq!(ins.get_percentage_bands(), 20);
    assert_eq!(ins.get_percentage_variation_allowed(), 25);
    assert_eq!(b"ABC".to_vec(), *ins.get_name());
}

#[test]
fn two_instrument_updates() {
    let mut markets = empty_markets();
    let mut target = ClearProtocol::new(MockInstrumentList::new());

    let packet = [
        b'C', b'P', CLEAR_PROTOCOL_VERSION, 2, // technical header
        CLEAR_TYPE_INSTRUMENT_UPDATE as u8, 0, 12, 0, // Instrument update, Len: 12
        8, 7, 6, 5, 4, 3, 2, 1, 0, 2, 20, 25, // first instrument
        CLEAR_TYPE_INSTRUMENT_UPDATE as u8, 0, 12, 0, // Instrument update, Len: 12
        9, 8, 6, 5, 4, 3, 2, 1, 0, 2, 20, 25, // second instrument
    ];

    let v = target.process(&packet, &mut markets);
    assert!(v.is_ok());
    assert_eq!(v.unwrap().1, packet.len());

    let mut i_list = target.clone_instrument_list();
    i_list.sort_by_cached_key(|i| i.get_id());
    assert_eq!(2, i_list.len());

    let ins = &i_list[0];
    assert_eq!(ins.get_id(), 0x0102030405060708);
    assert_eq!(ins.get_type(), InstrumentType::Share);
    assert_eq!(ins.get_state(), InstrumentState::Auction);
    assert_eq!(ins.get_percentage_bands(), 20);
    assert_eq!(ins.get_percentage_variation_allowed(), 25);

    let ins = &i_list[1];
    assert_eq!(ins.get_id(), 0x0102030405060809);
    assert_eq!(ins.get_type(), InstrumentType::Share);
    assert_eq!(ins.get_state(), InstrumentState::Auction);
    assert_eq!(ins.get_percentage_bands(), 20);
    assert_eq!(ins.get_percentage_variation_allowed(), 25);
}

#[test]
fn one_incomplete_instrument_update() {
    let mut markets = empty_markets();
    let mut target = ClearProtocol::new(MockInstrumentList::new());

    let packet = [
        b'C', b'P', CLEAR_PROTOCOL_VERSION, 1, // technical header
        CLEAR_TYPE_INSTRUMENT_UPDATE as u8, 0, 12, 0, // Instrument update, Len: 12
        8, 7, 6, 5, 4, 3, 2, 1, 0, 2,
    ];

    let v = target.process(&packet, &mut markets);
    assert!(v.is_ok());
    assert_eq!(v.unwrap().1, 4);
    assert_eq!(0, target.clone_instrument_list().len());
}

#[test]
fn one_complete_one_incomplete_instrument_update() {
    let mut markets = empty_markets();
    let mut target = ClearProtocol::new(MockInstrumentList::new());

    let packet = [
        b'C', b'P', CLEAR_PROTOCOL_VERSION, 1, // technical header
        CLEAR_TYPE_INSTRUMENT_UPDATE as u8, 0, 12, 0, // Instrument update, Len: 12
        8, 7, 6, 5, 4, 3, 2, 1, 0, 2, 20, 25, // first instrument
        CLEAR_TYPE_INSTRUMENT_UPDATE as u8, 0, 12, 0, // Instrument update, Len: 12
        9, 8, 6, 5, 4, 3, 2, 1, 0, 2, // second incomplete instrument
    ];

    let v = target.process(&packet, &mut markets);
    assert!(v.is_ok());
    assert_eq!(v.unwrap().1, 4 + 4 + 12);

    let i_list = target.clone_instrument_list();
    assert_eq!(1, i_list.len());

    let ins = &i_list[0];
    assert_eq!(ins.get_id(), 0x0102030405060708);
    assert_eq!(ins.get_type(), InstrumentType::Share);
    assert_eq!(ins.get_state(), InstrumentState::Auction);
    assert_eq!(ins.get_percentage_bands(), 20);
    assert_eq!(ins.get_percentage_variation_allowed(), 25);
}

/// Tests that an update received on the wire that changes the state of
/// the instrument also changes what every component holding the catalog
/// and the book observes.
#[test]
fn instrument_update_propagates() {
    let instrument = Instrument::new_fast(0x0102030405060708, InstrumentType::OptionPut);
    assert_eq!(InstrumentState::Closed, instrument.get_state());

    let mut markets = empty_markets();
    let mut target = ClearProtocol::new(InstrumentList::new());
    let instrument_ref = target.instrument_list.add_instrument(instrument);
    markets.insert_market(Market::new(instrument_ref, MockDisseminator::new()));

    let packet = [
        b'C', b'P', CLEAR_PROTOCOL_VERSION, 1, // technical header
        CLEAR_TYPE_INSTRUMENT_UPDATE as u8, 0, 12, 0, // Instrument update, Len: 12
        8, 7, 6, 5, 4, 3, 2, 1, 2, 0, 20, 25, // update the instrument to trading
    ];

    let v = target.process(&packet, &mut markets);

    assert!(v.is_ok());
    assert_eq!(v.unwrap().1, packet.len());

    let updated = target.instrument_list.get(0x0102030405060708).unwrap();
    assert_eq!(InstrumentState::Trading, updated.get_state());
    assert_eq!(InstrumentState::Trading, markets.markets[0].get_state());
}

#[test]
fn request_all_instruments() {
    let instrument1 = Instrument::new_fast(0x0102030405060708, InstrumentType::OptionPut);
    let instrument2 = Instrument::new_fast(0x0502010405060708, InstrumentType::OptionCall);
    assert_eq!(InstrumentState::Closed, instrument1.get_state());
    assert_eq!(InstrumentState::Closed, instrument2.get_state());

    let mut markets = empty_markets();
    let mut target = ClearProtocol::new(InstrumentList::new());
    let _ = target.instrument_list.add_instrument(instrument1);
    let instrument_ref = target.instrument_list.add_instrument(instrument2);
    markets.insert_market(Market::new(instrument_ref, MockDisseminator::new()));

    let packet = [
        b'C', b'P', CLEAR_PROTOCOL_VERSION, 1, // technical header
        CLEAR_TYPE_ALL_INSTRUMENTS_REQUEST as u8, 0, 0, 0, // All instruments request, Len: 0
    ];

    let v = target.process(&packet, &mut markets);

    assert!(v.is_ok());
    assert_eq!(v.as_ref().unwrap().1, packet.len());

    assert_eq!(
        (8 + 12) * target.instrument_list.len(), // 8 header + 12 data
        v.as_ref().unwrap().0.len()
    );
}

#[test]
fn request_all_instruments_but_no_instruments_resuts_in_empty_response() {
    let mut markets = empty_markets();
    let mut target = ClearProtocol::new(InstrumentList::new());

    let packet = [
        b'C', b'P', CLEAR_PROTOCOL_VERSION, 1, // technical header
        CLEAR_TYPE_ALL_INSTRUMENTS_REQUEST as u8, 0, 0, 0, // All instruments request, Len: 0
    ];

    let v = target.process(&packet, &mut markets);

    assert!(v.is_ok());
    assert_eq!(v.as_ref().unwrap().1, packet.len());

    assert_eq!(0, v.as_ref().unwrap().0.len());
}
