//! Instruments and instrument catalogs: identity hashing by id, and the
//! catalog's no-duplicate and walking behaviour.

use exchange_core::instrument::{Instrument, InstrumentType};
use exchange_core::instrument_list::{GenericInstrumentList, InstrumentList};
use std::collections::hash_map::DefaultHasher;
use std::hash::{Hash, Hasher};

/// An instrument's identity is its id alone, so its hash is the hash of
/// its id.
fn calculate_hash(instrument: &Instrument) -> u64 {
    let mut hasher = DefaultHasher::new();
    instrument.get_id().hash(&mut hasher);
    hasher.finish()
}

#[test]
fn same_hash() {
    let i1 = Instrument::new_fast(100, InstrumentType::Share);
    let i2 = Instrument::new_fast(100, InstrumentType::Share);

    assert_eq!(calculate_hash(&i1), calculate_hash(&i2));
}

#[test]
fn diff_instrument_type_same_hash() {
    let i1 = Instrument::new_fast(100, InstrumentType::Share);
    let i2 = Instrument::new_fast(100, InstrumentType::OptionCall);

    assert_eq!(calculate_hash(&i1), calculate_hash(&i2));
}

#[test]
fn diff_hash() {
    let i1 = Instrument::new_fast(100, InstrumentType::Share);
    let i2 = Instrument::new_fast(200, InstrumentType::Share);

    assert_ne!(calculate_hash(&i1), calculate_hash(&i2));
}

#[test]
fn dont_duplicate() {
    let mut target = InstrumentList::new();
    target.add(100, InstrumentType::Share);
    target.add(200, InstrumentType::Share);
    target.add(100, InstrumentType::Share);

    assert_eq!(2, target.len());
    assert!(target.contains(100));
    assert!(target.contains(200));
    assert_eq!(false, target.contains(300));
}

#[test]
fn iterable() {
    let mut target = InstrumentList::new();
    let instruments = vec![
        (100, InstrumentType::Share),
        (200, InstrumentType::OptionCall),
        (300, InstrumentType::Future),
    ];
    for (a, b) in &instruments {
        target.add(*a, *b);
    }

    let mut response: Vec<Instrument> = Vec::new();
    while let Some(i) = target.next() {
        response.push(i);
    }
    response.sort_unstable_by_key(|i| i.get_id());

    assert_eq!(instruments.len(), response.len());
    for (ex, ac) in instruments.iter().zip(response.iter()) {
        assert_eq!(ex.0, ac.get_id());
        assert_eq!(ex.1, ac.get_type());
    }
}

#[test]
fn iterable_twice() {
    let mut target = InstrumentList::new();
    let instruments = vec![
        (100, InstrumentType::Share),
        (200, InstrumentType::OptionCall),
        (300, InstrumentType::Future),
    ];
    for (a, b) in &instruments {
        target.add(*a, *b);
    }

    let mut walker = target.clone();
    let mut response: Vec<Instrument> = Vec::new();
    while let Some(i) = walker.next() {
        response.push(i);
    }
    response.sort_unstable_by_key(|i| i.get_id());
    assert_eq!(instruments.len(), response.len());

    for (ex, ac) in instruments.iter().zip(response.iter()) {
        assert_eq!(ex.0, ac.get_id());
        assert_eq!(ex.1, ac.get_type());
    }

    // Second time
    let mut response: Vec<Instrument> = Vec::new();
    while let Some(i) = target.next() {
        response.push(i);
    }
    response.sort_unstable_by_key(|i| i.get_id());
    assert_eq!(instruments.len(), response.len());

    for (ex, ac) in instruments.iter().zip(response.iter()) {
        assert_eq!(ex.0, ac.get_id());
        assert_eq!(ex.1, ac.get_type());
    }
}
