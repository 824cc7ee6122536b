//! The clearing protocol: the length-prefixed instrument-catalog codec and
//! the client/server entry processing that keeps the catalog and the books
//! in step with it.
//!
//! Every frame starts with the 4-byte technical header `{'C','P',
//! version, entry_count}`, followed by entries of the form `{type:u16,
//! len:u16, payload:[len]}`, little-endian. Partial entries are never
//! consumed; the loop stops as soon as an entry cannot be read whole.

use crate::disseminator::Disseminator;
use crate::instrument::{Instrument, InstrumentModel, InstrumentState, InstrumentType};
use crate::instrument_list::{lemma_find_id_char, lemma_find_id_props, models_of, spec_find_id,
    GenericInstrumentList};
use crate::market::{lemma_find_market_char, lemma_find_market_props, spec_find_market, Market,
    MarketStore};
use vstd::bytes::{spec_u16_from_le_bytes, spec_u64_from_le_bytes, u16_from_le_bytes,
    u64_from_le_bytes};
use vstd::prelude::*;
use vstd::slice::slice_subrange;

verus! {

/// Version of the clearing protocol spoken by this crate.
pub const CLEAR_PROTOCOL_VERSION: u8 = 1;

/// Entry type: a keep-alive, carrying nothing.
pub const CLEAR_TYPE_HEARTBEAT: u16 = 0;

/// Entry type: one instrument's catalog record.
pub const CLEAR_TYPE_INSTRUMENT_UPDATE: u16 = 1;

/// Entry type: a request for one instrument by id.
pub const CLEAR_TYPE_INSTRUMENT_REQUEST: u16 = 2;

/// Entry type: a request for the whole catalog.
pub const CLEAR_TYPE_ALL_INSTRUMENTS_REQUEST: u16 = 3;

/// A fatal clearing-protocol fault: a bad header, a bad version, or an
/// entry of an unknown type. The surrounding connection is torn down.
#[derive(Debug)]
pub struct ProcessError {
    pub error_text: String,
}

impl ProcessError {
    pub fn new(v: &str) -> (r: ProcessError)
        ensures
            r.error_text@ == v@,
    {
        broadcast use vstd::string::to_string_from_display_ensures_for_str;

        ProcessError { error_text: v.to_string() }
    }

    /// What went wrong, in words.
    pub fn text(&self) -> (r: &String)
        ensures
            r@ == self.error_text@,
    {
        &self.error_text
    }
}

/// Which end of the clearing conversation this protocol instance plays:
/// only a client registers instruments and books from updates.
#[derive(Debug, Copy, Clone, PartialEq, Eq, Structural)]
pub enum ProtocolSide {
    Client,
    Server,
}

/// The wire bytes answering a request for one instrument: a whole frame
/// holding a single instrument-update entry. An instrument whose name
/// would overflow the length field yields nothing.
pub open spec fn spec_update_response(m: InstrumentModel) -> Seq<u8> {
    if 12 + m.name.len() > u16::MAX {
        Seq::<u8>::empty()
    } else {
        seq![67u8, 80u8, CLEAR_PROTOCOL_VERSION, 1u8] + vstd::bytes::spec_u16_to_le_bytes(
            CLEAR_TYPE_INSTRUMENT_UPDATE,
        ) + vstd::bytes::spec_u16_to_le_bytes((12 + m.name.len()) as u16) + m.spec_encode()
    }
}

/// What one whole entry at the front of `b` consumes: 0 when the entry is
/// not yet complete (read more and retry), its full size when it is, and
/// nothing (an error) for an unknown type or a malformed update.
pub open spec fn spec_entry_consumed(b: Seq<u8>) -> Option<int>
    recommends
        b.len() >= 4,
{
    let ty = spec_u16_from_le_bytes(b.subrange(0, 2));
    let len = spec_u16_from_le_bytes(b.subrange(2, 4));
    if 4 + len > b.len() {
        Some(0)
    } else if ty == CLEAR_TYPE_HEARTBEAT {
        Some(4)
    } else if ty == CLEAR_TYPE_INSTRUMENT_UPDATE {
        if len >= 12 {
            Some(4 + len)
        } else {
            None
        }
    } else if ty == CLEAR_TYPE_INSTRUMENT_REQUEST {
        if b.len() < 12 {
            Some(0)
        } else {
            Some(12)
        }
    } else if ty == CLEAR_TYPE_ALL_INSTRUMENTS_REQUEST {
        Some(4)
    } else {
        None
    }
}

/// How many bytes a frame's entry loop consumes, starting at `from` with
/// `entries` entries left to read: it stops at the first incomplete entry
/// or when fewer than an entry header's worth of bytes remain, and fails
/// where the entry fails.
pub open spec fn spec_frame_consumed(b: Seq<u8>, from: int, entries: int) -> Option<int>
    decreases entries,
{
    if entries <= 0 || b.len() - from < 4 {
        Some(from)
    } else {
        match spec_entry_consumed(b.skip(from)) {
            None => None,
            Some(n) => if n == 0 {
                Some(from)
            } else {
                spec_frame_consumed(b, from + n, entries - 1)
            },
        }
    }
}

/// The instrument a catalog-record entry carries, given the whole entry
/// bytes (header included) of length `4 + len`.
pub open spec fn spec_entry_instrument(b: Seq<u8>) -> InstrumentModel
    recommends
        b.len() >= 16,
{
    InstrumentModel {
        id: spec_u64_from_le_bytes(b.subrange(4, 12)),
        name: b.skip(16),
        i_type: InstrumentType::from_wire(b[12]),
        state: InstrumentState::from_wire(b[13]),
        percentage_bands: b[14],
        percentage_variation_allowed: b[15],
    }
}

/// The catalog after a catalog-record entry is applied: the record
/// replaces the entry under its id, or is appended.
pub open spec fn spec_catalog_add(cat: Seq<InstrumentModel>, m: InstrumentModel) -> Seq<
    InstrumentModel,
> {
    let k = spec_find_id(cat, m.id);
    if k < cat.len() {
        cat.update(k, m)
    } else {
        cat.push(m)
    }
}

/// The catalog after the whole entry loop of a frame ran over it, on the
/// client side (a server's catalog only changes through its own source).
pub open spec fn spec_frame_catalog(
    b: Seq<u8>,
    from: int,
    entries: int,
    cat: Seq<InstrumentModel>,
    client: bool,
) -> Seq<InstrumentModel>
    decreases entries,
{
    if entries <= 0 || b.len() - from < 4 {
        cat
    } else {
        match spec_entry_consumed(b.skip(from)) {
            None => cat,
            Some(n) => if n == 0 {
                cat
            } else {
                let ty = spec_u16_from_le_bytes(b.skip(from).subrange(0, 2));
                let cat2 = if ty == CLEAR_TYPE_INSTRUMENT_UPDATE && client {
                    spec_catalog_add(cat, spec_entry_instrument(b.skip(from).subrange(0, n)))
                } else {
                    cat
                };
                spec_frame_catalog(b, from + n, entries - 1, cat2, client)
            },
        }
    }
}

/// The concatenated catalog-record responses for every instrument from
/// position `i` on; what answers a whole-catalog request.
pub open spec fn spec_catalog_response_from(cat: Seq<InstrumentModel>, i: int) -> Seq<u8>
    decreases cat.len() - i,
{
    if i < 0 || i >= cat.len() {
        Seq::<u8>::empty()
    } else {
        spec_update_response(cat[i]) + spec_catalog_response_from(cat, i + 1)
    }
}

/// What one whole entry answers with, against the given catalog.
pub open spec fn spec_entry_response(b: Seq<u8>, cat: Seq<InstrumentModel>) -> Seq<u8>
    recommends
        b.len() >= 4,
{
    let ty = spec_u16_from_le_bytes(b.subrange(0, 2));
    if ty == CLEAR_TYPE_INSTRUMENT_REQUEST && b.len() >= 12 {
        let id = spec_u64_from_le_bytes(b.subrange(4, 12));
        let k = spec_find_id(cat, id);
        if k < cat.len() {
            spec_update_response(cat[k])
        } else {
            Seq::<u8>::empty()
        }
    } else if ty == CLEAR_TYPE_ALL_INSTRUMENTS_REQUEST {
        spec_catalog_response_from(cat, 0)
    } else {
        Seq::<u8>::empty()
    }
}

/// The concatenated responses of a frame's entry loop, against the
/// catalog as it evolves entry by entry.
pub open spec fn spec_frame_response(
    b: Seq<u8>,
    from: int,
    entries: int,
    cat: Seq<InstrumentModel>,
    client: bool,
) -> Seq<u8>
    decreases entries,
{
    if entries <= 0 || b.len() - from < 4 {
        Seq::<u8>::empty()
    } else {
        match spec_entry_consumed(b.skip(from)) {
            None => Seq::<u8>::empty(),
            Some(n) => if n == 0 {
                Seq::<u8>::empty()
            } else {
                let ty = spec_u16_from_le_bytes(b.skip(from).subrange(0, 2));
                let entry = b.skip(from).subrange(0, n);
                let resp = spec_entry_response(entry, cat);
                let cat2 = if ty == CLEAR_TYPE_INSTRUMENT_UPDATE && client {
                    spec_catalog_add(cat, spec_entry_instrument(entry))
                } else {
                    cat
                };
                resp + spec_frame_response(b, from + n, entries - 1, cat2, client)
            },
        }
    }
}

/// Whether some book in the store trades this instrument and carries
/// exactly this catalog record.
pub open spec fn book_carries<D: Disseminator + Clone>(
    ms: Seq<Market<D>>,
    m: InstrumentModel,
) -> bool {
    let k = spec_find_market(ms, m.id);
    k < ms.len() && ms[k].instrument@ == m
}

/// The exact effect of one client-side catalog record on the books: the
/// book that trades the id takes the record in place, everything else as
/// it was; if no book trades it, one is created empty at the end.
pub open spec fn spec_store_update<D: Disseminator + Clone>(
    pre: Seq<Market<D>>,
    post: Seq<Market<D>>,
    m: InstrumentModel,
) -> bool {
    let k = spec_find_market(pre, m.id);
    if k < pre.len() {
        &&& post.len() == pre.len()
        &&& (forall|j: int| 0 <= j < pre.len() && j != k ==> post[j] == pre[j])
        &&& post[k].instrument@ == m
        &&& post[k] == (Market { instrument: post[k].instrument, ..pre[k] })
    } else {
        &&& post.len() == pre.len() + 1
        &&& post.subrange(0, pre.len() as int) == pre
        &&& post.last().instrument@ == m
        &&& post.last().bids@.len() == 0
        &&& post.last().asks@.len() == 0
        &&& post.last().order_id == 0
    }
}

/// Books either stay as they are, take an instrument update in place, or
/// are created empty at the end of the store; what clearing-entry
/// processing may do to the matching engine's books.
pub open spec fn markets_evolved<D: Disseminator + Clone>(
    pre: Seq<Market<D>>,
    post: Seq<Market<D>>,
) -> bool {
    &&& post.len() >= pre.len()
    &&& forall|j: int|
        0 <= j < pre.len() ==> post[j] == pre[j] || #[trigger] post[j] == (Market {
            instrument: post[j].instrument,
            ..pre[j]
        })
    &&& forall|j: int|
        pre.len() <= j < post.len() ==> (#[trigger] post[j]).bids@.len() == 0 && post[j].asks@.len()
            == 0 && post[j].order_id == 0
}

/// The implementation of the "Clear" protocol over a generic instrument
/// catalog.
pub struct ClearProtocol<T: GenericInstrumentList> {
    pub instrument_list: T,
    pub protocol_side: ProtocolSide,
}

impl<T: GenericInstrumentList> ClearProtocol<T> {
    /// Starts a protocol instance on the client side, over the given
    /// catalog.
    pub fn new(instrument_list: T) -> (r: ClearProtocol<T>)
        ensures
            r.instrument_list == instrument_list,
            r.protocol_side == ProtocolSide::Client,
    {
        ClearProtocol { instrument_list, protocol_side: ProtocolSide::Client }
    }
}

/// The clearing codec round trip: the frame answering an instrument
/// request holds one whole catalog-record entry, and reading that entry
/// back yields the very instrument that was encoded.
pub proof fn lemma_update_response_round_trip(m: InstrumentModel)
    requires
        12 + m.name.len() <= u16::MAX,
    ensures
        ({
            let frame = spec_update_response(m);
            let entry = frame.skip(4);
            &&& frame.len() == 8 + 12 + m.name.len()
            &&& spec_entry_consumed(entry) == Some(4 + 12 + m.name.len() as int)
            &&& spec_entry_instrument(entry) == m
        }),
{
    vstd::bytes::lemma_auto_spec_u16_to_from_le_bytes();
    vstd::bytes::lemma_auto_spec_u64_to_from_le_bytes();
    let frame = spec_update_response(m);
    let entry = frame.skip(4);
    let len = (12 + m.name.len()) as u16;
    assert(entry.subrange(0, 2) =~= vstd::bytes::spec_u16_to_le_bytes(
        CLEAR_TYPE_INSTRUMENT_UPDATE,
    ));
    assert(entry.subrange(2, 4) =~= vstd::bytes::spec_u16_to_le_bytes(len));
    assert(entry.subrange(4, 12) =~= vstd::bytes::spec_u64_to_le_bytes(m.id));
    assert(entry.skip(16) =~= m.name);
    assert(entry[12] == m.i_type.wire());
    assert(entry[13] == m.state.wire());
    assert(m.i_type == InstrumentType::from_wire(m.i_type.wire()));
    assert(m.state == InstrumentState::from_wire(m.state.wire()));
    assert(spec_entry_instrument(entry) =~= m);
}

/// One processed entry keeps the carried-by-a-book property: every
/// catalog position that differs from the baseline catalog `cat0` is
/// carried by a book, and is its id's first occurrence. A catalog record
/// updates or creates exactly the book of its own id and leaves the rest,
/// so earlier positions stay carried; any other entry touches nothing.
proof fn lemma_entry_keeps_books_carried<D: Disseminator + Clone>(
    cat0: Seq<InstrumentModel>,
    cat_pre: Seq<InstrumentModel>,
    cat_post: Seq<InstrumentModel>,
    ms_pre: Seq<Market<D>>,
    ms_post: Seq<Market<D>>,
    tail: Seq<u8>,
    n: int,
)
    requires
        tail.len() >= 4,
        ({
            let ty = spec_u16_from_le_bytes(tail.subrange(0, 2));
            if ty == CLEAR_TYPE_INSTRUMENT_UPDATE {
                &&& cat_post == spec_catalog_add(
                    cat_pre,
                    spec_entry_instrument(tail.subrange(0, n)),
                )
                &&& spec_store_update(ms_pre, ms_post, spec_entry_instrument(tail.subrange(0, n)))
            } else {
                &&& cat_post == cat_pre
                &&& ms_post == ms_pre
            }
        }),
        forall|ci: int|
            0 <= ci < cat_pre.len() && (ci >= cat0.len() || cat_pre[ci] != cat0[ci])
                ==> #[trigger] book_carries(ms_pre, cat_pre[ci]),
        forall|ci: int|
            0 <= ci < cat_pre.len() && (ci >= cat0.len() || cat_pre[ci] != cat0[ci])
                ==> spec_find_id(cat_pre, (#[trigger] cat_pre[ci]).id) == ci,
    ensures
        forall|ci: int|
            0 <= ci < cat_post.len() && (ci >= cat0.len() || cat_post[ci] != cat0[ci])
                ==> #[trigger] book_carries(ms_post, cat_post[ci]),
        forall|ci: int|
            0 <= ci < cat_post.len() && (ci >= cat0.len() || cat_post[ci] != cat0[ci])
                ==> spec_find_id(cat_post, (#[trigger] cat_post[ci]).id) == ci,
{
    let ty = spec_u16_from_le_bytes(tail.subrange(0, 2));
    if ty != CLEAR_TYPE_INSTRUMENT_UPDATE {
        return ;
    }
    let im = spec_entry_instrument(tail.subrange(0, n));
    lemma_find_id_props(cat_pre, im.id);
    let kc = spec_find_id(cat_pre, im.id);
    let kt: int = if kc < cat_pre.len() {
        kc
    } else {
        cat_pre.len() as int
    };
    assert(cat_post[kt] == im);
    assert(forall|j: int| 0 <= j < cat_post.len() && j != kt ==> #[trigger] cat_post[j]
        == cat_pre[j]);
    // the touched position is its id's first occurrence afterwards
    assert forall|j: int| 0 <= j < kt implies (#[trigger] cat_post[j]).id != im.id by {
        assert(cat_post[j] == cat_pre[j]);
    }
    lemma_find_id_char(cat_post, im.id, kt);
    // the book of the updated id now carries the record
    lemma_find_market_props(ms_pre, im.id);
    let km = spec_find_market(ms_pre, im.id);
    if km < ms_pre.len() {
        assert forall|j: int| 0 <= j < km implies (#[trigger] ms_post[j]).instrument.id
            != im.id by {
            assert(ms_post[j] == ms_pre[j]);
        }
        assert(ms_post[km].instrument.id == im.id);
        lemma_find_market_char(ms_post, im.id, km);
    } else {
        assert forall|j: int| 0 <= j < ms_pre.len() implies (#[trigger] ms_post[j]).instrument.id
            != im.id by {
            assert(ms_post[j] == ms_post.subrange(0, ms_pre.len() as int)[j]);
            assert(ms_post[j] == ms_pre[j]);
        }
        assert(ms_post[ms_pre.len() as int].instrument.id == im.id);
        lemma_find_market_char(ms_post, im.id, ms_pre.len() as int);
    }
    assert(book_carries(ms_post, im));
    // every other changed position keeps its book
    assert forall|ci: int|
        0 <= ci < cat_post.len() && (ci >= cat0.len() || cat_post[ci] != cat0[ci]) && ci
            != kt implies #[trigger] book_carries(ms_post, cat_post[ci]) && spec_find_id(
        cat_post,
        cat_post[ci].id,
    ) == ci by {
        assert(ci < cat_pre.len());
        assert(cat_post[ci] == cat_pre[ci]);
        let v = cat_pre[ci];
        assert(book_carries(ms_pre, v));
        assert(spec_find_id(cat_pre, v.id) == ci);
        lemma_find_id_props(cat_pre, v.id);
        // the changed position cannot share the updated id: first
        // occurrences are unique
        assert(v.id != im.id) by {
            if v.id == im.id {
                assert(kc == ci);
            }
        }
        // its id's first occurrence is unmoved
        assert forall|j: int| 0 <= j < ci implies (#[trigger] cat_post[j]).id != v.id by {
            if j == kt {
                assert(cat_post[j].id == im.id);
            } else {
                assert(cat_post[j] == cat_pre[j]);
            }
        }
        lemma_find_id_char(cat_post, v.id, ci);
        // and so is its book
        lemma_find_market_props(ms_pre, v.id);
        let kb = spec_find_market(ms_pre, v.id);
        assert(kb < ms_pre.len());
        assert(ms_pre[kb].instrument@ == v);
        if km < ms_pre.len() {
            assert(kb != km);
            assert(ms_post[kb] == ms_pre[kb]);
            assert forall|j: int| 0 <= j < kb implies (#[trigger] ms_post[j]).instrument.id
                != v.id by {
                if j == km {
                    assert(ms_post[j].instrument@ == im);
                } else {
                    assert(ms_post[j] == ms_pre[j]);
                }
            }
            lemma_find_market_char(ms_post, v.id, kb);
        } else {
            assert(ms_post[kb] == ms_post.subrange(0, ms_pre.len() as int)[kb]);
            assert(ms_post[kb] == ms_pre[kb]);
            assert forall|j: int| 0 <= j < kb implies (#[trigger] ms_post[j]).instrument.id
                != v.id by {
                assert(ms_post[j] == ms_post.subrange(0, ms_pre.len() as int)[j]);
                assert(ms_post[j] == ms_pre[j]);
            }
            lemma_find_market_char(ms_post, v.id, kb);
        }
        assert(book_carries(ms_post, v));
    }
    assert forall|ci: int|
        0 <= ci < cat_post.len() && (ci >= cat0.len() || cat_post[ci] != cat0[ci])
        implies #[trigger] book_carries(ms_post, cat_post[ci]) by {
        if ci == kt {
            assert(cat_post[ci] == im);
        }
    }
    assert forall|ci: int|
        0 <= ci < cat_post.len() && (ci >= cat0.len() || cat_post[ci] != cat0[ci])
        implies spec_find_id(cat_post, (#[trigger] cat_post[ci]).id) == ci by {
        if ci == kt {
            assert(cat_post[ci] == im);
        } else {
            assert(book_carries(ms_post, cat_post[ci]));
        }
    }
}

/// The interface of a clearing protocol: frame processing against a
/// catalog and the matching engine's books, and the canned messages
/// either side sends.
pub trait GenericClearingProtocol: Sized {
    /// The catalog this protocol instance maintains.
    spec fn catalog(&self) -> Seq<InstrumentModel>;

    /// Which end of the conversation this instance plays.
    spec fn side(&self) -> ProtocolSide;

    /// Takes a buffer of bytes, checks the technical header, processes
    /// whole data entries against the catalog and the books, and returns
    /// the response bytes and how many bytes were consumed. A partial
    /// entry is never consumed: it stays for the next call, once more
    /// bytes have arrived.
    fn process<D: Disseminator + Clone>(&mut self, buffer: &[u8], markets: &mut MarketStore<D>)
        -> (r: Result<(Vec<u8>, usize), ProcessError>)
        requires
            forall|j: int|
                0 <= j < old(markets).markets@.len() ==> (#[trigger] old(markets).markets@[j]).wf(),
        ensures
            forall|j: int|
                0 <= j < final(markets).markets@.len() ==> (#[trigger] final(markets).markets@[j]).wf(),
            markets_evolved(old(markets).markets@, final(markets).markets@),
            final(self).side() == old(self).side(),
            buffer@.len() < 8 ==> (match r {
                Ok(v) => v.0@.len() == 0 && v.1 == 0 && *final(self) == *old(self) && *final(markets) == *old(markets),
                Err(_) => false,
            }),
            buffer@.len() >= 8 && !(buffer@[0] == 67 && buffer@[1] == 80) ==> r is Err && *final(self) == *old(self) && *final(markets) == *old(markets),
            buffer@.len() >= 8 && buffer@[0] == 67 && buffer@[1] == 80 && buffer@[2]
                != CLEAR_PROTOCOL_VERSION ==> r is Err && *final(self) == *old(self) && *final(markets) == *old(markets),
            (buffer@.len() >= 8 && buffer@[0] == 67 && buffer@[1] == 80 && buffer@[2]
                == CLEAR_PROTOCOL_VERSION) ==> (match spec_frame_consumed(
                buffer@,
                4,
                buffer@[3] as int,
            ) {
                None => r is Err,
                Some(c) => (match r {
                    Ok(v) => {
                        &&& v.1 == c
                        &&& v.0@ == spec_frame_response(
                            buffer@,
                            4,
                            buffer@[3] as int,
                            old(self).catalog(),
                            old(self).side() == ProtocolSide::Client,
                        )
                        &&& final(self).catalog() == spec_frame_catalog(
                            buffer@,
                            4,
                            buffer@[3] as int,
                            old(self).catalog(),
                            old(self).side() == ProtocolSide::Client,
                        )
                        &&& (old(self).side() == ProtocolSide::Client ==> forall|ci: int|
                            0 <= ci < final(self).catalog().len() && (ci >= old(
                                self,
                            ).catalog().len() || final(self).catalog()[ci] != old(
                                self,
                            ).catalog()[ci]) ==> #[trigger] book_carries(
                                final(markets).markets@,
                                final(self).catalog()[ci],
                            ))
                    },
                    Err(_) => false,
                }),
            }),
    ;

    /// A copy of every instrument in the catalog, in catalog order.
    fn clone_instrument_list(&self) -> (r: Vec<Instrument>)
        ensures
            models_of(r@) == self.catalog(),
    ;

    /// Registers an instrument in the catalog.
    fn add_instrument(&mut self, i: Instrument)
        ensures
            final(self).catalog() == spec_catalog_add(old(self).catalog(), i@),
            final(self).side() == old(self).side(),
    ;

    /// A frame holding a single heartbeat entry.
    fn prepare_heartbeat(&self) -> (r: Vec<u8>)
        ensures
            r@ == seq![67u8, 80u8, CLEAR_PROTOCOL_VERSION, 1u8, 0u8, 0u8, 0u8, 0u8],
    ;

    /// A frame holding a single whole-catalog request.
    fn prepare_all_instrument_request(&self) -> (r: Vec<u8>)
        ensures
            r@ == seq![67u8, 80u8, CLEAR_PROTOCOL_VERSION, 1u8, 3u8, 0u8, 0u8, 0u8],
    ;

    /// A frame holding this instrument's catalog record; the clearing
    /// encoding is fixed to the feed encoding.
    fn prepare_instrument_update_response(&self, instrument: &Instrument) -> (r: Vec<u8>)
        ensures
            r@ == spec_update_response(instrument@),
    ;

    fn set_protocol_side(&mut self, side: ProtocolSide)
        ensures
            final(self).side() == side,
            final(self).catalog() == old(self).catalog(),
    ;
}

impl<T: GenericInstrumentList> ClearProtocol<T> {
    /// The frame bytes holding one instrument's catalog record.
    fn build_update_response(instrument: &Instrument) -> (r: Vec<u8>)
        ensures
            r@ == spec_update_response(instrument@),
    {
        let name_len = instrument.get_name().len();
        if name_len > (u16::MAX as usize) - 12 {
            return Vec::new();
        }
        let length: u16 = (12 + name_len) as u16;
        let mut r: Vec<u8> = Vec::new();
        r.push(67);
        r.push(80);
        r.push(CLEAR_PROTOCOL_VERSION);
        r.push(1);
        let mut tb = vstd::bytes::u16_to_le_bytes(CLEAR_TYPE_INSTRUMENT_UPDATE);
        r.append(&mut tb);
        let mut lb = vstd::bytes::u16_to_le_bytes(length);
        r.append(&mut lb);
        let mut enc = instrument.encode();
        r.append(&mut enc);
        proof {
            vstd::bytes::lemma_auto_spec_u16_to_from_le_bytes();
            assert(r@ =~= spec_update_response(instrument@));
        }
        r
    }

    /// The concatenated catalog records of every instrument, answering a
    /// whole-catalog request.
    fn build_catalog_response(&self) -> (r: Vec<u8>)
        ensures
            r@ == spec_catalog_response_from(self.instrument_list.models(), 0),
    {
        let ghost cat = self.instrument_list.models();
        let mut r: Vec<u8> = Vec::new();
        let mut i: usize = 0;
        let n = self.instrument_list.len();
        while i < n
            invariant
                i <= n,
                n == cat.len(),
                cat == self.instrument_list.models(),
                r@ + spec_catalog_response_from(cat, i as int) == spec_catalog_response_from(
                    cat,
                    0,
                ),
            decreases n - i,
        {
            let instrument = self.instrument_list.at(i);
            let mut one = Self::build_update_response(&instrument);
            let ghost r0 = r@;
            r.append(&mut one);
            proof {
                assert(r@ + spec_catalog_response_from(cat, i + 1) =~= r0 + (spec_update_response(
                    cat[i as int],
                ) + spec_catalog_response_from(cat, i + 1)));
            }
            i += 1;
        }
        r
    }

    /// Processes one data entry at the front of `buffer`: a heartbeat or
    /// a request consumes its fixed size, a catalog record consumes its
    /// header and payload and (on the client side) lands in the catalog
    /// and reaches the book that trades it — or creates that book. An
    /// incomplete entry consumes nothing.
    fn process_one_data_entry<D: Disseminator + Clone>(
        &mut self,
        buffer: &[u8],
        markets: &mut MarketStore<D>,
    ) -> (r: Result<(Vec<u8>, usize), ProcessError>)
        requires
            buffer@.len() >= 4,
            forall|j: int|
                0 <= j < old(markets).markets@.len() ==> (#[trigger] old(markets).markets@[j]).wf(),
        ensures
            forall|j: int|
                0 <= j < final(markets).markets@.len() ==> (#[trigger] final(markets).markets@[j]).wf(),
            markets_evolved(old(markets).markets@, final(markets).markets@),
            final(self).protocol_side == old(self).protocol_side,
            (match spec_entry_consumed(buffer@) {
                None => r is Err && *final(self) == *old(self) && *final(markets) == *old(markets),
                Some(n) => (match r {
                    Ok(v) => v.1 == n && if n == 0 {
                        v.0@.len() == 0 && *final(self) == *old(self) && *final(markets) == *old(markets)
                    } else {
                        let entry = buffer@.subrange(0, n);
                        let ty = spec_u16_from_le_bytes(buffer@.subrange(0, 2));
                        &&& v.0@ == spec_entry_response(entry, old(self).instrument_list.models())
                        &&& final(self).instrument_list.models() == (if ty
                            == CLEAR_TYPE_INSTRUMENT_UPDATE && old(self).protocol_side
                            == ProtocolSide::Client {
                            spec_catalog_add(
                                old(self).instrument_list.models(),
                                spec_entry_instrument(entry),
                            )
                        } else {
                            old(self).instrument_list.models()
                        })
                        &&& (if ty == CLEAR_TYPE_INSTRUMENT_UPDATE && old(self).protocol_side
                            == ProtocolSide::Client {
                            spec_store_update(
                                old(markets).markets@,
                                final(markets).markets@,
                                spec_entry_instrument(entry),
                            )
                        } else {
                            *final(markets) == *old(markets)
                        })
                    },
                    Err(_) => false,
                }),
            }),
    {
        let ghost pre_markets = *old(markets);
        let data_type = u16_from_le_bytes(slice_subrange(buffer, 0, 2));
        let data_len = u16_from_le_bytes(slice_subrange(buffer, 2, 4));
        if 4 + (data_len as usize) > buffer.len() {
            return Ok((Vec::new(), 0));
        }
        if data_type == CLEAR_TYPE_HEARTBEAT {
            proof {
                assert(buffer@.subrange(0, 4).subrange(0, 2) =~= buffer@.subrange(0, 2));
                assert(spec_entry_response(buffer@.subrange(0, 4), self.instrument_list.models())
                    =~= Seq::<u8>::empty());
            }
            return Ok((Vec::new(), 4));
        }
        if data_type == CLEAR_TYPE_INSTRUMENT_UPDATE {
            if data_len < 12 {
                return Err(ProcessError::new("Invalid instrument update"));
            }
            let consumed: usize = 4 + data_len as usize;
            let ghost entry = buffer@.subrange(0, consumed as int);
            if self.protocol_side == ProtocolSide::Client {
                let instrument_id = u64_from_le_bytes(slice_subrange(buffer, 4, 12));
                let instrument_type = InstrumentType::from(buffer[12]);
                let instrument_state = InstrumentState::from(buffer[13]);
                let percentage_bands = buffer[14];
                let percentage_variation_allowed = buffer[15];
                let name = slice_subrange(buffer, 16, consumed);
                let instrument = Instrument::new(
                    instrument_id,
                    name,
                    instrument_type,
                    instrument_state,
                    percentage_bands,
                    percentage_variation_allowed,
                );
                proof {
                    assert(entry.subrange(4, 12) =~= buffer@.subrange(4, 12));
                    assert(entry.skip(16) =~= buffer@.subrange(16, consumed as int));
                    assert(instrument@ == spec_entry_instrument(entry));
                }
                let inserted = self.instrument_list.add_instrument(instrument);
                if markets.contains_market(instrument_id) {
                    markets.apply_instrument_update(&inserted);
                } else {
                    markets.create_market(inserted);
                    proof {
                        assert(markets.markets@.subrange(0, pre_markets.markets@.len() as int)
                            =~= pre_markets.markets@);
                        assert(forall|j: int|
                            0 <= j < pre_markets.markets@.len() ==> #[trigger] markets.markets@[j]
                                == pre_markets.markets@[j]);
                    }
                }
            }
            proof {
                assert(entry.subrange(0, 2) =~= buffer@.subrange(0, 2));
                assert(spec_entry_response(entry, old(self).instrument_list.models()) =~= Seq::<
                    u8,
                >::empty());
            }
            return Ok((Vec::new(), consumed));
        }
        if data_type == CLEAR_TYPE_INSTRUMENT_REQUEST {
            if buffer.len() < 12 {
                return Ok((Vec::new(), 0));
            }
            let instrument_id = u64_from_le_bytes(slice_subrange(buffer, 4, 12));
            proof {
                assert(buffer@.subrange(0, 12).subrange(0, 2) =~= buffer@.subrange(0, 2));
                assert(buffer@.subrange(0, 12).subrange(4, 12) =~= buffer@.subrange(4, 12));
            }
            match self.instrument_list.get(instrument_id) {
                Some(instrument) => {
                    let response = Self::build_update_response(&instrument);
                    Ok((response, 12))
                },
                None => Ok((Vec::new(), 12)),
            }
        } else if data_type == CLEAR_TYPE_ALL_INSTRUMENTS_REQUEST {
            let response = self.build_catalog_response();
            proof {
                assert(buffer@.subrange(0, 4).subrange(0, 2) =~= buffer@.subrange(0, 2));
            }
            Ok((response, 4))
        } else {
            Err(ProcessError::new("Invalid type"))
        }
    }
}

impl<T: GenericInstrumentList> GenericClearingProtocol for ClearProtocol<T> {
    open spec fn catalog(&self) -> Seq<InstrumentModel> {
        self.instrument_list.models()
    }

    open spec fn side(&self) -> ProtocolSide {
        self.protocol_side
    }

    fn process<D: Disseminator + Clone>(&mut self, buffer: &[u8], markets: &mut MarketStore<D>)
        -> (r: Result<(Vec<u8>, usize), ProcessError>) {
        let ghost cat0 = self.instrument_list.models();
        let ghost client = self.protocol_side == ProtocolSide::Client;
        if buffer.len() < 8 {
            return Ok((Vec::new(), 0));
        }
        if !(buffer[0] == 67 && buffer[1] == 80) {
            return Err(ProcessError::new("Invalid header"));
        }
        if buffer[2] != CLEAR_PROTOCOL_VERSION {
            return Err(ProcessError::new("Invalid protocol version"));
        }
        let entries0: u8 = buffer[3];
        let mut entries: u8 = entries0;
        let mut processed: usize = 4;
        let mut response: Vec<u8> = Vec::new();
        while buffer.len() - processed >= 4 && entries > 0
            invariant_except_break
                4 <= processed <= buffer@.len(),
                entries <= entries0,
                cat0 == old(self).instrument_list.models(),
                client == (old(self).protocol_side == ProtocolSide::Client),
                self.protocol_side == old(self).protocol_side,
                buffer@.len() >= 8,
                buffer@[0] == 67 && buffer@[1] == 80 && buffer@[2] == CLEAR_PROTOCOL_VERSION,
                entries0 == buffer@[3],
                spec_frame_consumed(buffer@, 4, entries0 as int) == spec_frame_consumed(
                    buffer@,
                    processed as int,
                    entries as int,
                ),
                spec_frame_catalog(buffer@, 4, entries0 as int, cat0, client)
                    == spec_frame_catalog(
                    buffer@,
                    processed as int,
                    entries as int,
                    self.instrument_list.models(),
                    client,
                ),
                response@ + spec_frame_response(
                    buffer@,
                    processed as int,
                    entries as int,
                    self.instrument_list.models(),
                    client,
                ) == spec_frame_response(buffer@, 4, entries0 as int, cat0, client),
                forall|j: int|
                    0 <= j < markets.markets@.len() ==> (#[trigger] markets.markets@[j]).wf(),
                markets_evolved(old(markets).markets@, markets.markets@),
                client ==> forall|ci: int|
                    0 <= ci < self.instrument_list.models().len() && (ci >= cat0.len()
                        || self.instrument_list.models()[ci] != cat0[ci])
                        ==> #[trigger] book_carries(
                        markets.markets@,
                        self.instrument_list.models()[ci],
                    ),
                client ==> forall|ci: int|
                    0 <= ci < self.instrument_list.models().len() && (ci >= cat0.len()
                        || self.instrument_list.models()[ci] != cat0[ci]) ==> spec_find_id(
                        self.instrument_list.models(),
                        (#[trigger] self.instrument_list.models()[ci]).id,
                    ) == ci,
            ensures
                self.protocol_side == old(self).protocol_side,
                spec_frame_consumed(buffer@, 4, entries0 as int) == Some(processed as int),
                response@ == spec_frame_response(buffer@, 4, entries0 as int, cat0, client),
                self.instrument_list.models() == spec_frame_catalog(
                    buffer@,
                    4,
                    entries0 as int,
                    cat0,
                    client,
                ),
                forall|j: int|
                    0 <= j < markets.markets@.len() ==> (#[trigger] markets.markets@[j]).wf(),
                markets_evolved(old(markets).markets@, markets.markets@),
                client ==> forall|ci: int|
                    0 <= ci < self.instrument_list.models().len() && (ci >= cat0.len()
                        || self.instrument_list.models()[ci] != cat0[ci])
                        ==> #[trigger] book_carries(
                        markets.markets@,
                        self.instrument_list.models()[ci],
                    ),
            decreases entries,
        {
            let ghost cat_iter = self.instrument_list.models();
            let ghost markets_iter = markets.markets@;
            let ghost processed_iter = processed;
            let ghost entries_iter = entries;
            let entry_buf = slice_subrange(buffer, processed, buffer.len());
            proof {
                assert(entry_buf@ =~= buffer@.skip(processed as int));
            }
            let step = self.process_one_data_entry(entry_buf, markets);
            match step {
                Err(e) => {
                    proof {
                        assert(spec_frame_consumed(
                            buffer@,
                            processed_iter as int,
                            entries_iter as int,
                        ) is None);
                    }
                    return Err(e);
                },
                Ok((mut one_response, pbytes)) => {
                    entries = entries - 1;
                    if pbytes == 0 {
                        break;
                    }
                    processed = processed + pbytes;
                    let ghost resp0 = response@;
                    let ghost one0 = one_response@;
                    response.append(&mut one_response);
                    proof {
                        let b = buffer@;
                        let tail = b.skip(processed_iter as int);
                        assert(tail.subrange(0, pbytes as int) =~= b.subrange(
                            processed_iter as int,
                            processed as int,
                        ));
                        assert(response@ =~= resp0 + one0);
                        assert(spec_frame_consumed(b, processed_iter as int, entries_iter as int)
                            == spec_frame_consumed(b, processed as int, entries as int));
                        assert(spec_frame_catalog(
                            b,
                            processed_iter as int,
                            entries_iter as int,
                            cat_iter,
                            client,
                        ) == spec_frame_catalog(
                            b,
                            processed as int,
                            entries as int,
                            self.instrument_list.models(),
                            client,
                        ));
                        assert(spec_frame_response(
                            b,
                            processed_iter as int,
                            entries_iter as int,
                            cat_iter,
                            client,
                        ) =~= one0 + spec_frame_response(
                            b,
                            processed as int,
                            entries as int,
                            self.instrument_list.models(),
                            client,
                        ));
                        assert(response@ + spec_frame_response(
                            b,
                            processed as int,
                            entries as int,
                            self.instrument_list.models(),
                            client,
                        ) =~= spec_frame_response(b, 4, entries0 as int, cat0, client));
                        if client {
                            lemma_entry_keeps_books_carried(
                                cat0,
                                cat_iter,
                                self.instrument_list.models(),
                                markets_iter,
                                markets.markets@,
                                tail,
                                pbytes as int,
                            );
                        }
                    }
                },
            }
        }
        Ok((response, processed))
    }

    fn clone_instrument_list(&self) -> (r: Vec<Instrument>) {
        let ghost cat = self.instrument_list.models();
        let mut r: Vec<Instrument> = Vec::new();
        let mut i: usize = 0;
        let n = self.instrument_list.len();
        while i < n
            invariant
                i <= n,
                n == cat.len(),
                cat == self.instrument_list.models(),
                r@.len() == i,
                models_of(r@) == cat.subrange(0, i as int),
            decreases n - i,
        {
            let instrument = self.instrument_list.at(i);
            let ghost r0 = r@;
            let ghost m = instrument@;
            r.push(instrument);
            proof {
                assert(r@ =~= r0.push(r@[i as int]));
                assert(r@[i as int]@ == m);
                assert forall|j: int| 0 <= j <= i implies models_of(r@)[j] == cat.subrange(
                    0,
                    i + 1,
                )[j] by {
                    if j < i {
                        assert(r@[j] == r0[j]);
                        assert(models_of(r0)[j] == cat[j]);
                    }
                }
                assert(models_of(r@) =~= cat.subrange(0, i + 1));
            }
            i += 1;
        }
        proof {
            assert(cat.subrange(0, cat.len() as int) =~= cat);
        }
        r
    }

    fn add_instrument(&mut self, i: Instrument) {
        let _ = self.instrument_list.add_instrument(i);
    }

    fn prepare_heartbeat(&self) -> (r: Vec<u8>) {
        let mut r: Vec<u8> = Vec::new();
        r.push(67);
        r.push(80);
        r.push(CLEAR_PROTOCOL_VERSION);
        r.push(1);
        r.push(0);
        r.push(0);
        r.push(0);
        r.push(0);
        proof {
            assert(r@ =~= seq![67u8, 80u8, CLEAR_PROTOCOL_VERSION, 1u8, 0u8, 0u8, 0u8, 0u8]);
        }
        r
    }

    fn prepare_all_instrument_request(&self) -> (r: Vec<u8>) {
        let mut r: Vec<u8> = Vec::new();
        r.push(67);
        r.push(80);
        r.push(CLEAR_PROTOCOL_VERSION);
        r.push(1);
        r.push(3);
        r.push(0);
        r.push(0);
        r.push(0);
        proof {
            assert(r@ =~= seq![67u8, 80u8, CLEAR_PROTOCOL_VERSION, 1u8, 3u8, 0u8, 0u8, 0u8]);
        }
        r
    }

    fn prepare_instrument_update_response(&self, instrument: &Instrument) -> (r: Vec<u8>) {
        Self::build_update_response(instrument)
    }

    fn set_protocol_side(&mut self, side: ProtocolSide) {
        self.protocol_side = side;
    }
}

/// What a frame's entry loop consumes stays within the buffer and never
/// moves backwards.
pub proof fn lemma_frame_consumed_bounds(b: Seq<u8>, from: int, entries: int)
    requires
        0 <= from <= b.len(),
    ensures
        (match spec_frame_consumed(b, from, entries) {
            Some(c) => from <= c <= b.len(),
            None => true,
        }),
    decreases entries,
{
    if entries <= 0 || b.len() - from < 4 {
    } else {
        match spec_entry_consumed(b.skip(from)) {
            None => {},
            Some(n) => {
                if n != 0 {
                    lemma_frame_consumed_bounds(b, from + n, entries - 1);
                }
            },
        }
    }
}

/// Drives a protocol over a receive buffer that may hold several frames:
/// frames are processed one after the other until a call consumes
/// nothing, and the responses are collected for the caller to send. The
/// consumed prefix is what the caller drains from its buffer.
/// The bytes of a run of responses, one after the other.
pub open spec fn flat_bytes(s: Seq<Vec<u8>>) -> Seq<u8> {
    s.map_values(|v: Vec<u8>| v@).flatten()
}

/// No responses, no bytes.
proof fn lemma_flat_bytes_empty()
    ensures
        flat_bytes(Seq::<Vec<u8>>::empty()) == Seq::<u8>::empty(),
{
    assert(Seq::<Vec<u8>>::empty().map_values(|v: Vec<u8>| v@) =~= Seq::<Seq<u8>>::empty());
    assert(Seq::<Seq<u8>>::empty().flatten() =~= Seq::<u8>::empty());
}

/// Appending one response appends its bytes.
proof fn lemma_flat_bytes_push(s: Seq<Vec<u8>>, v: Vec<u8>)
    ensures
        flat_bytes(s.push(v)) == flat_bytes(s) + v@,
{
    assert(s.push(v).map_values(|x: Vec<u8>| x@) =~= s.map_values(|x: Vec<u8>| x@).push(v@));
    s.map_values(|x: Vec<u8>| x@).lemma_flatten_push(v@);
}

/// What a receive buffer holding zero or more whole frames works out to:
/// the consumed prefix (everything up to the first split frame), the
/// response bytes of every processed frame, and the catalog after them —
/// or nothing, where a frame is malformed.
pub open spec fn spec_stream(
    b: Seq<u8>,
    from: int,
    cat: Seq<InstrumentModel>,
    client: bool,
) -> Option<(int, Seq<u8>, Seq<InstrumentModel>)>
    decreases b.len() - from,
{
    if from < 0 || b.len() - from < 8 {
        Some((from, Seq::<u8>::empty(), cat))
    } else {
        let t = b.skip(from);
        if !(t[0] == 67 && t[1] == 80) {
            None
        } else if t[2] != CLEAR_PROTOCOL_VERSION {
            None
        } else {
            match spec_frame_consumed(t, 4, t[3] as int) {
                None => None,
                Some(c) => if c < 4 || c > t.len() {
                    None
                } else {
                    let resp = spec_frame_response(t, 4, t[3] as int, cat, client);
                    let cat2 = spec_frame_catalog(t, 4, t[3] as int, cat, client);
                    match spec_stream(b, from + c, cat2, client) {
                        None => None,
                        Some(rest) => Some((rest.0, resp + rest.1, rest.2)),
                    }
                },
            }
        }
    }
}


pub fn process_frames<D: Disseminator + Clone, P: GenericClearingProtocol>(
    protocol: &mut P,
    buffer: &[u8],
    markets: &mut MarketStore<D>,
) -> (r: Result<(Vec<Vec<u8>>, usize), ProcessError>)
    requires
        forall|j: int|
            0 <= j < old(markets).markets@.len() ==> (#[trigger] old(markets).markets@[j]).wf(),
    ensures
        forall|j: int|
            0 <= j < final(markets).markets@.len() ==> (#[trigger] final(markets).markets@[j]).wf(),
        markets_evolved(old(markets).markets@, final(markets).markets@),
        final(protocol).side() == old(protocol).side(),
        (match spec_stream(
            buffer@,
            0,
            old(protocol).catalog(),
            old(protocol).side() == ProtocolSide::Client,
        ) {
            None => r is Err,
            Some(s) => (match r {
                Ok(v) => v.1 == s.0 && v.1 <= buffer@.len() && flat_bytes(v.0@) == s.1
                    && final(protocol).catalog() == s.2,
                Err(_) => false,
            }),
        }),
{
    let ghost cat0 = protocol.catalog();
    let ghost client = protocol.side() == ProtocolSide::Client;
    let mut total: usize = 0;
    let mut responses: Vec<Vec<u8>> = Vec::new();
    proof {
        lemma_flat_bytes_empty();
        assert(flat_bytes(responses@) + Seq::<u8>::empty() =~= Seq::<u8>::empty());
    }
    loop
        invariant
            total <= buffer@.len(),
            forall|j: int|
                0 <= j < markets.markets@.len() ==> (#[trigger] markets.markets@[j]).wf(),
            markets_evolved(old(markets).markets@, markets.markets@),
            protocol.side() == old(protocol).side(),
            cat0 == old(protocol).catalog(),
            client == (old(protocol).side() == ProtocolSide::Client),
            spec_stream(buffer@, 0, cat0, client) == (match spec_stream(
                buffer@,
                total as int,
                protocol.catalog(),
                client,
            ) {
                None => None::<(int, Seq<u8>, Seq<InstrumentModel>)>,
                Some(rest) => Some((rest.0, flat_bytes(responses@) + rest.1, rest.2)),
            }),
        decreases buffer@.len() - total,
    {
        let ghost total_iter = total as int;
        let ghost cat_iter = protocol.catalog();
        let rest = slice_subrange(buffer, total, buffer.len());
        proof {
            assert(rest@ =~= buffer@.skip(total as int));
        }
        let step = protocol.process(rest, markets);
        match step {
            Err(e) => {
                proof {
                    assert(spec_stream(buffer@, total_iter, cat_iter, client) is None);
                }
                return Err(e);
            },
            Ok((one_response, bytes)) => {
                let ghost one0 = one_response@;
                proof {
                    if rest@.len() >= 8 && rest@[0] == 67 && rest@[1] == 80 && rest@[2]
                        == CLEAR_PROTOCOL_VERSION {
                        lemma_frame_consumed_bounds(rest@, 4, rest@[3] as int);
                    }
                }
                let ghost flat_old = flat_bytes(responses@);
                if one_response.len() > 0 {
                    proof {
                        lemma_flat_bytes_push(responses@, one_response);
                    }
                    responses.push(one_response);
                }
                proof {
                    assert(flat_bytes(responses@) =~= flat_old + one0);
                }
                if bytes == 0 {
                    // too few bytes for another frame header: the stream
                    // stops here with the remainder unconsumed
                    proof {
                        assert(rest@.len() < 8);
                        assert(one0 =~= Seq::<u8>::empty());
                        assert(spec_stream(buffer@, total_iter, cat_iter, client) == Some(
                            (total_iter, Seq::<u8>::empty(), cat_iter),
                        ));
                        assert(flat_bytes(responses@) + Seq::<u8>::empty() =~= flat_bytes(
                            responses@,
                        ));
                    }
                    return Ok((responses, total));
                }
                total = total + bytes;
                proof {
                    let t = rest@;
                    assert(t.len() >= 8 && t[0] == 67 && t[1] == 80 && t[2]
                        == CLEAR_PROTOCOL_VERSION);
                    let c = bytes as int;
                    assert(spec_frame_consumed(t, 4, t[3] as int) == Some(c));
                    assert(4 <= c <= t.len());
                    let resp = spec_frame_response(t, 4, t[3] as int, cat_iter, client);
                    let cat2 = spec_frame_catalog(t, 4, t[3] as int, cat_iter, client);
                    assert(one0 == resp);
                    assert(protocol.catalog() == cat2);
                    assert(spec_stream(buffer@, total_iter, cat_iter, client) == (
                    match spec_stream(buffer@, total as int, cat2, client) {
                        None => None::<(int, Seq<u8>, Seq<InstrumentModel>)>,
                        Some(rest2) => Some((rest2.0, resp + rest2.1, rest2.2)),
                    }));
                    let st = spec_stream(buffer@, total as int, cat2, client);
                    if st is Some {
                        let rest2 = st.unwrap();
                        assert(flat_old + (resp + rest2.1) =~= (flat_old + resp) + rest2.1);
                    }
                }
            },
        }
    }
}

} // verus!
