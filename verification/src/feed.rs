//! The market-by-order feed framing: every datagram is an 8-byte
//! per-publisher sequence number, a 1-byte record tag, and the record's
//! payload in its OEP layout.

use crate::disseminator::{Disseminator, SendError};
use crate::instrument::{Instrument, InstrumentModel};
use crate::oep::cancel::Cancel;
use crate::oep::decoder::Decoder;
use crate::oep::modify::Modify;
use crate::oep::neworder::NewOrder;
use crate::oep::trade::Trade;
use crate::order::Order;
use vstd::bytes::{lemma_auto_spec_u64_to_from_le_bytes, spec_u64_to_le_bytes, u64_to_le_bytes};
use vstd::prelude::*;
use vstd::slice::slice_to_vec;

verus! {

/// Record tag: an instrument-info record.
pub const FEED_TAG_INSTRUMENT: u8 = 1;

/// Record tag: one resident order of a snapshot.
pub const FEED_TAG_MARKET_ORDER: u8 = 2;

/// Record tag: a trade.
pub const FEED_TAG_TRADE: u8 = 3;

/// Record tag: an order newly posted to a book.
pub const FEED_TAG_NEW_ORDER: u8 = 4;

/// Record tag: a resident order's quantity changed.
pub const FEED_TAG_MODIFY: u8 = 5;

/// Record tag: a resident order left the book.
pub const FEED_TAG_CANCEL: u8 = 6;

/// One feed datagram: the publisher's sequence number, the record tag,
/// then the record bytes.
pub fn encode_feed_frame(sequence: u64, tag: u8, payload: &[u8]) -> (r: Vec<u8>)
    ensures
        r@ == spec_u64_to_le_bytes(sequence) + seq![tag] + payload@,
{
    let mut r = u64_to_le_bytes(sequence);
    r.push(tag);
    let mut p = slice_to_vec(payload);
    r.append(&mut p);
    proof {
        lemma_auto_spec_u64_to_from_le_bytes();
        assert(r@ =~= spec_u64_to_le_bytes(sequence) + seq![tag] + payload@);
    }
    r
}

/// The cancel record the feed carries for a resident order; the session
/// fields are not the feed's business and travel as zero.
pub fn feed_cancel_of(order: &Order) -> (r: Cancel)
    ensures
        r == (Cancel {
            participant: order.participant,
            order_id: order.id,
            book_id: order.instrument_id,
            side: order.side.wire(),
            gateway_id: 0,
            session_id: 0,
        }),
{
    Cancel {
        participant: order.participant,
        order_id: order.get_id(),
        book_id: order.instrument_id,
        gateway_id: 0,
        session_id: 0,
        side: order.side.into(),
    }
}

/// The new-order record the feed carries for a posted order.
pub fn feed_new_order_of(order: &Order) -> (r: NewOrder)
    ensures
        r == (NewOrder {
            client_order_id: order.id,
            participant: order.participant,
            book_id: order.instrument_id,
            quantity: order.quantity,
            price: order.price,
            order_type: order.order_type.wire(),
            side: order.side.wire(),
            gateway_id: 0,
            session_id: 0,
        }),
{
    NewOrder {
        client_order_id: order.get_id(),
        participant: order.participant,
        book_id: order.instrument_id,
        quantity: order.quantity,
        price: order.price,
        order_type: order.order_type.into(),
        side: order.side.into(),
        gateway_id: 0,
        session_id: 0,
    }
}

/// The modify record the feed carries for a changed resident order.
pub fn feed_modify_of(order: &Order) -> (r: Modify)
    ensures
        r == (Modify {
            participant: order.participant,
            order_id: order.id,
            book_id: order.instrument_id,
            quantity: order.quantity,
            price: order.price,
            side: order.side.wire(),
            gateway_id: 0,
            session_id: 0,
        }),
{
    Modify {
        participant: order.participant,
        order_id: order.get_id(),
        book_id: order.instrument_id,
        quantity: order.quantity,
        price: order.price,
        gateway_id: 0,
        session_id: 0,
        side: order.side.into(),
    }
}

/// A feed publisher that frames every record with the verified encoders
/// and queues the finished datagrams; the surrounding process drains
/// `take_frames` and puts each one on the multicast socket. The six event
/// logs the book's contracts speak of are carried as ghost history.
#[derive(Clone)]
pub struct FeedBuffer {
    /// the per-publisher sequence number stamped on the next frame
    pub seq: u64,
    /// encoded datagrams waiting to be sent
    pub frames: Vec<Vec<u8>>,
    pub cancels: Ghost<Seq<Order>>,
    pub new_orders: Ghost<Seq<Order>>,
    pub modifies: Ghost<Seq<Order>>,
    pub trades: Ghost<Seq<Trade>>,
    pub instrument_info: Ghost<Seq<InstrumentModel>>,
    pub market_orders: Ghost<Seq<Order>>,
}

impl FeedBuffer {
    pub fn new() -> (r: FeedBuffer)
        ensures
            r.seq == 0,
            r.frames@.len() == 0,
            r.spec_cancels() == Seq::<Order>::empty(),
            r.spec_new_orders() == Seq::<Order>::empty(),
            r.spec_modifies() == Seq::<Order>::empty(),
            r.spec_trades() == Seq::<Trade>::empty(),
            r.spec_instrument_info() == Seq::<InstrumentModel>::empty(),
            r.spec_market_orders() == Seq::<Order>::empty(),
    {
        FeedBuffer {
            seq: 0,
            frames: Vec::new(),
            cancels: Ghost(Seq::empty()),
            new_orders: Ghost(Seq::empty()),
            modifies: Ghost(Seq::empty()),
            trades: Ghost(Seq::empty()),
            instrument_info: Ghost(Seq::empty()),
            market_orders: Ghost(Seq::empty()),
        }
    }

    /// Hands the queued datagrams to the caller and starts a fresh queue;
    /// the event history stays.
    pub fn take_frames(&mut self) -> (r: Vec<Vec<u8>>)
        ensures
            r@ == old(self).frames@,
            final(self).frames@.len() == 0,
            *final(self) == (FeedBuffer { frames: final(self).frames, ..*old(self) }),
    {
        let mut taken: Vec<Vec<u8>> = Vec::new();
        std::mem::swap(&mut taken, &mut self.frames);
        taken
    }

    /// Queues one framed record and advances the sequence number, which
    /// wraps at its end.
    fn push_frame(&mut self, tag: u8, payload: &[u8]) -> (r: usize)
        ensures
            final(self).frames@.len() == old(self).frames@.len() + 1,
            final(self).frames@.subrange(0, old(self).frames@.len() as int) == old(self).frames@,
            final(self).frames@.last()@ == spec_u64_to_le_bytes(old(self).seq) + seq![tag]
                + payload@,
            final(self).seq == if old(self).seq < u64::MAX {
                (old(self).seq + 1) as u64
            } else {
                0u64
            },
            final(self).cancels == old(self).cancels,
            final(self).new_orders == old(self).new_orders,
            final(self).modifies == old(self).modifies,
            final(self).trades == old(self).trades,
            final(self).instrument_info == old(self).instrument_info,
            final(self).market_orders == old(self).market_orders,
    {
        let frame = encode_feed_frame(self.seq, tag, payload);
        let n = frame.len();
        self.frames.push(frame);
        if self.seq < u64::MAX {
            self.seq = self.seq + 1;
        } else {
            self.seq = 0;
        }
        n
    }
}

impl Disseminator for FeedBuffer {
    open spec fn spec_cancels(&self) -> Seq<Order> {
        self.cancels@
    }

    open spec fn spec_new_orders(&self) -> Seq<Order> {
        self.new_orders@
    }

    open spec fn spec_modifies(&self) -> Seq<Order> {
        self.modifies@
    }

    open spec fn spec_trades(&self) -> Seq<Trade> {
        self.trades@
    }

    open spec fn spec_instrument_info(&self) -> Seq<InstrumentModel> {
        self.instrument_info@
    }

    open spec fn spec_market_orders(&self) -> Seq<Order> {
        self.market_orders@
    }

    fn send_cancel_order(&mut self, order: &Order) -> (r: Result<usize, SendError>) {
        let m = feed_cancel_of(order);
        let enc = m.encode();
        let n = self.push_frame(FEED_TAG_CANCEL, enc.as_slice());
        proof {
            self.cancels@ = self.cancels@.push(*order);
        }
        Ok(n)
    }

    fn send_new_order(&mut self, order: &Order) -> (r: Result<usize, SendError>) {
        let m = feed_new_order_of(order);
        let enc = m.encode();
        let n = self.push_frame(FEED_TAG_NEW_ORDER, enc.as_slice());
        proof {
            self.new_orders@ = self.new_orders@.push(*order);
        }
        Ok(n)
    }

    fn send_modify_order(&mut self, order: &Order) -> (r: Result<usize, SendError>) {
        let m = feed_modify_of(order);
        let enc = m.encode();
        let n = self.push_frame(FEED_TAG_MODIFY, enc.as_slice());
        proof {
            self.modifies@ = self.modifies@.push(*order);
        }
        Ok(n)
    }

    fn send_trade(&mut self, trade: &Trade) -> (r: Result<usize, SendError>) {
        let enc = trade.encode();
        let n = self.push_frame(FEED_TAG_TRADE, enc.as_slice());
        proof {
            self.trades@ = self.trades@.push(*trade);
        }
        Ok(n)
    }

    fn send_instrument_info(&mut self, instrument: &Instrument) -> (r: Result<usize, SendError>) {
        let enc = instrument.encode();
        let n = self.push_frame(FEED_TAG_INSTRUMENT, enc.as_slice());
        proof {
            self.instrument_info@ = self.instrument_info@.push(instrument@);
        }
        Ok(n)
    }

    fn send_market_order(&mut self, order: &Order) -> (r: Result<usize, SendError>) {
        let m = feed_new_order_of(order);
        let enc = m.encode();
        let n = self.push_frame(FEED_TAG_MARKET_ORDER, enc.as_slice());
        proof {
            self.market_orders@ = self.market_orders@.push(*order);
        }
        Ok(n)
    }
}

} // verus!
