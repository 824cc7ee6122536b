//! Instrument catalogs: an id-keyed collection of instruments that every
//! component reads through, with a cursor for walking it.

use crate::instrument::{Instrument, InstrumentModel, InstrumentState, InstrumentType};
use vstd::prelude::*;

verus! {

/// The models of a run of instruments, element for element.
pub open spec fn models_of(s: Seq<Instrument>) -> Seq<InstrumentModel> {
    s.map_values(|x: Instrument| x@)
}

/// The first catalog position holding the given id, or the catalog's
/// length if there is none.
pub open spec fn spec_find_id(s: Seq<InstrumentModel>, id: u64) -> int
    decreases s.len(),
{
    if s.len() == 0 {
        0
    } else if s[0].id == id {
        0
    } else {
        1 + spec_find_id(s.skip(1), id)
    }
}

/// The position `spec_find_id` names is in range, holds the id it looked
/// for, and nothing before it does.
pub proof fn lemma_find_id_props(s: Seq<InstrumentModel>, id: u64)
    ensures
        0 <= spec_find_id(s, id) <= s.len(),
        spec_find_id(s, id) < s.len() ==> s[spec_find_id(s, id)].id == id,
        forall|j: int| 0 <= j < spec_find_id(s, id) ==> (#[trigger] s[j]).id != id,
    decreases s.len(),
{
    if s.len() == 0 {
    } else if s[0].id == id {
    } else {
        let s1 = s.skip(1);
        lemma_find_id_props(s1, id);
        assert(forall|j: int| 0 <= j < s1.len() ==> #[trigger] s1[j] == s[j + 1]);
        assert forall|j: int| 0 <= j < spec_find_id(s, id) implies (#[trigger] s[j]).id != id by {
            if j >= 1 {
                assert(s[j] == s1[j - 1]);
            }
        }
    }
}

/// `spec_find_id` is the unique position with no earlier hit that either
/// hits or is the end.
pub proof fn lemma_find_id_char(s: Seq<InstrumentModel>, id: u64, p: int)
    requires
        0 <= p <= s.len(),
        forall|i: int| 0 <= i < p ==> (#[trigger] s[i]).id != id,
        p < s.len() ==> s[p].id == id,
    ensures
        spec_find_id(s, id) == p,
    decreases s.len(),
{
    if s.len() == 0 {
    } else if s[0].id == id {
        assert(p == 0);
    } else {
        assert(p >= 1);
        let s1 = s.skip(1);
        assert(forall|i: int| 0 <= i < p - 1 ==> s1[i] == s[i + 1]);
        lemma_find_id_char(s1, id, p - 1);
    }
}

/// A catalog of instruments keyed by id. `models()` is the catalog's
/// content in insertion order; adding an instrument whose id is already
/// present replaces that entry in place, so every component holding the
/// catalog observes the update.
pub trait GenericInstrumentList: Sized {
    /// The catalog's content, in insertion order.
    spec fn models(&self) -> Seq<InstrumentModel>;

    /// The position of the walking cursor used by `next`.
    spec fn cursor(&self) -> int;

    fn new() -> (r: Self)
        ensures
            r.models() == Seq::<InstrumentModel>::empty(),
            r.cursor() == 0,
    ;

    /// Adds an instrument to the catalog. If the id is already present,
    /// the previous entry is replaced in place. Returns a copy of what
    /// the catalog now holds under that id.
    fn add_instrument(&mut self, i: Instrument) -> (r: Instrument)
        ensures
            r@ == i@,
            ({
                let k = spec_find_id(old(self).models(), i@.id);
                final(self).models() == if k < old(self).models().len() {
                    old(self).models().update(k, i@)
                } else {
                    old(self).models().push(i@)
                }
            }),
            final(self).cursor() == old(self).cursor(),
    ;

    /// Refreshes the catalog's entry from the given instrument; how much
    /// of the instrument is taken over is the implementation's business.
    fn update_instrument(&mut self, i: &Instrument);

    fn get(&self, id: u64) -> (r: Option<Instrument>)
        ensures
            ({
                let k = spec_find_id(self.models(), id);
                if k < self.models().len() {
                    r matches Some(v) && v@ == self.models()[k]
                } else {
                    r is None
                }
            }),
    ;

    fn len(&self) -> (r: usize)
        ensures
            r == self.models().len(),
    ;

    fn contains(&self, id: u64) -> (r: bool)
        ensures
            r == (spec_find_id(self.models(), id) < self.models().len()),
    ;

    /// A quick way to register a bare instrument by id and kind.
    fn add(&mut self, id: u64, itype: InstrumentType);

    /// A copy of the instrument at the given catalog position.
    fn at(&self, i: usize) -> (r: Instrument)
        requires
            i < self.models().len(),
        ensures
            r@ == self.models()[i as int],
    ;

    /// The next instrument under the cursor, or nothing once the catalog
    /// is exhausted.
    fn next(&mut self) -> (r: Option<Instrument>)
        ensures
            final(self).models() == old(self).models(),
            (if old(self).cursor() < old(self).models().len() {
                r matches Some(v) && v@ == old(self).models()[old(self).cursor()] && final(self).cursor()
                    == old(self).cursor() + 1
            } else {
                r is None && final(self).cursor() == old(self).cursor()
            }),
    ;
}

/// The catalog used by the clearing path: instruments in a vector, in
/// insertion order, replaced in place on re-registration.
#[derive(Debug, Clone)]
pub struct InstrumentList {
    pub items: Vec<Instrument>,
    pub iter_count: usize,
}

impl InstrumentList {
    /// The first position holding `id`, or the length if there is none.
    fn find_index(&self, id: u64) -> (r: usize)
        ensures
            r == spec_find_id(self.models(), id),
            r <= self.models().len(),
    {
        let mut i: usize = 0;
        while i < self.items.len()
            invariant
                i <= self.items@.len(),
                forall|j: int| 0 <= j < i ==> (#[trigger] self.items@[j])@.id != id,
            decreases self.items@.len() - i,
        {
            if self.items[i].get_id() == id {
                proof {
                    lemma_find_id_char(self.models(), id, i as int);
                }
                return i;
            }
            i += 1;
        }
        proof {
            lemma_find_id_char(self.models(), id, i as int);
        }
        i
    }
}

impl GenericInstrumentList for InstrumentList {
    open spec fn models(&self) -> Seq<InstrumentModel> {
        models_of(self.items@)
    }

    open spec fn cursor(&self) -> int {
        self.iter_count as int
    }

    fn new() -> (r: InstrumentList) {
        let r = InstrumentList { items: Vec::new(), iter_count: 0 };
        proof {
            assert(r.models() =~= Seq::<InstrumentModel>::empty());
        }
        r
    }

    fn add_instrument(&mut self, i: Instrument) -> (r: Instrument) {
        let k = self.find_index(i.get_id());
        let stored = Instrument::copy(&i);
        if k < self.items.len() {
            let _ = self.items.remove(k);
            self.items.insert(k, stored);
            proof {
                assert(self.models() =~= old(self).models().update(k as int, i@));
            }
        } else {
            self.items.push(stored);
            proof {
                assert(self.models() =~= old(self).models().push(i@));
            }
        }
        i
    }

    /// Registers a bare instrument of the same id and kind, dropping the
    /// rest of the fields.
    fn update_instrument(&mut self, i: &Instrument) {
        let id = i.get_id();
        let itype = i.get_type();
        self.add(id, itype);
    }

    fn get(&self, id: u64) -> (r: Option<Instrument>) {
        let k = self.find_index(id);
        if k < self.items.len() {
            Some(Instrument::copy(&self.items[k]))
        } else {
            None
        }
    }

    fn len(&self) -> (r: usize) {
        self.items.len()
    }

    fn contains(&self, id: u64) -> (r: bool) {
        let k = self.find_index(id);
        k < self.items.len()
    }

    fn add(&mut self, id: u64, itype: InstrumentType) {
        let i = Instrument::new_fast(id, itype);
        let _ = self.add_instrument(i);
    }

    fn at(&self, i: usize) -> (r: Instrument) {
        Instrument::copy(&self.items[i])
    }

    fn next(&mut self) -> (r: Option<Instrument>) {
        if self.iter_count < self.items.len() {
            let v = Instrument::copy(&self.items[self.iter_count]);
            self.iter_count += 1;
            Some(v)
        } else {
            None
        }
    }
}

/// A second, minimal catalog with the same behaviour, used by tests that
/// want a fresh implementation rather than the production one.
#[derive(Debug, Clone)]
pub struct MockInstrumentList {
    pub items: Vec<Instrument>,
    pub iter_count: usize,
}

impl MockInstrumentList {
    /// The first position holding `id`, or the length if there is none.
    fn find_index(&self, id: u64) -> (r: usize)
        ensures
            r == spec_find_id(self.models(), id),
            r <= self.models().len(),
    {
        let mut i: usize = 0;
        while i < self.items.len()
            invariant
                i <= self.items@.len(),
                forall|j: int| 0 <= j < i ==> (#[trigger] self.items@[j])@.id != id,
            decreases self.items@.len() - i,
        {
            if self.items[i].get_id() == id {
                proof {
                    lemma_find_id_char(self.models(), id, i as int);
                }
                return i;
            }
            i += 1;
        }
        proof {
            lemma_find_id_char(self.models(), id, i as int);
        }
        i
    }
}

impl GenericInstrumentList for MockInstrumentList {
    open spec fn models(&self) -> Seq<InstrumentModel> {
        models_of(self.items@)
    }

    open spec fn cursor(&self) -> int {
        self.iter_count as int
    }

    fn new() -> (r: MockInstrumentList) {
        let r = MockInstrumentList { items: Vec::new(), iter_count: 0 };
        proof {
            assert(r.models() =~= Seq::<InstrumentModel>::empty());
        }
        r
    }

    fn add_instrument(&mut self, i: Instrument) -> (r: Instrument) {
        let k = self.find_index(i.get_id());
        let stored = Instrument::copy(&i);
        if k < self.items.len() {
            let _ = self.items.remove(k);
            self.items.insert(k, stored);
            proof {
                assert(self.models() =~= old(self).models().update(k as int, i@));
            }
        } else {
            self.items.push(stored);
            proof {
                assert(self.models() =~= old(self).models().push(i@));
            }
        }
        i
    }

    /// Replaces the catalog's entry by a copy of the whole instrument.
    fn update_instrument(&mut self, i: &Instrument) {
        let copy = Instrument::copy(i);
        let _ = self.add_instrument(copy);
    }

    fn get(&self, id: u64) -> (r: Option<Instrument>) {
        let k = self.find_index(id);
        if k < self.items.len() {
            Some(Instrument::copy(&self.items[k]))
        } else {
            None
        }
    }

    fn len(&self) -> (r: usize) {
        self.items.len()
    }

    fn contains(&self, id: u64) -> (r: bool) {
        let k = self.find_index(id);
        k < self.items.len()
    }

    fn add(&mut self, id: u64, itype: InstrumentType) {
        let i = Instrument::new_fast(id, itype);
        let _ = self.add_instrument(i);
    }

    fn at(&self, i: usize) -> (r: Instrument) {
        Instrument::copy(&self.items[i])
    }

    fn next(&mut self) -> (r: Option<Instrument>) {
        if self.iter_count < self.items.len() {
            let v = Instrument::copy(&self.items[self.iter_count]);
            self.iter_count += 1;
            Some(v)
        } else {
            None
        }
    }
}

} // verus!
