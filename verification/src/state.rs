//! Shared protocol state: the public token registry, a user's local
//! exposure table, and the confirmed-exposed pseudonym set.
//!
//! The registry and the confirmed set behave as sets (no duplicates); the
//! exposure table maps each broadcast pseudonym to its salt, one entry
//! per pseudonym.

use vstd::prelude::*;
use crate::group::{G1G2, Scalar};
use crate::pedersen::Commitment;
use crate::tact::Signature;

verus! {

/// The public credential token: the identity commitment and the
/// signature component of the aggregated token.  Equality is structural;
/// it is the registry key.
#[derive(Clone, Copy, PartialEq, Eq, Structural, Debug)]
pub struct SpiritToken {
    pub cm: Commitment,
    pub sig: Signature,
}

/// The append-only set of legitimately issued tokens.
pub struct TokenRegistry {
    pub entries: Vec<SpiritToken>,
}

impl View for TokenRegistry {
    type V = Seq<SpiritToken>;

    open spec fn view(&self) -> Seq<SpiritToken> {
        self.entries@
    }
}

pub open spec fn registry_wf(r: TokenRegistry) -> bool {
    forall|i: int, j: int| 0 <= i < j < r@.len() ==> r@[i] != r@[j]
}

impl TokenRegistry {
    /// A fresh, empty registry.
    pub fn new() -> (r: TokenRegistry)
        ensures
            r@ == Seq::<SpiritToken>::empty(),
            registry_wf(r),
    {
        TokenRegistry { entries: Vec::new() }
    }

    pub fn len(&self) -> (n: usize)
        ensures
            n == self@.len(),
    {
        self.entries.len()
    }

    /// Membership test: is this token registered?
    pub fn contains(&self, t: &SpiritToken) -> (r: bool)
        ensures
            r == self@.contains(*t),
    {
        let mut i: usize = 0;
        while i < self.entries.len()
            invariant
                i <= self@.len(),
                forall|k: int| 0 <= k < i ==> self@[k] != *t,
            decreases self@.len() - i,
        {
            if self.entries[i] == *t {
                proof {
                    assert(self@[i as int] == *t);
                }
                return true;
            }
            i = i + 1;
        }
        proof {
            assert(!self@.contains(*t)) by {
                if self@.contains(*t) {
                    let k = choose|k: int| 0 <= k < self@.len() && self@[k] == *t;
                    assert(self@[k] != *t);
                }
            }
        }
        false
    }

    /// Insert a token; the registry never shrinks, and a token already
    /// present is kept as it is.
    pub fn insert(&mut self, t: SpiritToken)
        ensures
            old(self)@.contains(t) ==> final(self)@ == old(self)@,
            !old(self)@.contains(t) ==> final(self)@ == old(self)@.push(t),
            final(self)@.contains(t),
            forall|e: SpiritToken|
                #[trigger] final(self)@.contains(e) <==> old(self)@.contains(e) || e == t,
            registry_wf(*old(self)) ==> registry_wf(*final(self)),
            final(self)@.len() >= old(self)@.len(),
            final(self)@.len() <= old(self)@.len() + 1,
    {
        let present = self.contains(&t);
        if !present {
            self.entries.push(t);
            proof {
                assert(self@ == old(self)@.push(t));
                assert(self@[old(self)@.len() as int] == t);
                assert(self@.contains(t));
                assert forall|e: SpiritToken| #[trigger]
                    self@.contains(e) <==> old(self)@.contains(e) || e == t by {
                    if self@.contains(e) {
                        let k = choose|k: int| 0 <= k < self@.len() && self@[k] == e;
                        if k < old(self)@.len() {
                            assert(old(self)@[k] == e);
                        }
                    }
                    if old(self)@.contains(e) {
                        let k = choose|k: int| 0 <= k < old(self)@.len() && old(self)@[k] == e;
                        assert(self@[k] == e);
                    }
                }
                if registry_wf(*old(self)) {
                    assert forall|i: int, j: int|
                        0 <= i < j < self@.len() implies self@[i] != self@[j] by {
                        if j == old(self)@.len() {
                            assert(!old(self)@.contains(t));
                            assert(old(self)@[i] != t) by {
                                if old(self)@[i] == t {
                                    assert(old(self)@.contains(t));
                                }
                            }
                        }
                    }
                }
            }
        }
    }

    /// A copy of the registry's current contents.
    pub fn snapshot(&self) -> (r: TokenRegistry)
        ensures
            r@ == self@,
    {
        let mut out: Vec<SpiritToken> = Vec::new();
        let mut i: usize = 0;
        while i < self.entries.len()
            invariant
                i <= self@.len(),
                out@ == self@.take(i as int),
            decreases self@.len() - i,
        {
            out.push(self.entries[i]);
            proof {
                assert(out@ =~= self@.take(i + 1));
            }
            i = i + 1;
        }
        proof {
            assert(self@.take(self@.len() as int) =~= self@);
        }
        TokenRegistry { entries: out }
    }
}

/// One broadcast record: a pseudonym and the salt drawn for it.
#[derive(Clone, Copy, PartialEq, Eq, Structural, Debug)]
pub struct ExposureEntry {
    pub el_id: G1G2,
    pub salt: Scalar,
}

/// Whether a table holds an entry for a pseudonym.
pub open spec fn table_has(s: Seq<ExposureEntry>, el: G1G2) -> bool {
    exists|i: int| 0 <= i < s.len() && s[i].el_id == el
}

/// A user's local map from broadcast pseudonym to salt.
pub struct ExposureTable {
    pub entries: Vec<ExposureEntry>,
}

impl View for ExposureTable {
    type V = Seq<ExposureEntry>;

    open spec fn view(&self) -> Seq<ExposureEntry> {
        self.entries@
    }
}

pub open spec fn table_wf(t: ExposureTable) -> bool {
    forall|i: int, j: int| 0 <= i < j < t@.len() ==> t@[i].el_id != t@[j].el_id
}

impl ExposureTable {
    /// A fresh, empty table.
    pub fn new() -> (r: ExposureTable)
        ensures
            r@ == Seq::<ExposureEntry>::empty(),
            table_wf(r),
    {
        ExposureTable { entries: Vec::new() }
    }

    pub fn len(&self) -> (n: usize)
        ensures
            n == self@.len(),
    {
        self.entries.len()
    }

    /// Does the table hold an entry for this pseudonym?
    pub fn has(&self, el: &G1G2) -> (r: bool)
        ensures
            r == table_has(self@, *el),
    {
        let mut i: usize = 0;
        while i < self.entries.len()
            invariant
                i <= self@.len(),
                forall|k: int| 0 <= k < i ==> self@[k].el_id != *el,
            decreases self@.len() - i,
        {
            if self.entries[i].el_id == *el {
                proof {
                    assert(self@[i as int].el_id == *el);
                }
                return true;
            }
            i = i + 1;
        }
        false
    }

    /// Record a pseudonym with its salt: a new pseudonym is appended, a
    /// re-broadcast pseudonym has its salt overwritten in place.
    pub fn record(&mut self, el: G1G2, salt: Scalar)
        requires
            table_wf(*old(self)),
        ensures
            table_wf(*final(self)),
            table_has(final(self)@, el),
            forall|i: int|
                0 <= i < old(self)@.len() ==> final(self)@[i] == (if old(self)@[i].el_id == el {
                    ExposureEntry { el_id: el, salt }
                } else {
                    old(self)@[i]
                }),
            table_has(old(self)@, el) ==> final(self)@.len() == old(self)@.len(),
            !table_has(old(self)@, el) ==> final(self)@ == old(self)@.push(
                ExposureEntry { el_id: el, salt },
            ),
            forall|e: G1G2| table_has(final(self)@, e) <==> table_has(old(self)@, e) || e == el,
    {
        let mut out: Vec<ExposureEntry> = Vec::new();
        let mut found = false;
        let mut i: usize = 0;
        while i < self.entries.len()
            invariant
                i <= self@.len(),
                out@.len() == i,
                table_wf(*self),
                forall|k: int|
                    0 <= k < i ==> out@[k] == (if self@[k].el_id == el {
                        ExposureEntry { el_id: el, salt }
                    } else {
                        self@[k]
                    }),
                found <==> exists|k: int| 0 <= k < i && self@[k].el_id == el,
            decreases self@.len() - i,
        {
            if self.entries[i].el_id == el {
                out.push(ExposureEntry { el_id: el, salt });
                found = true;
                proof {
                    assert(self@[i as int].el_id == el);
                }
            } else {
                out.push(self.entries[i]);
            }
            i = i + 1;
        }
        if !found {
            out.push(ExposureEntry { el_id: el, salt });
        }
        proof {
            assert(found == table_has(self@, el));
        }
        let ghost before = self@;
        self.entries = out;
        proof {
            if table_has(before, el) {
                let k = choose|k: int| 0 <= k < before.len() && before[k].el_id == el;
                assert(self@[k] == (ExposureEntry { el_id: el, salt }));
                assert(table_has(self@, el));
            } else {
                assert(self@ =~= before.push(ExposureEntry { el_id: el, salt }));
                assert(self@[before.len() as int].el_id == el);
                assert(table_has(self@, el));
            }
            assert forall|e: G1G2|
                table_has(self@, e) <==> table_has(before, e) || e == el by {
                if table_has(self@, e) {
                    let k = choose|k: int| 0 <= k < self@.len() && self@[k].el_id == e;
                    if k < before.len() {
                        if before[k].el_id == el {
                            assert(self@[k] == (ExposureEntry { el_id: el, salt }));
                            assert(e == el);
                        } else {
                            assert(self@[k] == before[k]);
                            assert(table_has(before, e));
                        }
                    } else {
                        assert(e == el);
                    }
                }
                if table_has(before, e) {
                    let k = choose|k: int| 0 <= k < before.len() && before[k].el_id == e;
                    if before[k].el_id == el {
                        assert(self@[k] == (ExposureEntry { el_id: el, salt }));
                        assert(table_has(self@, e));
                    } else {
                        assert(self@[k] == before[k]);
                        assert(table_has(self@, e));
                    }
                }
                if e == el {
                    assert(table_has(self@, e));
                }
            }
            assert forall|i: int, j: int|
                0 <= i < j < self@.len() implies self@[i].el_id != self@[j].el_id by {
                if j < before.len() {
                    assert(before[i].el_id != before[j].el_id);
                } else {
                    assert(!table_has(before, el));
                    assert(self@[j].el_id == el);
                    assert(before[i].el_id != el) by {
                        if before[i].el_id == el {
                            assert(table_has(before, el));
                        }
                    }
                }
            }
        }
    }

    /// A copy of the table's current contents.
    pub fn snapshot(&self) -> (r: ExposureTable)
        ensures
            r@ == self@,
    {
        let mut out: Vec<ExposureEntry> = Vec::new();
        let mut i: usize = 0;
        while i < self.entries.len()
            invariant
                i <= self@.len(),
                out@ == self@.take(i as int),
            decreases self@.len() - i,
        {
            out.push(self.entries[i]);
            proof {
                assert(out@ =~= self@.take(i + 1));
            }
            i = i + 1;
        }
        proof {
            assert(self@.take(self@.len() as int) =~= self@);
        }
        ExposureTable { entries: out }
    }
}

/// The verifier-maintained set of confirmed-exposed pseudonyms.
pub struct ConfirmedSet {
    pub entries: Vec<G1G2>,
}

impl View for ConfirmedSet {
    type V = Seq<G1G2>;

    open spec fn view(&self) -> Seq<G1G2> {
        self.entries@
    }
}

pub open spec fn confirmed_wf(c: ConfirmedSet) -> bool {
    forall|i: int, j: int| 0 <= i < j < c@.len() ==> c@[i] != c@[j]
}

impl ConfirmedSet {
    /// A fresh, empty set.
    pub fn new() -> (r: ConfirmedSet)
        ensures
            r@ == Seq::<G1G2>::empty(),
            confirmed_wf(r),
    {
        ConfirmedSet { entries: Vec::new() }
    }

    pub fn len(&self) -> (n: usize)
        ensures
            n == self@.len(),
    {
        self.entries.len()
    }

    /// Membership test.
    pub fn contains(&self, el: &G1G2) -> (r: bool)
        ensures
            r == self@.contains(*el),
    {
        let mut i: usize = 0;
        while i < self.entries.len()
            invariant
                i <= self@.len(),
                forall|k: int| 0 <= k < i ==> self@[k] != *el,
            decreases self@.len() - i,
        {
            if self.entries[i] == *el {
                proof {
                    assert(self@[i as int] == *el);
                }
                return true;
            }
            i = i + 1;
        }
        proof {
            assert(!self@.contains(*el)) by {
                if self@.contains(*el) {
                    let k = choose|k: int| 0 <= k < self@.len() && self@[k] == *el;
                    assert(self@[k] != *el);
                }
            }
        }
        false
    }

    /// Insert a pseudonym; one already present is kept as it is.
    pub fn insert(&mut self, el: G1G2)
        ensures
            old(self)@.contains(el) ==> final(self)@ == old(self)@,
            !old(self)@.contains(el) ==> final(self)@ == old(self)@.push(el),
            final(self)@.contains(el),
            forall|e: G1G2|
                #[trigger] final(self)@.contains(e) <==> old(self)@.contains(e) || e == el,
            confirmed_wf(*old(self)) ==> confirmed_wf(*final(self)),
    {
        let present = self.contains(&el);
        if !present {
            self.entries.push(el);
            proof {
                assert(self@[old(self)@.len() as int] == el);
                assert(self@.contains(el));
                assert forall|e: G1G2| #[trigger]
                    self@.contains(e) <==> old(self)@.contains(e) || e == el by {
                    if self@.contains(e) {
                        let k = choose|k: int| 0 <= k < self@.len() && self@[k] == e;
                        if k < old(self)@.len() {
                            assert(old(self)@[k] == e);
                        }
                    }
                    if old(self)@.contains(e) {
                        let k = choose|k: int| 0 <= k < old(self)@.len() && old(self)@[k] == e;
                        assert(self@[k] == e);
                    }
                }
                if confirmed_wf(*old(self)) {
                    assert forall|i: int, j: int|
                        0 <= i < j < self@.len() implies self@[i] != self@[j] by {
                        if j == old(self)@.len() {
                            assert(old(self)@[i] != el) by {
                                if old(self)@[i] == el {
                                    assert(old(self)@.contains(el));
                                }
                            }
                        }
                    }
                }
            }
        }
    }

    /// A copy of the set's current contents.
    pub fn snapshot(&self) -> (r: ConfirmedSet)
        ensures
            r@ == self@,
    {
        let mut out: Vec<G1G2> = Vec::new();
        let mut i: usize = 0;
        while i < self.entries.len()
            invariant
                i <= self@.len(),
                out@ == self@.take(i as int),
            decreases self@.len() - i,
        {
            out.push(self.entries[i]);
            proof {
                assert(out@ =~= self@.take(i + 1));
            }
            i = i + 1;
        }
        proof {
            assert(self@.take(self@.len() as int) =~= self@);
        }
        ConfirmedSet { entries: out }
    }
}

} // verus!
