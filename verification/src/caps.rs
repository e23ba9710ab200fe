//! Finite sets of capability identifiers.
//!
//! A [`CapSet`] stores identifiers in a vector without duplicate names and is
//! viewed as the mathematical set of the identifiers' character sequences.

use vstd::prelude::*;
use vstd::seq_lib::*;
use crate::ids::CapabilityId;

verus! {

/// Turning a pushed sequence into a set inserts the pushed element.
proof fn lemma_push_to_set(s: Seq<Seq<char>>, x: Seq<char>)
    ensures
        s.push(x).to_set() == s.to_set().insert(x),
{
    let t = s.push(x);
    assert forall|y: Seq<char>| t.to_set().contains(y) implies s.to_set().insert(x).contains(
        y,
    ) by {
        let i = choose|i: int| 0 <= i < t.len() && t[i] == y;
        if i < s.len() {
            assert(s[i] == y);
            assert(s.contains(y));
        }
    };
    assert forall|y: Seq<char>| s.to_set().insert(x).contains(y) implies t.to_set().contains(
        y,
    ) by {
        if y == x {
            assert(t[s.len() as int] == y);
        } else {
            let i = choose|i: int| 0 <= i < s.len() && s[i] == y;
            assert(t[i] == y);
        }
        assert(t.contains(y));
    };
    assert(t.to_set() =~= s.to_set().insert(x));
}

/// Removing the only occurrence of an element from a duplicate-free sequence
/// removes it from the corresponding set.
proof fn lemma_remove_to_set(s: Seq<Seq<char>>, i: int)
    requires
        0 <= i < s.len(),
        s.no_duplicates(),
    ensures
        s.remove(i).to_set() == s.to_set().remove(s[i]),
        s.remove(i).no_duplicates(),
{
    let r = s.remove(i);
    assert forall|y: Seq<char>| r.to_set().contains(y) implies s.to_set().remove(s[i]).contains(
        y,
    ) by {
        let j = choose|j: int| 0 <= j < r.len() && r[j] == y;
        if j < i {
            assert(s[j] == y);
            assert(s.contains(y));
        } else {
            assert(s[j + 1] == y);
            assert(s.contains(y));
        }
    };
    assert forall|y: Seq<char>| s.to_set().remove(s[i]).contains(y) implies r.to_set().contains(
        y,
    ) by {
        let j = choose|j: int| 0 <= j < s.len() && s[j] == y;
        if j < i {
            assert(r[j] == y);
        } else {
            assert(r[j - 1] == y);
        }
        assert(r.contains(y));
    };
    assert(r.to_set() =~= s.to_set().remove(s[i]));
}

/// A finite set of capability identifiers.
///
/// The constructors and methods keep the stored vector free of duplicate
/// names, so its length always equals the cardinality of the viewed set.
#[derive(Debug)]
pub struct CapSet {
    elems: Vec<CapabilityId>,
}

impl CapSet {
    /// The stored identifiers' character sequences, in storage order.
    pub closed spec fn ids_seq(&self) -> Seq<Seq<char>> {
        self.elems@.map_values(|c: CapabilityId| c@)
    }

    /// The mathematical value of this set.
    pub closed spec fn view(&self) -> Set<Seq<char>> {
        self.ids_seq().to_set()
    }

    /// Well-formedness: no two stored identifiers share a name.
    pub closed spec fn wf(&self) -> bool {
        self.ids_seq().no_duplicates()
    }

    /// The view is always finite, storage order enumerates it exactly, and a
    /// well-formed set's cardinality equals its storage length.
    pub proof fn lemma_model(&self)
        ensures
            self@.finite(),
            self@ == self.ids_seq().to_set(),
            self.wf() ==> self@.len() == self.ids_seq().len(),
    {
        if self.wf() {
            self.ids_seq().unique_seq_to_set();
        }
    }

    /// The empty capability set.
    pub fn new() -> (s: CapSet)
        ensures
            s@ == Set::<Seq<char>>::empty(),
            s.wf(),
            s.ids_seq() == Seq::<Seq<char>>::empty(),
    {
        let s = CapSet { elems: Vec::new() };
        proof {
            assert(s.ids_seq() =~= Seq::<Seq<char>>::empty());
            assert(s@ =~= Set::<Seq<char>>::empty());
        }
        s
    }

    /// How many identifiers are stored.
    pub fn iter_len(&self) -> (n: usize)
        ensures
            n == self.ids_seq().len(),
    {
        self.elems.len()
    }

    /// The cardinality of the set.
    pub fn len(&self) -> (n: usize)
        requires
            self.wf(),
        ensures
            n == self@.len(),
    {
        proof {
            self.ids_seq().unique_seq_to_set();
        }
        self.elems.len()
    }

    /// The identifier stored at position `i`.
    pub fn get(&self, i: usize) -> (c: &CapabilityId)
        requires
            i < self.ids_seq().len(),
        ensures
            c@ == self.ids_seq()[i as int],
            self@.contains(c@),
    {
        proof {
            assert(self.ids_seq().contains(self.ids_seq()[i as int]));
        }
        &self.elems[i]
    }

    /// Whether the set contains the given identifier's name.
    pub fn contains_id(&self, c: &CapabilityId) -> (b: bool)
        ensures
            b == self@.contains(c@),
    {
        let n = self.elems.len();
        let mut i: usize = 0;
        while i < n
            invariant
                n == self.elems.len(),
                i <= n,
                forall|j: int| 0 <= j < i ==> self.ids_seq()[j] != c@,
            decreases n - i,
        {
            if self.elems[i].eq_id(c) {
                proof {
                    assert(self.ids_seq()[i as int] == c@);
                    assert(self.ids_seq().contains(c@));
                }
                return true;
            }
            i += 1;
        }
        proof {
            if self@.contains(c@) {
                let j = choose|j: int|
                    0 <= j < self.ids_seq().len() && self.ids_seq()[j] == c@;
                assert(false);
            }
        }
        false
    }

    /// Add an identifier; a name already present is kept once.
    pub fn insert(&mut self, c: CapabilityId)
        requires
            old(self).wf(),
        ensures
            final(self).wf(),
            final(self)@ == old(self)@.insert(c@),
    {
        let ghost pre = self.ids_seq();
        if !self.contains_id(&c) {
            let ghost cv = c@;
            self.elems.push(c);
            proof {
                assert(self.ids_seq() =~= pre.push(cv));
                assert forall|j: int| 0 <= j < pre.len() implies pre[j] != cv by {
                    if pre[j] == cv {
                        assert(pre.contains(cv));
                    }
                }
                assert(self.ids_seq().no_duplicates());
                lemma_push_to_set(pre, cv);
            }
        } else {
            proof {
                assert(self@ =~= old(self)@.insert(c@));
            }
        }
    }

    /// Remove an identifier's name, if present.
    pub fn remove_id(&mut self, c: &CapabilityId)
        requires
            old(self).wf(),
        ensures
            final(self).wf(),
            final(self)@ == old(self)@.remove(c@),
    {
        let ghost pre = self.ids_seq();
        let n = self.elems.len();
        proof {
            assert(pre.len() == n);
        }
        let mut i: usize = 0;
        while i < n
            invariant
                n == self.elems.len(),
                i <= n,
                *self == *old(self),
                pre == self.ids_seq(),
                pre.len() == n,
                pre.no_duplicates(),
                forall|j: int| 0 <= j < i ==> self.ids_seq()[j] != c@,
            decreases n - i,
        {
            if self.elems[i].eq_id(c) {
                proof {
                    lemma_remove_to_set(pre, i as int);
                }
                self.elems.remove(i);
                proof {
                    assert(self.ids_seq() =~= pre.remove(i as int));
                }
                return ;
            }
            i += 1;
        }
        proof {
            if self@.contains(c@) {
                let j = choose|j: int|
                    0 <= j < self.ids_seq().len() && self.ids_seq()[j] == c@;
                assert(false);
            }
            assert(self@ =~= old(self)@.remove(c@));
        }
    }

    /// The set of names in `self` that are not in `other`.
    pub fn difference(&self, other: &CapSet) -> (r: CapSet)
        requires
            self.wf(),
        ensures
            r.wf(),
            r@ == self@.difference(other@),
    {
        let n = self.elems.len();
        let mut r = CapSet::new();
        let mut i: usize = 0;
        while i < n
            invariant
                n == self.elems.len(),
                i <= n,
                self.wf(),
                r.wf(),
                r@ == self.ids_seq().take(i as int).to_set().difference(other@),
            decreases n - i,
        {
            let ghost before = r@;
            let c = &self.elems[i];
            proof {
                assert(self.ids_seq()[i as int] == c@);
                assert(self.ids_seq().take(i + 1) =~= self.ids_seq().take(i as int).push(c@));
                lemma_push_to_set(self.ids_seq().take(i as int), c@);
            }
            if !other.contains_id(c) {
                r.insert(c.clone());
                proof {
                    assert(r@ =~= self.ids_seq().take(i + 1).to_set().difference(other@));
                }
            } else {
                proof {
                    assert(r@ =~= self.ids_seq().take(i + 1).to_set().difference(other@));
                }
            }
            i += 1;
        }
        proof {
            assert(self.ids_seq().take(n as int) =~= self.ids_seq());
        }
        r
    }

    /// The union of the two sets.
    pub fn union(&self, other: &CapSet) -> (r: CapSet)
        requires
            self.wf(),
        ensures
            r.wf(),
            r@ == self@.union(other@),
    {
        let n = other.elems.len();
        let mut r = CapSet { elems: self.elems.clone() };
        proof {
            assert forall|j: int| 0 <= j < self.elems@.len() implies r.ids_seq()[j]
                == self.ids_seq()[j] by {
                assert(cloned::<CapabilityId>(self.elems@[j], r.elems@[j]));
            }
            assert(r.ids_seq() =~= self.ids_seq());
            assert(r@ =~= self@.union(other.ids_seq().take(0).to_set()));
        }
        let mut i: usize = 0;
        while i < n
            invariant
                n == other.elems.len(),
                i <= n,
                r.wf(),
                r@ == self@.union(other.ids_seq().take(i as int).to_set()),
            decreases n - i,
        {
            let c = &other.elems[i];
            proof {
                assert(other.ids_seq()[i as int] == c@);
                assert(other.ids_seq().take(i + 1) =~= other.ids_seq().take(i as int).push(c@));
                lemma_push_to_set(other.ids_seq().take(i as int), c@);
            }
            r.insert(c.clone());
            proof {
                assert(r@ =~= self@.union(other.ids_seq().take(i + 1).to_set()));
            }
            i += 1;
        }
        proof {
            assert(other.ids_seq().take(n as int) =~= other.ids_seq());
            other.lemma_model();
        }
        r
    }

    /// Whether some name lies in both sets.
    pub fn intersects(&self, other: &CapSet) -> (b: bool)
        ensures
            b == exists|x: Seq<char>| self@.contains(x) && other@.contains(x),
    {
        let n = self.elems.len();
        let mut i: usize = 0;
        while i < n
            invariant
                n == self.elems.len(),
                i <= n,
                forall|j: int| 0 <= j < i ==> !other@.contains(#[trigger] self.ids_seq()[j]),
            decreases n - i,
        {
            let c = &self.elems[i];
            if other.contains_id(c) {
                proof {
                    assert(self.ids_seq()[i as int] == c@);
                    assert(self.ids_seq().contains(c@));
                    assert(self@.contains(c@) && other@.contains(c@));
                }
                return true;
            }
            i += 1;
        }
        proof {
            if exists|x: Seq<char>| self@.contains(x) && other@.contains(x) {
                let x = choose|x: Seq<char>| self@.contains(x) && other@.contains(x);
                let j = choose|j: int|
                    0 <= j < self.ids_seq().len() && self.ids_seq()[j] == x;
                assert(false);
            }
        }
        false
    }

    /// A name in both `self` and `other`, if any.
    pub fn first_in(&self, other: &CapSet) -> (r: Option<CapabilityId>)
        ensures
            match r {
                Option::Some(c) => self@.contains(c@) && other@.contains(c@),
                Option::None => !(exists|x: Seq<char>| self@.contains(x) && other@.contains(x)),
            },
    {
        let n = self.elems.len();
        let mut i: usize = 0;
        while i < n
            invariant
                n == self.elems.len(),
                i <= n,
                forall|j: int| 0 <= j < i ==> !other@.contains(#[trigger] self.ids_seq()[j]),
            decreases n - i,
        {
            let c = &self.elems[i];
            if other.contains_id(c) {
                proof {
                    assert(self.ids_seq()[i as int] == c@);
                    assert(self.ids_seq().contains(c@));
                }
                return Option::Some(c.clone());
            }
            i += 1;
        }
        proof {
            if exists|x: Seq<char>| self@.contains(x) && other@.contains(x) {
                let x = choose|x: Seq<char>| self@.contains(x) && other@.contains(x);
                let j = choose|j: int|
                    0 <= j < self.ids_seq().len() && self.ids_seq()[j] == x;
                assert(false);
            }
        }
        Option::None
    }

    /// A name in `self` that is missing from `other`, if any.
    pub fn first_not_in(&self, other: &CapSet) -> (r: Option<CapabilityId>)
        ensures
            match r {
                Option::Some(c) => self@.contains(c@) && !other@.contains(c@),
                Option::None => self@.subset_of(other@),
            },
    {
        let n = self.elems.len();
        let mut i: usize = 0;
        while i < n
            invariant
                n == self.elems.len(),
                i <= n,
                forall|j: int| 0 <= j < i ==> other@.contains(#[trigger] self.ids_seq()[j]),
            decreases n - i,
        {
            let c = &self.elems[i];
            if !other.contains_id(c) {
                proof {
                    assert(self.ids_seq()[i as int] == c@);
                    assert(self.ids_seq().contains(c@));
                }
                return Option::Some(c.clone());
            }
            i += 1;
        }
        proof {
            assert forall|x: Seq<char>| self@.contains(x) implies other@.contains(x) by {
                let j = choose|j: int|
                    0 <= j < self.ids_seq().len() && self.ids_seq()[j] == x;
            };
        }
        Option::None
    }

    /// How many of this set's names lie in `other`.
    pub fn count_in(&self, other: &CapSet) -> (n: usize)
        requires
            self.wf(),
        ensures
            n == self@.intersect(other@).len(),
    {
        let len = self.elems.len();
        let mut count: usize = 0;
        let mut i: usize = 0;
        proof {
            assert(self.ids_seq().take(0) =~= Seq::<Seq<char>>::empty());
            assert(Seq::<Seq<char>>::empty().to_set() =~= Set::<Seq<char>>::empty());
            assert(Set::<Seq<char>>::empty().intersect(other@) =~= Set::<Seq<char>>::empty());
        }
        while i < len
            invariant
                len == self.elems.len(),
                i <= len,
                count <= i,
                self.wf(),
                count == self.ids_seq().take(i as int).to_set().intersect(other@).len(),
            decreases len - i,
        {
            let ghost pre = self.ids_seq().take(i as int).to_set();
            let c = &self.elems[i];
            proof {
                assert(self.ids_seq()[i as int] == c@);
                assert(self.ids_seq().take(i + 1) =~= self.ids_seq().take(i as int).push(c@));
                lemma_push_to_set(self.ids_seq().take(i as int), c@);
                assert(!self.ids_seq().take(i as int).contains(c@)) by {
                    if self.ids_seq().take(i as int).contains(c@) {
                        let j = choose|j: int|
                            0 <= j < i && self.ids_seq().take(i as int)[j] == c@;
                        assert(self.ids_seq()[j] == self.ids_seq()[i as int]);
                    }
                }
            }
            if other.contains_id(c) {
                proof {
                    assert(pre.insert(c@).intersect(other@) =~= pre.intersect(other@).insert(
                        c@,
                    ));
                    assert(!pre.intersect(other@).contains(c@));
                }
                count += 1;
            } else {
                proof {
                    assert(pre.insert(c@).intersect(other@) =~= pre.intersect(other@));
                }
            }
            i += 1;
        }
        proof {
            assert(self.ids_seq().take(len as int) =~= self.ids_seq());
        }
        count
    }
}

impl Clone for CapSet {
    /// Cloning keeps the same set of names.
    fn clone(&self) -> (r: Self)
        ensures
            r.ids_seq() == self.ids_seq(),
            r@ == self@,
            r.wf() == self.wf(),
    {
        let r = CapSet { elems: self.elems.clone() };
        proof {
            assert forall|j: int| 0 <= j < self.elems@.len() implies r.ids_seq()[j]
                == self.ids_seq()[j] by {
                assert(cloned::<CapabilityId>(self.elems@[j], r.elems@[j]));
            }
            assert(r.ids_seq() =~= self.ids_seq());
        }
        r
    }
}

} // verus!
