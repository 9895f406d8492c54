//! A stable-index arena: rows keep their key while others are removed, and a
//! lookup by key is fallible, since the row may have been removed. Removal
//! leaves a vacant slot; insertion appends a fresh slot, so a key is never
//! re-issued for a different row within one arena's lifetime.

use vstd::prelude::*;

verus! {

/// An arena of `T` with integer keys. Its view is the sequence of slots,
/// `None` marking a vacant one.
#[derive(Debug)]
pub struct Arena<T> {
    slots: Vec<Option<T>>,
}

impl<T> View for Arena<T> {
    type V = Seq<Option<T>>;

    closed spec fn view(&self) -> Seq<Option<T>> {
        self.slots@
    }
}

impl<T> Arena<T> {
    /// The slot of key `k`, when it is occupied.
    pub open spec fn spec_get(self, k: int) -> Option<T> {
        if 0 <= k < self@.len() {
            self@[k]
        } else {
            None
        }
    }

    /// How many slots are occupied.
    pub open spec fn occupied_count(s: Seq<Option<T>>) -> nat
        decreases s.len(),
    {
        if s.len() == 0 {
            0
        } else {
            Self::occupied_count(s.drop_last()) + (if s.last() is Some {
                1nat
            } else {
                0nat
            })
        }
    }

    /// The empty arena.
    pub fn new() -> (r: Arena<T>)
        ensures
            r@ == Seq::<Option<T>>::empty(),
    {
        Arena { slots: Vec::new() }
    }

    /// The number of slots ever issued, vacant ones included: every key is
    /// below this bound.
    pub fn slot_count(&self) -> (r: usize)
        ensures
            r == self@.len(),
    {
        self.slots.len()
    }

    /// Inserts a row into a fresh slot and returns its key.
    pub fn insert(&mut self, value: T) -> (k: usize)
        ensures
            k == old(self)@.len(),
            final(self)@ == old(self)@.push(Some(value)),
    {
        let k = self.slots.len();
        self.slots.push(Some(value));
        k
    }

    /// The row of key `k`, unless the key is out of range or its slot vacant.
    pub fn get(&self, k: usize) -> (r: Option<&T>)
        ensures
            match r {
                Some(v) => self.spec_get(k as int) == Some(*v),
                None => self.spec_get(k as int) is None,
            },
    {
        if k < self.slots.len() {
            match &self.slots[k] {
                Some(v) => Some(v),
                None => None,
            }
        } else {
            None
        }
    }

    /// Takes the row of key `k` out, leaving its slot vacant.
    pub fn remove(&mut self, k: usize) -> (r: Option<T>)
        ensures
            r == old(self).spec_get(k as int),
            k < old(self)@.len() ==> final(self)@ == old(self)@.update(k as int, None),
            k >= old(self)@.len() ==> final(self)@ == old(self)@,
    {
        if k < self.slots.len() {
            let mut taken: Option<T> = None;
            core::mem::swap(&mut taken, &mut self.slots[k]);
            proof {
                assert(final(self)@ =~= old(self)@.update(k as int, None));
            }
            taken
        } else {
            None
        }
    }

    /// Puts a row into slot `k`, replacing what was there.
    pub fn set(&mut self, k: usize, value: T)
        requires
            k < old(self)@.len(),
        ensures
            final(self)@ == old(self)@.update(k as int, Some(value)),
    {
        let mut slot = Some(value);
        core::mem::swap(&mut slot, &mut self.slots[k]);
        proof {
            assert(final(self)@ =~= old(self)@.update(k as int, Some(value)));
        }
    }

    /// Whether no slot is occupied.
    pub fn is_empty(&self) -> (r: bool)
        ensures
            r == (Self::occupied_count(self@) == 0),
            r == (forall|i: int| 0 <= i < self@.len() ==> self@[i] is None),
    {
        let n = self.slots.len();
        let mut i: usize = 0;
        while i < n
            invariant
                i <= n,
                n == self@.len(),
                Self::occupied_count(self@.take(i as int)) == 0,
                forall|j: int| 0 <= j < i ==> self@[j] is None,
            decreases n - i,
        {
            proof {
                assert(self@.take(i + 1).drop_last() =~= self@.take(i as int));
                assert(self@.take(i + 1).last() == self@[i as int]);
            }
            if self.slots[i].is_some() {
                proof {
                    Self::lemma_occupied_count_positive(self@, i as int);
                }
                return false;
            }
            i = i + 1;
        }
        proof {
            assert(self@.take(n as int) =~= self@);
        }
        true
    }

    /// Discards every row.
    pub fn clear(&mut self)
        ensures
            final(self)@ == Seq::<Option<T>>::empty(),
    {
        self.slots = Vec::new();
        proof {
            assert(final(self)@ =~= Seq::<Option<T>>::empty());
        }
    }

    /// A slot holding a row makes the occupied count positive.
    proof fn lemma_occupied_count_positive(s: Seq<Option<T>>, i: int)
        requires
            0 <= i < s.len(),
            s[i] is Some,
        ensures
            Self::occupied_count(s) > 0,
        decreases s.len(),
    {
        if i == s.len() - 1 {
        } else {
            assert(s.drop_last()[i] == s[i]);
            Self::lemma_occupied_count_positive(s.drop_last(), i);
        }
    }
}

} // verus!
