//! An ordered mapping from bindings to actions, with at most one action per
//! binding. Insertion overwrites: it drops any earlier entry with the same
//! binding and appends the new one, so the later insertion wins.

use vstd::prelude::*;
use crate::action::{Action, ActionView};
use crate::binding::{Binding, BindingView};

verus! {

/// The action mapped to `b`, the latest insertion winning.
pub open spec fn lookup(
    s: Seq<(BindingView, ActionView)>,
    b: BindingView,
) -> Option<ActionView>
    decreases s.len(),
{
    if s.len() == 0 {
        None
    } else if s.last().0 == b {
        Some(s.last().1)
    } else {
        lookup(s.drop_last(), b)
    }
}

/// `s` without any entry keyed by `b`, order otherwise kept.
pub open spec fn remove_key(
    s: Seq<(BindingView, ActionView)>,
    b: BindingView,
) -> Seq<(BindingView, ActionView)>
    decreases s.len(),
{
    if s.len() == 0 {
        Seq::empty()
    } else if s.last().0 == b {
        remove_key(s.drop_last(), b)
    } else {
        remove_key(s.drop_last(), b).push(s.last())
    }
}

/// Insertion semantics: the old entry for `b`, if any, is dropped and the
/// new pair goes to the end.
pub open spec fn insert_pair(
    s: Seq<(BindingView, ActionView)>,
    b: BindingView,
    a: ActionView,
) -> Seq<(BindingView, ActionView)> {
    remove_key(s, b).push((b, a))
}

/// No binding occurs twice as a key.
pub open spec fn keys_unique(s: Seq<(BindingView, ActionView)>) -> bool {
    forall|i: int, j: int| 0 <= i < j < s.len() ==> s[i].0 != s[j].0
}

/// The bindings mapped to `a`, in table order.
pub open spec fn bindings_of(
    s: Seq<(BindingView, ActionView)>,
    a: ActionView,
) -> Seq<BindingView>
    decreases s.len(),
{
    if s.len() == 0 {
        Seq::empty()
    } else if s.last().1 == a {
        bindings_of(s.drop_last(), a).push(s.last().0)
    } else {
        bindings_of(s.drop_last(), a)
    }
}

/// Every key in the table carries a key symbol: an unset binding is never a
/// key.
pub open spec fn keys_set(s: Seq<(BindingView, ActionView)>) -> bool {
    forall|i: int| 0 <= i < s.len() ==> (#[trigger] s[i].0).is_set()
}

/// A persistable table: unique, set keys.
pub open spec fn table_wf(s: Seq<(BindingView, ActionView)>) -> bool {
    keys_unique(s) && keys_set(s)
}

/// `over` laid over `base`: every pair of `over` inserted in order, so an
/// entry of `over` wins over one of `base` with the same key.
pub open spec fn merge(
    base: Seq<(BindingView, ActionView)>,
    over: Seq<(BindingView, ActionView)>,
) -> Seq<(BindingView, ActionView)>
    decreases over.len(),
{
    if over.len() == 0 {
        base
    } else {
        insert_pair(merge(base, over.drop_last()), over.last().0, over.last().1)
    }
}

/// Removing a key removes exactly its entries and nothing else.
pub proof fn lemma_remove_key(s: Seq<(BindingView, ActionView)>, b: BindingView)
    ensures
        forall|c: BindingView| #[trigger] lookup(remove_key(s, b), c) == if c == b {
            None::<ActionView>
        } else {
            lookup(s, c)
        },
        keys_unique(s) ==> keys_unique(remove_key(s, b)),
        keys_set(s) ==> keys_set(remove_key(s, b)),
        remove_key(s, b).len() <= s.len(),
        forall|i: int| 0 <= i < remove_key(s, b).len()
            ==> (#[trigger] remove_key(s, b)[i]).0 != b && s.contains(remove_key(s, b)[i]),
    decreases s.len(),
{
    if s.len() == 0 {
    } else {
        lemma_remove_key(s.drop_last(), b);
        assert(forall|i: int| 0 <= i < s.drop_last().len() ==> s.drop_last()[i] == s[i]);
        assert(forall|i: int|
            0 <= i < s.drop_last().len() && #[trigger] s.drop_last().contains(s.drop_last()[i])
                ==> s.contains(s.drop_last()[i]));
        if s.last().0 == b {
        } else {
            let r = remove_key(s.drop_last(), b).push(s.last());
            assert(r.drop_last() =~= remove_key(s.drop_last(), b));
            assert(r.last() == s.last());
            assert(s.contains(s.last()));
            assert(forall|i: int| 0 <= i < r.len() - 1
                ==> r[i] == remove_key(s.drop_last(), b)[i]);
            if keys_unique(s) {
                assert(keys_unique(s.drop_last()));
                assert forall|i: int, j: int| 0 <= i < j < r.len() implies r[i].0 != r[j].0 by {
                    if j < r.len() - 1 {
                    } else {
                        // r[i] is an entry of s.drop_last(), r[j] is s.last()
                        let e = remove_key(s.drop_last(), b)[i];
                        assert(s.drop_last().contains(e));
                        let w = choose|w: int|
                            0 <= w < s.drop_last().len() && s.drop_last()[w] == e;
                        assert(s[w] == e);
                    }
                }
            }
        }
    }
}

/// Insertion maps the new key to the new action and touches no other key.
pub proof fn lemma_insert_pair(s: Seq<(BindingView, ActionView)>, b: BindingView, a: ActionView)
    ensures
        lookup(insert_pair(s, b, a), b) == Some(a),
        forall|c: BindingView| c != b ==> #[trigger] lookup(insert_pair(s, b, a), c) == lookup(
            s,
            c,
        ),
        keys_unique(s) ==> keys_unique(insert_pair(s, b, a)),
        keys_set(s) && b.is_set() ==> keys_set(insert_pair(s, b, a)),
        insert_pair(s, b, a).len() <= s.len() + 1,
{
    lemma_remove_key(s, b);
    let r = remove_key(s, b);
    assert(insert_pair(s, b, a).last() == (b, a));
    assert(insert_pair(s, b, a).drop_last() =~= r);
    assert(forall|c: BindingView| c != b ==> #[trigger] lookup(r.push((b, a)), c) == lookup(r, c));
    if keys_unique(s) {
        assert forall|i: int, j: int| 0 <= i < j < r.push((b, a)).len() implies r.push(
            (b, a),
        )[i].0 != r.push((b, a))[j].0 by {
            if j < r.len() {
            } else {
                assert(r[i].0 != b);
            }
        }
    }
}

/// A merged lookup prefers the overlay and falls back to the base.
pub proof fn lemma_merge(
    base: Seq<(BindingView, ActionView)>,
    over: Seq<(BindingView, ActionView)>,
)
    ensures
        keys_unique(over) ==> forall|c: BindingView| #[trigger] lookup(merge(base, over), c)
            == match lookup(over, c) {
            Some(a) => Some(a),
            None => lookup(base, c),
        },
        keys_unique(base) ==> keys_unique(merge(base, over)),
        merge(base, over).len() <= base.len() + over.len(),
    decreases over.len(),
{
    if over.len() == 0 {
    } else {
        let rest = over.drop_last();
        lemma_merge(base, rest);
        lemma_insert_pair(merge(base, rest), over.last().0, over.last().1);
        if keys_unique(over) {
            assert(keys_unique(rest));
            assert forall|c: BindingView| true implies #[trigger] lookup(merge(base, over), c)
                == match lookup(over, c) {
                Some(a) => Some(a),
                None => lookup(base, c),
            } by {
                if c == over.last().0 {
                    assert(lookup(over, c) == Some(over.last().1));
                } else {
                    assert(lookup(over, c) == lookup(rest, c));
                }
            }
        }
    }
}

/// An ordered binding-to-action table.
#[derive(Debug)]
pub struct Shortcuts {
    pub entries: Vec<(Binding, Action)>,
}

impl View for Shortcuts {
    type V = Seq<(BindingView, ActionView)>;

    open spec fn view(&self) -> Seq<(BindingView, ActionView)> {
        self.entries@.map_values(|p: (Binding, Action)| (p.0@, p.1@))
    }
}

impl Shortcuts {
    /// The empty table.
    pub fn new() -> (r: Shortcuts)
        ensures
            r@ == Seq::<(BindingView, ActionView)>::empty(),
    {
        let r = Shortcuts { entries: Vec::new() };
        proof {
            assert(r@ =~= Seq::<(BindingView, ActionView)>::empty());
        }
        r
    }

    pub fn len(&self) -> (r: usize)
        ensures
            r == self@.len(),
    {
        self.entries.len()
    }

    pub fn is_empty(&self) -> (r: bool)
        ensures
            r == (self@.len() == 0),
    {
        self.entries.len() == 0
    }

    /// The entry at position `i`.
    pub fn entry(&self, i: usize) -> (r: (&Binding, &Action))
        requires
            i < self@.len(),
        ensures
            (r.0@, r.1@) == self@[i as int],
    {
        let p = &self.entries[i];
        (&p.0, &p.1)
    }

    /// Looks a binding up, the latest insertion winning.
    pub fn get(&self, b: &Binding) -> (r: Option<&Action>)
        ensures
            match r {
                Some(a) => lookup(self@, b@) == Some(a@),
                None => lookup(self@, b@) is None,
            },
    {
        let n = self.entries.len();
        let mut i: usize = n;
        proof {
            assert(self@.take(n as int) =~= self@);
        }
        while i > 0
            invariant
                i <= n,
                n == self@.len(),
                lookup(self@, b@) == lookup(self@.take(i as int), b@),
            decreases i,
        {
            i = i - 1;
            proof {
                assert(self@.take(i + 1).drop_last() =~= self@.take(i as int));
                assert(self@.take(i + 1).last() == self@[i as int]);
            }
            if self.entries[i].0 == *b {
                return Some(&self.entries[i].1);
            }
        }
        proof {
            assert(self@.take(0) =~= Seq::<(BindingView, ActionView)>::empty());
        }
        None
    }

    /// Whether any entry is keyed by `b`.
    pub fn contains_key(&self, b: &Binding) -> (r: bool)
        ensures
            r == (lookup(self@, b@) is Some),
    {
        self.get(b).is_some()
    }

    /// Drops every entry keyed by `b`, keeping the order of the rest.
    pub fn remove(&mut self, b: &Binding)
        ensures
            final(self)@ == remove_key(old(self)@, b@),
    {
        let n = self.entries.len();
        let mut kept: Vec<(Binding, Action)> = Vec::new();
        let mut i: usize = 0;
        while i < n
            invariant
                i <= n,
                n == self@.len(),
                kept@.map_values(|p: (Binding, Action)| (p.0@, p.1@))
                    == remove_key(self@.take(i as int), b@),
            decreases n - i,
        {
            proof {
                assert(self@.take(i + 1).drop_last() =~= self@.take(i as int));
                assert(self@.take(i + 1).last() == self@[i as int]);
            }
            let p = &self.entries[i];
            if !(p.0 == *b) {
                let ghost prev = kept@.map_values(|p: (Binding, Action)| (p.0@, p.1@));
                kept.push((p.0.clone(), p.1.clone()));
                proof {
                    assert(kept@.map_values(|p: (Binding, Action)| (p.0@, p.1@))
                        =~= prev.push(self@[i as int]));
                }
            }
            i = i + 1;
        }
        proof {
            assert(self@.take(n as int) =~= self@);
        }
        self.entries = kept;
    }

    /// Inserts `(b, a)`: any earlier entry for `b` is dropped and the new
    /// pair appended, so the insertion overwrites.
    pub fn insert(&mut self, b: Binding, a: Action)
        ensures
            final(self)@ == insert_pair(old(self)@, b@, a@),
    {
        self.remove(&b);
        let ghost mid = self@;
        self.entries.push((b, a));
        proof {
            assert(self@ =~= mid.push((b@, a@)));
        }
    }
}

impl Clone for Shortcuts {
    fn clone(&self) -> (r: Self)
        ensures
            r@ == self@,
    {
        let n = self.entries.len();
        let mut entries: Vec<(Binding, Action)> = Vec::new();
        let mut i: usize = 0;
        while i < n
            invariant
                i <= n,
                n == self@.len(),
                entries@.map_values(|p: (Binding, Action)| (p.0@, p.1@)) == self@.take(i as int),
            decreases n - i,
        {
            let p = &self.entries[i];
            let ghost prev = entries@.map_values(|p: (Binding, Action)| (p.0@, p.1@));
            entries.push((p.0.clone(), p.1.clone()));
            proof {
                assert(entries@.map_values(|p: (Binding, Action)| (p.0@, p.1@))
                    =~= prev.push(self@[i as int]));
                assert(prev.push(self@[i as int]) =~= self@.take(i + 1));
            }
            i = i + 1;
        }
        proof {
            assert(self@.take(n as int) =~= self@);
        }
        Shortcuts { entries }
    }
}

impl Default for Shortcuts {
    fn default() -> (r: Shortcuts)
        ensures
            r@ == Seq::<(BindingView, ActionView)>::empty(),
    {
        Shortcuts::new()
    }
}

} // verus!
