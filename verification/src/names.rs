//! Sets of names.

use vstd::prelude::*;

use crate::text::{same, texts};

verus! {

/// A set of names. No name is held twice.
#[derive(Debug)]
pub struct NameSet {
    pub names: Vec<String>,
}

impl View for NameSet {
    type V = Set<Seq<char>>;

    open spec fn view(&self) -> Set<Seq<char>> {
        Set::new(|t: Seq<char>| texts(self.names@).contains(t))
    }
}

/// The first position at or after `i` of a name, or the length.
pub open spec fn name_at(rows: Seq<Seq<char>>, name: Seq<char>, i: int) -> int
    decreases rows.len() - i,
{
    if i >= rows.len() {
        rows.len() as int
    } else if rows[i] == name {
        i
    } else {
        name_at(rows, name, i + 1)
    }
}

/// The names without one of them.
pub open spec fn without_name(rows: Seq<Seq<char>>, name: Seq<char>) -> Seq<Seq<char>> {
    let i = name_at(rows, name, 0);
    if i < rows.len() {
        rows.remove(i)
    } else {
        rows
    }
}

/// A position of a name with none before it is the first one.
pub proof fn lemma_name_at_is(rows: Seq<Seq<char>>, name: Seq<char>, i: int, at: int)
    requires
        0 <= i <= at <= rows.len(),
        at < rows.len() ==> rows[at] == name,
        forall|k: int| i <= k < at ==> #[trigger] rows[k] != name,
    ensures
        name_at(rows, name, i) == at,
    decreases at - i,
{
    if i < at {
        lemma_name_at_is(rows, name, i + 1, at);
    }
}

proof fn lemma_name_at(rows: Seq<Seq<char>>, name: Seq<char>, i: int)
    requires
        0 <= i <= rows.len(),
    ensures
        i <= name_at(rows, name, i) <= rows.len(),
        name_at(rows, name, i) < rows.len() ==> rows[name_at(rows, name, i)] == name,
        forall|k: int| i <= k < name_at(rows, name, i) ==> #[trigger] rows[k] != name,
    decreases rows.len() - i,
{
    if i < rows.len() && rows[i] != name {
        lemma_name_at(rows, name, i + 1);
    }
}

/// A name that was taken out of a list without repetition is no longer in it.
pub proof fn lemma_without_name(rows: Seq<Seq<char>>, name: Seq<char>)
    requires
        rows.no_duplicates(),
    ensures
        !without_name(rows, name).contains(name),
{
    lemma_name_at(rows, name, 0);
    let at = name_at(rows, name, 0);
    let out = without_name(rows, name);
    if at < rows.len() {
        assert forall|k: int| 0 <= k < out.len() implies #[trigger] out[k] != name by {
            if k < at {
                assert(out[k] == rows[k]);
            } else {
                assert(out[k] == rows[k + 1]);
            }
        }
    }
}

impl NameSet {
    /// The names in the order in which they came.
    pub open spec fn order(self) -> Seq<Seq<char>> {
        texts(self.names@)
    }

    /// Whether no name is held twice.
    pub open spec fn wf(self) -> bool {
        texts(self.names@).no_duplicates()
    }

    /// The empty set.
    pub fn new() -> (s: Self)
        ensures
            s.wf(),
            s@ == Set::<Seq<char>>::empty(),
            s.order() == Seq::<Seq<char>>::empty(),
    {
        let s = NameSet { names: Vec::new() };
        assert(s@ =~= Set::<Seq<char>>::empty());
        assert(s.order() =~= Seq::<Seq<char>>::empty());
        s
    }

    fn position(&self, name: &str) -> (i: usize)
        ensures
            i == name_at(self.order(), name@, 0),
            i <= self.names@.len(),
            i < self.names@.len() ==> self.names@[i as int]@ == name@,
            forall|k: int| 0 <= k < i ==> (#[trigger] self.names@[k])@ != name@,
    {
        let mut i: usize = 0;
        while i < self.names.len()
            invariant
                i <= self.names@.len(),
                name_at(self.order(), name@, 0) == name_at(self.order(), name@, i as int),
                forall|k: int| 0 <= k < i ==> (#[trigger] self.names@[k])@ != name@,
            decreases self.names@.len() - i,
        {
            assert(self.order()[i as int] == self.names@[i as int]@);
            if same(self.names[i].as_str(), name) {
                return i;
            }
            i += 1;
        }
        i
    }

    /// Whether a name is in the set.
    pub fn contains(&self, name: &str) -> (res: bool)
        ensures
            res == self@.contains(name@),
    {
        let i: usize = self.position(name);
        let ghost rows = texts(self.names@);
        if i < self.names.len() {
            assert(rows[i as int] == name@);
            true
        } else {
            assert(forall|k: int| 0 <= k < rows.len() ==> #[trigger] rows[k] == self.names@[k]@);
            false
        }
    }

    /// Puts a name into the set, and says whether it was new.
    pub fn insert(&mut self, name: &str) -> (added: bool)
        requires
            old(self).wf(),
        ensures
            final(self).wf(),
            added == !old(self)@.contains(name@),
            final(self)@ == old(self)@.insert(name@),
            final(self).order() == (if added {
                old(self).order().push(name@)
            } else {
                old(self).order()
            }),
    {
        if self.contains(name) {
            assert(self@ =~= old(self)@.insert(name@));
            return false;
        }
        let ghost rows = texts(self.names@);
        self.names.push(name.to_owned());
        let ghost out = texts(self.names@);
        assert(out =~= rows.push(name@));
        assert forall|t: Seq<char>| self@.contains(t) <==> old(self)@.insert(name@).contains(t) by {
            if out.contains(t) {
                let w = choose|w: int| 0 <= w < out.len() && out[w] == t;
                if w < rows.len() {
                    assert(rows[w] == t);
                }
            }
            if rows.contains(t) {
                let w = choose|w: int| 0 <= w < rows.len() && rows[w] == t;
                assert(out[w] == t);
            }
            assert(out[rows.len() as int] == name@);
        }
        assert(self@ =~= old(self)@.insert(name@));
        true
    }

    /// Takes a name out of the set, and says whether it was there.
    pub fn remove(&mut self, name: &str) -> (removed: bool)
        requires
            old(self).wf(),
        ensures
            final(self).wf(),
            removed == old(self)@.contains(name@),
            final(self)@ == old(self)@.remove(name@),
            final(self).order() == without_name(old(self).order(), name@),
    {
        let i: usize = self.position(name);
        let ghost rows = texts(self.names@);
        assert(forall|k: int| 0 <= k < rows.len() ==> #[trigger] rows[k] == self.names@[k]@);
        if i >= self.names.len() {
            assert(!rows.contains(name@));
            assert(self@ =~= old(self)@.remove(name@));
            return false;
        }
        assert(rows[i as int] == name@);
        self.names.remove(i);
        let ghost out = texts(self.names@);
        assert(out =~= rows.remove(i as int));
        assert forall|t: Seq<char>| self@.contains(t) <==> old(self)@.remove(name@).contains(t) by {
            if out.contains(t) {
                let w = choose|w: int| 0 <= w < out.len() && out[w] == t;
                if w < i {
                    assert(rows[w] == t);
                } else {
                    assert(rows[w + 1] == t);
                }
            }
            if rows.contains(t) && t != name@ {
                let w = choose|w: int| 0 <= w < rows.len() && rows[w] == t;
                if w < i {
                    assert(out[w] == t);
                } else {
                    assert(out[w - 1] == t);
                }
            }
        }
        assert(self@ =~= old(self)@.remove(name@));
        true
    }

    /// Whether the set is empty.
    pub fn is_empty(&self) -> (res: bool)
        ensures
            res == (self@ == Set::<Seq<char>>::empty()),
    {
        let ghost rows = texts(self.names@);
        if self.names.len() == 0 {
            assert(self@ =~= Set::<Seq<char>>::empty());
            true
        } else {
            assert(rows.contains(rows[0]));
            assert(self@.contains(rows[0]));
            false
        }
    }
}

} // verus!
