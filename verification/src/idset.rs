//! Sets of string identifiers, kept as a list in which nothing occurs twice.
//!
//! The list keeps the identifiers in the order in which they first came, so
//! that everything computed from a set is a function of its input alone.

use vstd::prelude::*;

verus! {

/// The texts of a list of strings.
pub open spec fn texts(items: Seq<String>) -> Seq<Seq<char>> {
    items.map_values(|s: String| s@)
}

/// The first occurrences of `ids`, in order.
pub open spec fn distinct(ids: Seq<Seq<char>>) -> Seq<Seq<char>>
    decreases ids.len(),
{
    if ids.len() == 0 {
        Seq::empty()
    } else {
        let before = distinct(ids.drop_last());
        if before.contains(ids.last()) {
            before
        } else {
            before.push(ids.last())
        }
    }
}

/// The members of `ids` that are not in `gone`, in order.
pub open spec fn without(ids: Seq<Seq<char>>, gone: Set<Seq<char>>) -> Seq<Seq<char>>
    decreases ids.len(),
{
    if ids.len() == 0 {
        Seq::empty()
    } else {
        let before = without(ids.drop_last(), gone);
        if gone.contains(ids.last()) {
            before
        } else {
            before.push(ids.last())
        }
    }
}

/// `distinct` keeps exactly the members of its input, each once.
pub proof fn lemma_distinct(ids: Seq<Seq<char>>)
    ensures
        distinct(ids).no_duplicates(),
        distinct(ids).to_set() == ids.to_set(),
        distinct(ids).len() <= ids.len(),
    decreases ids.len(),
{
    if ids.len() > 0 {
        let init = ids.drop_last();
        lemma_distinct(init);
        let before = distinct(init);
        assert forall|x: Seq<char>| distinct(ids).contains(x) <==> ids.contains(x) by {
            if ids.contains(x) {
                let i = choose|i: int| 0 <= i < ids.len() && ids[i] == x;
                if i < ids.len() - 1 {
                    assert(init[i] == x);
                    assert(init.to_set().contains(x));
                    assert(before.to_set().contains(x));
                    let j = choose|j: int| 0 <= j < before.len() && before[j] == x;
                    assert(distinct(ids)[j] == x);
                } else if !before.contains(x) {
                    assert(distinct(ids)[before.len() as int] == x);
                }
            }
            if distinct(ids).contains(x) {
                let j = choose|j: int| 0 <= j < distinct(ids).len() && distinct(ids)[j] == x;
                if j < before.len() {
                    assert(before[j] == x);
                    assert(before.to_set().contains(x));
                    assert(init.to_set().contains(x));
                    let i = choose|i: int| 0 <= i < init.len() && init[i] == x;
                    assert(ids[i] == x);
                } else {
                    assert(ids[ids.len() - 1] == x);
                }
            }
        }
        assert(distinct(ids).to_set() =~= ids.to_set());
    } else {
        assert(distinct(ids).to_set() =~= ids.to_set());
    }
}

/// `without` is set difference, and keeps a list free of repetitions so.
pub proof fn lemma_without(ids: Seq<Seq<char>>, gone: Set<Seq<char>>)
    ensures
        without(ids, gone).to_set() == ids.to_set().difference(gone),
        ids.no_duplicates() ==> without(ids, gone).no_duplicates(),
        without(ids, gone).len() <= ids.len(),
    decreases ids.len(),
{
    if ids.len() > 0 {
        let init = ids.drop_last();
        lemma_without(init, gone);
        let before = without(init, gone);
        let after = without(ids, gone);
        assert forall|x: Seq<char>| after.contains(x) <==> (ids.contains(x) && !gone.contains(
            x,
        )) by {
            if ids.contains(x) && !gone.contains(x) {
                let i = choose|i: int| 0 <= i < ids.len() && ids[i] == x;
                if i < ids.len() - 1 {
                    assert(init[i] == x);
                    assert(init.to_set().difference(gone).contains(x));
                    assert(before.to_set().contains(x));
                    let j = choose|j: int| 0 <= j < before.len() && before[j] == x;
                    assert(after[j] == x);
                } else {
                    assert(after[before.len() as int] == x);
                }
            }
            if after.contains(x) {
                let j = choose|j: int| 0 <= j < after.len() && after[j] == x;
                if j < before.len() {
                    assert(before[j] == x);
                    assert(before.to_set().contains(x));
                    assert(init.to_set().difference(gone).contains(x));
                    let i = choose|i: int| 0 <= i < init.len() && init[i] == x;
                    assert(ids[i] == x);
                } else {
                    assert(ids[ids.len() - 1] == x);
                }
            }
        }
        assert(after.to_set() =~= ids.to_set().difference(gone));
        if ids.no_duplicates() {
            assert(init.no_duplicates());
            if !gone.contains(ids.last()) {
                assert forall|j: int| 0 <= j < before.len() implies before[j] != ids.last() by {
                    assert(before.to_set().contains(before[j]));
                    assert(init.to_set().contains(before[j]));
                    let i = choose|i: int| 0 <= i < init.len() && init[i] == before[j];
                    assert(ids[i] == before[j]);
                }
            }
        }
    } else {
        assert(without(ids, gone).to_set() =~= ids.to_set().difference(gone));
    }
}

/// A set of identifiers.
pub struct IdSet {
    items: Vec<String>,
}

impl View for IdSet {
    type V = Set<Seq<char>>;

    /// The members.
    open spec fn view(&self) -> Set<Seq<char>> {
        self.ids().to_set()
    }
}

impl IdSet {
    /// The members in the order in which they first came.
    pub closed spec fn ids(&self) -> Seq<Seq<char>> {
        texts(self.items@)
    }

    /// Nothing occurs twice.
    pub open spec fn wf(&self) -> bool {
        self.ids().no_duplicates()
    }

    /// The empty set.
    pub fn new() -> (set: IdSet)
        ensures
            set.wf(),
            set.ids() == Seq::<Seq<char>>::empty(),
    {
        let set = IdSet { items: Vec::new() };
        assert(set.ids() =~= Seq::<Seq<char>>::empty());
        set
    }

    /// Number of members.
    pub fn len(&self) -> (n: usize)
        ensures
            n == self.ids().len(),
    {
        self.items.len()
    }

    /// Member number `i`, counted in the order of first arrival.
    pub fn get(&self, i: usize) -> (id: &String)
        requires
            i < self.ids().len(),
        ensures
            id@ == self.ids()[i as int],
    {
        &self.items[i]
    }

    /// Whether `id` is a member.
    pub fn contains(&self, id: &String) -> (found: bool)
        ensures
            found == self.ids().contains(id@),
            found == self@.contains(id@),
    {
        let mut i: usize = 0;
        while i < self.items.len()
            invariant
                i <= self.items@.len(),
                forall|j: int| 0 <= j < i ==> self.ids()[j] != id@,
            decreases self.items@.len() - i,
        {
            if self.items[i] == *id {
                assert(self.ids()[i as int] == id@);
                return true;
            }
            i = i + 1;
        }
        false
    }

    /// Adds `id` unless it is a member already; says whether it was added.
    pub fn insert(&mut self, id: String) -> (added: bool)
        requires
            old(self).wf(),
        ensures
            final(self).wf(),
            added == !old(self).ids().contains(id@),
            final(self).ids() == if added {
                old(self).ids().push(id@)
            } else {
                old(self).ids()
            },
            final(self)@ == old(self)@.insert(id@),
    {
        if self.contains(&id) {
            assert(self@.insert(id@) =~= self@);
            false
        } else {
            let ghost before = self.ids();
            self.items.push(id);
            assert(self.ids() =~= before.push(id@));
            assert(self@ =~= before.to_set().insert(id@)) by {
                assert forall|x: Seq<char>| before.push(id@).contains(x) <==> (before.contains(x)
                    || x == id@) by {
                    if before.contains(x) {
                        let i = choose|i: int| 0 <= i < before.len() && before[i] == x;
                        assert(before.push(id@)[i] == x);
                    }
                    if x == id@ {
                        assert(before.push(id@)[before.len() as int] == x);
                    }
                }
            }
            true
        }
    }

    /// The set of the members of a list: its first occurrences, in order.
    pub fn from_vec(list: &Vec<String>) -> (set: IdSet)
        ensures
            set.wf(),
            set.ids() == distinct(texts(list@)),
            set@ == texts(list@).to_set(),
    {
        let mut set = IdSet::new();
        let mut i: usize = 0;
        while i < list.len()
            invariant
                i <= list@.len(),
                set.wf(),
                set.ids() == distinct(texts(list@).take(i as int)),
            decreases list@.len() - i,
        {
            assert(texts(list@).take(i + 1).drop_last() == texts(list@).take(i as int));
            set.insert(list[i].clone());
            i = i + 1;
        }
        assert(texts(list@).take(list@.len() as int) == texts(list@));
        proof {
            lemma_distinct(texts(list@));
        }
        set
    }

    /// The members of `self` that `other` lacks.
    pub fn difference(&self, other: &IdSet) -> (rest: IdSet)
        requires
            self.wf(),
        ensures
            rest.wf(),
            rest.ids() == without(self.ids(), other@),
            rest@ == self@.difference(other@),
    {
        let mut rest = IdSet { items: Vec::new() };
        assert(rest.ids() =~= Seq::<Seq<char>>::empty());
        let mut i: usize = 0;
        while i < self.items.len()
            invariant
                i <= self.items@.len(),
                rest.ids() == without(self.ids().take(i as int), other@),
            decreases self.items@.len() - i,
        {
            assert(self.ids().take(i + 1).drop_last() == self.ids().take(i as int));
            if !other.contains(&self.items[i]) {
                let ghost before = rest.ids();
                rest.items.push(self.items[i].clone());
                assert(rest.ids() =~= before.push(self.ids()[i as int]));
            }
            i = i + 1;
        }
        assert(self.ids().take(self.items@.len() as int) == self.ids());
        proof {
            lemma_without(self.ids(), other@);
        }
        rest
    }

    /// The members as a list, in the order of first arrival.
    pub fn to_vec(&self) -> (list: Vec<String>)
        ensures
            texts(list@) == self.ids(),
    {
        let mut list: Vec<String> = Vec::new();
        let mut i: usize = 0;
        while i < self.items.len()
            invariant
                i <= self.items@.len(),
                texts(list@) == self.ids().take(i as int),
            decreases self.items@.len() - i,
        {
            let ghost before = texts(list@);
            list.push(self.items[i].clone());
            assert(texts(list@) =~= before.push(self.ids()[i as int]));
            assert(self.ids().take(i + 1) =~= self.ids().take(i as int).push(self.ids()[i as int]));
            i = i + 1;
        }
        assert(self.ids().take(self.items@.len() as int) == self.ids());
        list
    }
}

} // verus!
