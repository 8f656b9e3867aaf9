//! A set of attribute (source field) names, stored as a duplicate-free vector
//! of strings and viewed as a mathematical `Set<Seq<char>>`.

use vstd::prelude::*;

verus! {

/// The views of a sequence of strings.
pub open spec fn strs_view(s: Seq<String>) -> Seq<Seq<char>> {
    s.map_values(|x: String| x@)
}

/// A copy of a vector of strings holding the same values.
pub fn clone_strings(v: &Vec<String>) -> (r: Vec<String>)
    ensures
        r@ == v@,
{
    let n = v.len();
    let mut r: Vec<String> = Vec::new();
    let mut i: usize = 0;
    while i < n
        invariant
            i <= n,
            n == v@.len(),
            r@ == v@.take(i as int),
        decreases n - i,
    {
        r.push(v[i].clone());
        proof {
            assert(r@ =~= v@.take(i + 1));
        }
        i = i + 1;
    }
    proof {
        assert(v@.take(n as int) =~= v@);
    }
    r
}

/// The set denoted by a sequence grows by exactly the pushed element.
pub proof fn lemma_to_set_push<A>(s: Seq<A>, x: A)
    ensures
        s.push(x).to_set() == s.to_set().insert(x),
{
    assert forall|a: A| s.push(x).to_set().contains(a) implies s.to_set().insert(x).contains(
        a,
    ) by {
        let j = choose|j: int| 0 <= j < s.push(x).len() && s.push(x)[j] == a;
        if j < s.len() {
            assert(s[j] == a);
        }
    }
    assert forall|a: A| s.to_set().insert(x).contains(a) implies s.push(x).to_set().contains(
        a,
    ) by {
        if s.to_set().contains(a) {
            let j = choose|j: int| 0 <= j < s.len() && s[j] == a;
            assert(s.push(x)[j] == a);
        } else {
            assert(s.push(x)[s.len() as int] == a);
        }
    }
    assert(s.push(x).to_set() =~= s.to_set().insert(x));
}

/// A set of attribute names.
#[derive(PartialEq, Eq, Debug)]
pub struct AttrSet {
    pub items: Vec<String>,
}

impl View for AttrSet {
    type V = Set<Seq<char>>;

    open spec fn view(&self) -> Set<Seq<char>> {
        strs_view(self.items@).to_set()
    }
}

impl AttrSet {
    pub fn new() -> (r: AttrSet)
        ensures
            r@ == Set::<Seq<char>>::empty(),
    {
        let r = AttrSet { items: Vec::new() };
        proof {
            assert(r@ =~= Set::<Seq<char>>::empty());
        }
        r
    }

    pub fn contains(&self, name: &String) -> (r: bool)
        ensures
            r == self@.contains(name@),
    {
        let n = self.items.len();
        let mut i: usize = 0;
        while i < n
            invariant
                i <= n,
                n == self.items@.len(),
                forall|j: int| 0 <= j < i ==> self.items@[j]@ != name@,
            decreases n - i,
        {
            if self.items[i] == *name {
                proof {
                    assert(strs_view(self.items@)[i as int] == name@);
                }
                return true;
            }
            i = i + 1;
        }
        proof {
            assert(!strs_view(self.items@).contains(name@)) by {
                assert(forall|j: int|
                    0 <= j < strs_view(self.items@).len() ==> strs_view(self.items@)[j]
                        != name@);
            }
        }
        false
    }

    /// Adds `name` to the set.
    pub fn insert(&mut self, name: String)
        ensures
            final(self)@ == old(self)@.insert(name@),
    {
        if self.contains(&name) {
            proof {
                assert(final(self)@ =~= old(self)@.insert(name@));
            }
        } else {
            let ghost before = self.items@;
            self.items.push(name);
            proof {
                assert(strs_view(self.items@) =~= strs_view(before).push(name@));
                lemma_to_set_push(strs_view(before), name@);
                assert(self@ =~= old(self)@.insert(name@));
            }
        }
    }

    /// Adds every name of `other` to the set.
    pub fn add_all(&mut self, other: &AttrSet)
        ensures
            final(self)@ == old(self)@.union(other@),
    {
        let n = other.items.len();
        let mut i: usize = 0;
        while i < n
            invariant
                i <= n,
                n == other.items@.len(),
                self@ == old(self)@.union(strs_view(other.items@.take(i as int)).to_set()),
            decreases n - i,
        {
            let ghost mid = self@;
            self.insert(other.items[i].clone());
            proof {
                assert(strs_view(other.items@.take(i + 1)) =~= strs_view(
                    other.items@.take(i as int),
                ).push(other.items@[i as int]@));
                lemma_to_set_push(
                    strs_view(other.items@.take(i as int)),
                    other.items@[i as int]@,
                );
                assert(self@ =~= old(self)@.union(
                    strs_view(other.items@.take(i + 1)).to_set(),
                ));
            }
            i = i + 1;
        }
        proof {
            assert(other.items@.take(n as int) =~= other.items@);
            assert(self@ =~= old(self)@.union(other@));
        }
    }

    /// Adds every name of `names` to the set.
    pub fn add_all_vec(&mut self, names: &Vec<String>)
        ensures
            final(self)@ == old(self)@.union(strs_view(names@).to_set()),
    {
        let n = names.len();
        let mut i: usize = 0;
        while i < n
            invariant
                i <= n,
                n == names@.len(),
                self@ == old(self)@.union(strs_view(names@.take(i as int)).to_set()),
            decreases n - i,
        {
            self.insert(names[i].clone());
            proof {
                assert(strs_view(names@.take(i + 1)) =~= strs_view(names@.take(i as int)).push(
                    names@[i as int]@,
                ));
                lemma_to_set_push(strs_view(names@.take(i as int)), names@[i as int]@);
                assert(self@ =~= old(self)@.union(strs_view(names@.take(i + 1)).to_set()));
            }
            i = i + 1;
        }
        proof {
            assert(names@.take(n as int) =~= names@);
            assert(self@ =~= old(self)@.union(strs_view(names@).to_set()));
        }
    }

    /// Whether the two sets hold the same names.
    pub fn set_eq(&self, other: &AttrSet) -> (r: bool)
        ensures
            r == (self@ == other@),
    {
        let r1 = self.subset_of(other);
        let r2 = other.subset_of(self);
        proof {
            if r1 && r2 {
                assert(self@ =~= other@);
            }
        }
        r1 && r2
    }

    /// Whether every name of this set is in `other`.
    pub fn subset_of(&self, other: &AttrSet) -> (r: bool)
        ensures
            r == self@.subset_of(other@),
    {
        let n = self.items.len();
        let mut i: usize = 0;
        while i < n
            invariant
                i <= n,
                n == self.items@.len(),
                forall|j: int| 0 <= j < i ==> other@.contains(#[trigger] self.items@[j]@),
            decreases n - i,
        {
            if !other.contains(&self.items[i]) {
                proof {
                    assert(strs_view(self.items@)[i as int] == self.items@[i as int]@);
                    assert(self@.contains(self.items@[i as int]@));
                }
                return false;
            }
            i = i + 1;
        }
        proof {
            assert forall|a: Seq<char>| self@.contains(a) implies other@.contains(a) by {
                let j = choose|j: int|
                    0 <= j < strs_view(self.items@).len() && strs_view(self.items@)[j] == a;
                assert(self.items@[j]@ == a);
            }
        }
        true
    }
}

} // verus!
