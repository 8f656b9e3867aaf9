//! A string-keyed map of strings, stored as a vector of pairs and viewed as a
//! mathematical `Map<Seq<char>, Seq<char>>`. Later insertions of an existing
//! key shadow earlier ones, so `insert` is plain `push` and lookups scan from
//! the most recent entry backwards.

use vstd::prelude::*;

verus! {

/// The map denoted by a sequence of key/value pairs: each pair is inserted in
/// order, so the last occurrence of a key wins.
pub open spec fn str_pairs_map(s: Seq<(String, String)>) -> Map<Seq<char>, Seq<char>>
    decreases s.len(),
{
    if s.len() == 0 {
        Map::empty()
    } else {
        str_pairs_map(s.drop_last()).insert(s.last().0@, s.last().1@)
    }
}

/// A map from attribute names to strings (operator configurations, rename
/// pairs, variable bindings).
#[derive(PartialEq, Eq, Debug)]
pub struct StrMap {
    pub items: Vec<(String, String)>,
}

impl View for StrMap {
    type V = Map<Seq<char>, Seq<char>>;

    open spec fn view(&self) -> Map<Seq<char>, Seq<char>> {
        str_pairs_map(self.items@)
    }
}

/// Lookup in the first `n` pairs of `items`, later pairs taking precedence.
fn get_prefix<'a>(items: &'a Vec<(String, String)>, n: usize, key: &String) -> (r: Option<
    &'a String,
>)
    requires
        n <= items@.len(),
    ensures
        match r {
            Some(v) => str_pairs_map(items@.take(n as int)).contains_key(key@) && v@
                == str_pairs_map(items@.take(n as int))[key@],
            None => !str_pairs_map(items@.take(n as int)).contains_key(key@),
        },
    decreases n,
{
    if n == 0 {
        proof {
            assert(items@.take(0) =~= Seq::<(String, String)>::empty());
        }
        None
    } else {
        proof {
            assert(items@.take(n as int).drop_last() =~= items@.take(n as int - 1));
            assert(items@.take(n as int).last() == items@[n as int - 1]);
        }
        let entry = &items[n - 1];
        if entry.0 == *key {
            Some(&entry.1)
        } else {
            get_prefix(items, n - 1, key)
        }
    }
}

impl StrMap {
    pub fn new() -> (r: StrMap)
        ensures
            r@ == Map::<Seq<char>, Seq<char>>::empty(),
    {
        StrMap { items: Vec::new() }
    }

    /// Binds `key` to `value`, shadowing any earlier binding of `key`.
    pub fn insert(&mut self, key: String, value: String)
        ensures
            final(self)@ == old(self)@.insert(key@, value@),
    {
        let ghost before = self.items@;
        let ghost k = key@;
        let ghost v = value@;
        self.items.push((key, value));
        proof {
            assert(self.items@.drop_last() =~= before);
        }
    }

    pub fn get<'a>(&'a self, key: &String) -> (r: Option<&'a String>)
        ensures
            match r {
                Some(v) => self@.contains_key(key@) && v@ == self@[key@],
                None => !self@.contains_key(key@),
            },
    {
        proof {
            assert(self.items@.take(self.items@.len() as int) =~= self.items@);
        }
        get_prefix(&self.items, self.items.len(), key)
    }

    /// A copy holding the same pairs.
    pub fn duplicate(&self) -> (r: StrMap)
        ensures
            r.items@ == self.items@,
            r@ == self@,
    {
        let n = self.items.len();
        let mut items: Vec<(String, String)> = Vec::new();
        let mut i: usize = 0;
        while i < n
            invariant
                i <= n,
                n == self.items@.len(),
                items@ == self.items@.take(i as int),
            decreases n - i,
        {
            let entry = &self.items[i];
            items.push((entry.0.clone(), entry.1.clone()));
            proof {
                assert(items@ =~= self.items@.take(i + 1));
            }
            i = i + 1;
        }
        proof {
            assert(self.items@.take(n as int) =~= self.items@);
        }
        StrMap { items }
    }

    pub fn contains_key(&self, key: &String) -> (r: bool)
        ensures
            r == self@.contains_key(key@),
    {
        match self.get(key) {
            Some(_) => true,
            None => false,
        }
    }
}

} // verus!
