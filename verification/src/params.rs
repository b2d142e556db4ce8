//! The mapping from parameter names to the values captured from a request
//! path, modelled as a `Map<Seq<char>, Seq<char>>` and stored as an ordered
//! list of pairs with distinct keys.

use vstd::prelude::*;

verus! {

/// The map described by a list of key-value pairs, later entries winning.
pub open spec fn map_of(s: Seq<(Seq<char>, Seq<char>)>) -> Map<Seq<char>, Seq<char>>
    decreases s.len(),
{
    if s.len() == 0 {
        Map::empty()
    } else {
        map_of(s.drop_last()).insert(s.last().0, s.last().1)
    }
}

/// All keys of the list are distinct.
pub open spec fn distinct_keys(s: Seq<(Seq<char>, Seq<char>)>) -> bool {
    forall|i: int, j: int| 0 <= i < j < s.len() ==> s[i].0 != s[j].0
}

/// A key is in the map described by a list exactly when some pair carries it.
pub proof fn lemma_map_of_contains(s: Seq<(Seq<char>, Seq<char>)>, k: Seq<char>)
    ensures
        map_of(s).contains_key(k) <==> exists|i: int| 0 <= i < s.len() && s[i].0 == k,
    decreases s.len(),
{
    if s.len() > 0 {
        lemma_map_of_contains(s.drop_last(), k);
        if map_of(s).contains_key(k) {
            if s.last().0 == k {
                assert(s[s.len() - 1].0 == k);
            } else {
                let i = choose|i: int| 0 <= i < s.drop_last().len() && s.drop_last()[i].0 == k;
                assert(s[i].0 == k);
            }
        }
        if exists|i: int| 0 <= i < s.len() && s[i].0 == k {
            let i = choose|i: int| 0 <= i < s.len() && s[i].0 == k;
            if i < s.len() - 1 {
                assert(s.drop_last()[i].0 == k);
            }
        }
    }
}

/// With distinct keys, the map sends each listed key to its listed value.
pub proof fn lemma_map_of_index(s: Seq<(Seq<char>, Seq<char>)>, i: int)
    requires
        distinct_keys(s),
        0 <= i < s.len(),
    ensures
        map_of(s).contains_key(s[i].0),
        map_of(s)[s[i].0] == s[i].1,
    decreases s.len(),
{
    lemma_map_of_contains(s, s[i].0);
    if i == s.len() - 1 {
    } else {
        assert(s.drop_last()[i] == s[i]);
        lemma_map_of_index(s.drop_last(), i);
        assert(s[i].0 != s.last().0);
    }
}

/// Replacing the value at position `i` of the list updates the map at that
/// key, when keys are distinct.
pub proof fn lemma_map_of_update(s: Seq<(Seq<char>, Seq<char>)>, i: int, v: Seq<char>)
    requires
        distinct_keys(s),
        0 <= i < s.len(),
    ensures
        map_of(s.update(i, (s[i].0, v))) == map_of(s).insert(s[i].0, v),
    decreases s.len(),
{
    let t = s.update(i, (s[i].0, v));
    if i == s.len() - 1 {
        assert(t.drop_last() =~= s.drop_last());
        assert(map_of(t) =~= map_of(s).insert(s[i].0, v));
    } else {
        assert(t.drop_last() =~= s.drop_last().update(i, (s[i].0, v)));
        assert(s.drop_last()[i] == s[i]);
        lemma_map_of_update(s.drop_last(), i, v);
        assert(t.last() == s.last());
        assert(s[i].0 != s.last().0);
        assert(map_of(t) =~= map_of(s).insert(s[i].0, v));
    }
}

/// Parameter values captured from a request path, keyed by placeholder name.
pub struct Params {
    pub(crate) entries: Vec<(String, String)>,
}

impl View for Params {
    type V = Map<Seq<char>, Seq<char>>;

    closed spec fn view(&self) -> Map<Seq<char>, Seq<char>> {
        map_of(self.entries.deep_view())
    }
}

impl Params {
    /// The entries in insertion order, as character sequences.
    pub closed spec fn kvs(&self) -> Seq<(Seq<char>, Seq<char>)> {
        self.entries.deep_view()
    }

    /// Well-formed: no key occurs twice.
    pub closed spec fn wf(&self) -> bool {
        distinct_keys(self.entries.deep_view())
    }

    /// An empty mapping.
    pub fn new() -> (r: Params)
        ensures
            r@ == Map::<Seq<char>, Seq<char>>::empty(),
            r.wf(),
            r.kvs() == Seq::<(Seq<char>, Seq<char>)>::empty(),
    {
        let r = Params { entries: Vec::new() };
        proof {
            assert(r.entries.deep_view() =~= Seq::<(Seq<char>, Seq<char>)>::empty());
        }
        r
    }

    /// Bind `k` to `v`, replacing any earlier binding of `k`.
    pub fn insert(&mut self, k: String, v: String)
        requires
            old(self).wf(),
        ensures
            final(self).wf(),
            final(self)@ == old(self)@.insert(k@, v@),
            !old(self)@.contains_key(k@) ==> final(self).kvs() == old(self).kvs().push(
                (k@, v@),
            ),
    {
        let ghost s0 = self.entries.deep_view();
        let ghost k0 = k@;
        let ghost v0 = v@;
        let n = self.entries.len();
        let mut i: usize = 0;
        while i < n
            invariant
                n == self.entries.len(),
                0 <= i <= n,
                self.entries.deep_view() == s0,
                s0 == old(self).entries.deep_view(),
                distinct_keys(s0),
                k0 == k@,
                v0 == v@,
                forall|j: int| 0 <= j < i ==> s0[j].0 != k0,
            decreases n - i,
        {
            if self.entries[i].0 == k {
                proof {
                    assert(s0[i as int].0 == k0);
                }
                self.entries.set(i, (k, v));
                proof {
                    assert(self.entries.deep_view() =~= s0.update(i as int, (k0, v0)));
                    lemma_map_of_update(s0, i as int, v0);
                    assert((k0, v0) == (s0[i as int].0, v0));
                    assert(map_of(self.entries.deep_view()) == map_of(s0).insert(k0, v0));
                    assert(distinct_keys(self.entries.deep_view()));
                    lemma_map_of_index(s0, i as int);
                    assert(map_of(s0).contains_key(k0));
                }
                return ;
            }
            i += 1;
        }
        self.entries.push((k, v));
        proof {
            lemma_map_of_contains(s0, k0);
            assert(self.entries.deep_view() =~= s0.push((k0, v0)));
            assert(self.entries.deep_view().drop_last() =~= s0);
            assert forall|a: int, b: int|
                0 <= a < b < self.entries.deep_view().len() implies self.entries.deep_view()[a].0
                != self.entries.deep_view()[b].0 by {
                if b < s0.len() {
                } else {
                    assert(self.entries.deep_view()[b].0 == k0);
                }
            }
        }
    }

    /// Look up the value bound to `k`.
    pub fn get(&self, k: &str) -> (r: Option<&String>)
        requires
            self.wf(),
        ensures
            r is Some <==> self@.contains_key(k@),
            r matches Some(v) ==> v@ == self@[k@],
    {
        let kk = String::from_str(k);
        let n = self.entries.len();
        let mut i: usize = 0;
        proof {
            lemma_map_of_contains(self.entries.deep_view(), k@);
        }
        while i < n
            invariant
                n == self.entries.len(),
                0 <= i <= n,
                self.wf(),
                kk@ == k@,
                forall|j: int| 0 <= j < i ==> self.entries.deep_view()[j].0 != k@,
            decreases n - i,
        {
            if self.entries[i].0 == kk {
                proof {
                    lemma_map_of_index(self.entries.deep_view(), i as int);
                }
                return Some(&self.entries[i].1);
            }
            i += 1;
        }
        proof {
            lemma_map_of_contains(self.entries.deep_view(), k@);
        }
        None
    }

    /// The entries in insertion order, for serialization.
    pub fn entries_vec(&self) -> (r: &Vec<(String, String)>)
        ensures
            r.deep_view() == self.kvs(),
    {
        &self.entries
    }

    /// Whether `k` is bound.
    pub fn contains_key(&self, k: &str) -> (r: bool)
        requires
            self.wf(),
        ensures
            r == self@.contains_key(k@),
    {
        self.get(k).is_some()
    }
}

} // verus!
