//! Parameter sets: mappings from parameter name to parameter value, kept so
//! that they can be enumerated in signing order.

use vstd::prelude::*;

use crate::order::compare_names;
use crate::order::lemma_name_lt_asymmetric;
use crate::order::lemma_name_lt_irreflexive;
use crate::order::lemma_name_lt_total;
use crate::order::lemma_name_lt_transitive;
use crate::order::name_lt;
use crate::order::NameOrder;

verus! {

/// One parameter: its name and its value.
pub type Pair = (Seq<char>, Seq<char>);

/// A mapping from parameter name to parameter value.
pub type Parameters = Map<Seq<char>, Seq<char>>;

/// Some pair of `s` carries the name `k`.
pub open spec fn has_name(s: Seq<Pair>, k: Seq<char>) -> bool {
    exists|i: int| 0 <= i < s.len() && (#[trigger] s[i]).0 == k
}

/// An index at which `s` carries the name `k`, if there is one.
pub open spec fn index_of(s: Seq<Pair>, k: Seq<char>) -> int {
    choose|i: int| 0 <= i < s.len() && (#[trigger] s[i]).0 == k
}

/// The names of `s` ascend strictly; in particular no name occurs twice.
pub open spec fn ascending(s: Seq<Pair>) -> bool {
    forall|i: int, j: int|
        0 <= i < j < s.len() ==> name_lt((#[trigger] s[i]).0, (#[trigger] s[j]).0)
}

/// The mapping that a list of pairs stands for.
pub open spec fn as_map(s: Seq<Pair>) -> Parameters {
    Map::new(|k: Seq<char>| has_name(s, k), |k: Seq<char>| s[index_of(s, k)].1)
}

/// `s` lists the parameters of `m`, each once, in signing order.
pub open spec fn lists(s: Seq<Pair>, m: Parameters) -> bool {
    ascending(s) && as_map(s) == m
}

/// The parameters of `m` in signing order: strictly ascending by name.
pub open spec fn canonical(m: Parameters) -> Seq<Pair> {
    choose|s: Seq<Pair>| lists(s, m)
}

/// In an ascending list every name is found at its own index only.
pub proof fn lemma_ascending_lookup(s: Seq<Pair>, i: int)
    requires
        ascending(s),
        0 <= i < s.len(),
    ensures
        has_name(s, s[i].0),
        index_of(s, s[i].0) == i,
        as_map(s).dom().contains(s[i].0),
        as_map(s)[s[i].0] == s[i].1,
{
    let k = s[i].0;
    let j = index_of(s, k);
    assert(0 <= j < s.len() && s[j].0 == k);
    lemma_name_lt_irreflexive(k);
}

/// The mapping of any list of pairs has finitely many names.
pub proof fn lemma_as_map_finite(s: Seq<Pair>)
    ensures
        as_map(s).dom().finite(),
    decreases s.len(),
{
    if s.len() == 0 {
        assert(as_map(s).dom() =~= Set::<Seq<char>>::empty());
    } else {
        let init = s.drop_last();
        lemma_as_map_finite(init);
        assert forall|k: Seq<char>| has_name(s, k) <==> (has_name(init, k) || k == s.last().0) by {
            if has_name(s, k) {
                let i = index_of(s, k);
                if i < s.len() - 1 {
                    assert(init[i].0 == k);
                }
            }
            if has_name(init, k) {
                let i = index_of(init, k);
                assert(s[i].0 == k);
            }
            if k == s.last().0 {
                assert(s[s.len() - 1].0 == k);
            }
        }
        assert(as_map(s).dom() =~= as_map(init).dom().insert(s.last().0));
    }
}

/// A name that sorts between the pairs of a list is none of its names.
pub proof fn lemma_between_is_absent(s: Seq<Pair>, p: int, k: Seq<char>)
    requires
        0 <= p <= s.len(),
        forall|i: int| 0 <= i < p ==> name_lt((#[trigger] s[i]).0, k),
        forall|i: int| p <= i < s.len() ==> name_lt(k, (#[trigger] s[i]).0),
    ensures
        !has_name(s, k),
        !as_map(s).dom().contains(k),
{
    lemma_name_lt_irreflexive(k);
}

/// Putting a pair with a new name at its place in an ascending list keeps
/// the list ascending and adds the pair to the mapping.
pub proof fn lemma_insert_fresh(s: Seq<Pair>, p: int, k: Seq<char>, v: Seq<char>)
    requires
        ascending(s),
        0 <= p <= s.len(),
        forall|i: int| 0 <= i < p ==> name_lt((#[trigger] s[i]).0, k),
        forall|i: int| p <= i < s.len() ==> name_lt(k, (#[trigger] s[i]).0),
    ensures
        ascending(s.insert(p, (k, v))),
        as_map(s.insert(p, (k, v))) == as_map(s).insert(k, v),
{
    let t = s.insert(p, (k, v));
    lemma_between_is_absent(s, p, k);
    assert forall|i: int, j: int| 0 <= i < j < t.len() implies name_lt(
        (#[trigger] t[i]).0,
        (#[trigger] t[j]).0,
    ) by {
        let si = if i < p { i } else { i - 1 };
        let sj = if j < p { j } else { j - 1 };
        if i == p {
            assert(t[j] == s[sj]);
        } else if j == p {
            assert(t[i] == s[si]);
        } else {
            assert(t[i] == s[si]);
            assert(t[j] == s[sj]);
        }
    }
    assert forall|n: Seq<char>| has_name(t, n) <==> (has_name(s, n) || n == k) by {
        if has_name(t, n) {
            let i = index_of(t, n);
            if i < p {
                assert(s[i].0 == n);
            } else if i > p {
                assert(s[i - 1].0 == n);
            }
        }
        if has_name(s, n) {
            let i = index_of(s, n);
            if i < p {
                assert(t[i].0 == n);
            } else {
                assert(t[i + 1].0 == n);
            }
        }
        if n == k {
            assert(t[p].0 == n);
        }
    }
    assert forall|n: Seq<char>| has_name(t, n) implies #[trigger] as_map(t)[n] == as_map(s).insert(
        k,
        v,
    )[n] by {
        let i = index_of(t, n);
        lemma_ascending_lookup(t, i);
        if i < p {
            lemma_ascending_lookup(s, i);
        } else if i > p {
            lemma_ascending_lookup(s, i - 1);
        }
    }
    assert(as_map(t) =~= as_map(s).insert(k, v));
}

/// Giving a name of an ascending list another value keeps the list
/// ascending and overwrites the value in the mapping.
pub proof fn lemma_replace_value(s: Seq<Pair>, p: int, v: Seq<char>)
    requires
        ascending(s),
        0 <= p < s.len(),
    ensures
        ascending(s.update(p, (s[p].0, v))),
        as_map(s.update(p, (s[p].0, v))) == as_map(s).insert(s[p].0, v),
{
    let k = s[p].0;
    let t = s.update(p, (k, v));
    assert forall|i: int, j: int| 0 <= i < j < t.len() implies name_lt(
        (#[trigger] t[i]).0,
        (#[trigger] t[j]).0,
    ) by {
        assert(t[i].0 == s[i].0);
        assert(t[j].0 == s[j].0);
    }
    assert forall|n: Seq<char>| has_name(t, n) <==> has_name(s, n) by {
        if has_name(t, n) {
            let i = index_of(t, n);
            assert(s[i].0 == n);
        }
        if has_name(s, n) {
            let i = index_of(s, n);
            assert(t[i].0 == n);
        }
    }
    lemma_ascending_lookup(s, p);
    assert forall|n: Seq<char>| has_name(t, n) implies #[trigger] as_map(t)[n] == as_map(s).insert(
        k,
        v,
    )[n] by {
        let i = index_of(t, n);
        lemma_ascending_lookup(t, i);
        if i != p {
            lemma_ascending_lookup(s, i);
        }
    }
    assert(as_map(t) =~= as_map(s).insert(k, v));
}

/// Dropping the first pair of an ascending list keeps the list ascending
/// and removes that pair's name from the mapping.
proof fn lemma_drop_first(s: Seq<Pair>)
    requires
        ascending(s),
        s.len() > 0,
    ensures
        ascending(s.drop_first()),
        as_map(s.drop_first()) == as_map(s).remove(s[0].0),
{
    let t = s.drop_first();
    assert forall|i: int, j: int| 0 <= i < j < t.len() implies name_lt(
        (#[trigger] t[i]).0,
        (#[trigger] t[j]).0,
    ) by {
        assert(t[i] == s[i + 1]);
        assert(t[j] == s[j + 1]);
    }
    assert forall|n: Seq<char>| has_name(t, n) <==> (has_name(s, n) && n != s[0].0) by {
        if has_name(t, n) {
            let i = index_of(t, n);
            assert(s[i + 1].0 == n);
            lemma_ascending_lookup(s, i + 1);
            lemma_ascending_lookup(s, 0);
        }
        if has_name(s, n) && n != s[0].0 {
            let i = index_of(s, n);
            assert(t[i - 1].0 == n);
        }
    }
    assert forall|n: Seq<char>| has_name(t, n) implies #[trigger] as_map(t)[n] == as_map(s)[n] by {
        let i = index_of(t, n);
        lemma_ascending_lookup(t, i);
        lemma_ascending_lookup(s, i + 1);
    }
    assert(as_map(t) =~= as_map(s).remove(s[0].0));
}

/// The first name of an ascending list sorts before every other name of
/// its mapping.
proof fn lemma_first_is_least(s: Seq<Pair>, k: Seq<char>)
    requires
        ascending(s),
        s.len() > 0,
        as_map(s).dom().contains(k),
    ensures
        k == s[0].0 || name_lt(s[0].0, k),
{
    let i = index_of(s, k);
    assert(0 <= i < s.len() && s[i].0 == k);
}

/// A mapping has one listing in signing order at most.
pub proof fn lemma_lists_unique(s: Seq<Pair>, t: Seq<Pair>, m: Parameters)
    requires
        lists(s, m),
        lists(t, m),
    ensures
        s == t,
    decreases s.len(),
{
    if s.len() == 0 {
        if t.len() > 0 {
            lemma_ascending_lookup(t, 0);
        }
        assert(s =~= t);
    } else {
        lemma_ascending_lookup(s, 0);
        if t.len() == 0 {
            assert(!has_name(t, s[0].0));
        }
        lemma_ascending_lookup(t, 0);
        lemma_first_is_least(s, t[0].0);
        lemma_first_is_least(t, s[0].0);
        if s[0].0 != t[0].0 {
            lemma_name_lt_asymmetric(s[0].0, t[0].0);
        }
        lemma_drop_first(s);
        lemma_drop_first(t);
        lemma_lists_unique(s.drop_first(), t.drop_first(), m.remove(s[0].0));
        assert(s =~= seq![s[0]] + s.drop_first());
        assert(t =~= seq![t[0]] + t.drop_first());
    }
}

/// In an ascending list that lacks the name `k` there is a place at which
/// `k` belongs.
proof fn lemma_place_exists(s: Seq<Pair>, k: Seq<char>) -> (p: int)
    requires
        ascending(s),
        !has_name(s, k),
    ensures
        0 <= p <= s.len(),
        forall|i: int| 0 <= i < p ==> name_lt((#[trigger] s[i]).0, k),
        forall|i: int| p <= i < s.len() ==> name_lt(k, (#[trigger] s[i]).0),
    decreases s.len(),
{
    if s.len() == 0 {
        0
    } else {
        let last = s.len() - 1;
        assert(s[last].0 != k);
        lemma_name_lt_total(s[last].0, k);
        if name_lt(s[last].0, k) {
            assert forall|i: int| 0 <= i < s.len() implies name_lt((#[trigger] s[i]).0, k) by {
                if i < last {
                    lemma_name_lt_transitive(s[i].0, s[last].0, k);
                }
            }
            s.len() as int
        } else {
            let init = s.drop_last();
            assert forall|i: int, j: int| 0 <= i < j < init.len() implies name_lt(
                (#[trigger] init[i]).0,
                (#[trigger] init[j]).0,
            ) by {
                assert(init[i] == s[i]);
                assert(init[j] == s[j]);
            }
            if has_name(init, k) {
                let i = index_of(init, k);
                assert(s[i].0 == k);
            }
            let p = lemma_place_exists(init, k);
            assert forall|i: int| 0 <= i < p implies name_lt((#[trigger] s[i]).0, k) by {
                assert(init[i] == s[i]);
            }
            assert forall|i: int| p <= i < s.len() implies name_lt(k, (#[trigger] s[i]).0) by {
                if i < last {
                    assert(init[i] == s[i]);
                }
            }
            p
        }
    }
}

/// Every mapping with finitely many names has a listing in signing order,
/// and `canonical` is that listing.
pub proof fn lemma_canonical_lists(m: Parameters)
    requires
        m.dom().finite(),
    ensures
        lists(canonical(m), m),
    decreases m.dom().len(),
{
    if m.dom().len() == 0 {
        let s = Seq::<Pair>::empty();
        assert(m.dom() =~= Set::<Seq<char>>::empty());
        assert(as_map(s) =~= m);
        assert(lists(s, m));
    } else {
        let k = m.dom().choose();
        let rest = m.remove(k);
        lemma_canonical_lists(rest);
        let s = canonical(rest);
        let p = lemma_place_exists(s, k);
        lemma_insert_fresh(s, p, k, m[k]);
        assert(rest.insert(k, m[k]) =~= m);
        assert(lists(s.insert(p, (k, m[k])), m));
    }
}

/// A listing in signing order is the canonical one.
pub proof fn lemma_lists_is_canonical(s: Seq<Pair>, m: Parameters)
    requires
        lists(s, m),
    ensures
        canonical(m) == s,
{
    lemma_lists_unique(canonical(m), s, m);
}

/// A parameter with a new name takes one place in the signing order and
/// leaves the others in their order.
pub proof fn lemma_canonical_insert_fresh(m: Parameters, k: Seq<char>, v: Seq<char>) -> (p: int)
    requires
        m.dom().finite(),
        !m.dom().contains(k),
    ensures
        0 <= p <= canonical(m).len(),
        canonical(m.insert(k, v)) == canonical(m).insert(p, (k, v)),
{
    lemma_canonical_lists(m);
    let s = canonical(m);
    let p = lemma_place_exists(s, k);
    lemma_insert_fresh(s, p, k, v);
    lemma_lists_is_canonical(s.insert(p, (k, v)), m.insert(k, v));
    p
}

/// Another value for a name that is there changes the value in place.
pub proof fn lemma_canonical_replace(m: Parameters, k: Seq<char>, v: Seq<char>) -> (p: int)
    requires
        m.dom().finite(),
        m.dom().contains(k),
    ensures
        0 <= p < canonical(m).len(),
        canonical(m)[p] == (k, m[k]),
        canonical(m.insert(k, v)) == canonical(m).update(p, (k, v)),
{
    lemma_canonical_lists(m);
    let s = canonical(m);
    let p = index_of(s, k);
    lemma_ascending_lookup(s, p);
    lemma_replace_value(s, p, v);
    lemma_lists_is_canonical(s.update(p, (k, v)), m.insert(k, v));
    p
}

/// An ascending list has as many pairs as its mapping has names.
pub proof fn lemma_ascending_len(s: Seq<Pair>)
    requires
        ascending(s),
    ensures
        as_map(s).dom().finite(),
        as_map(s).dom().len() == s.len(),
    decreases s.len(),
{
    lemma_as_map_finite(s);
    if s.len() == 0 {
        assert(as_map(s).dom() =~= Set::<Seq<char>>::empty());
    } else {
        lemma_drop_first(s);
        lemma_ascending_len(s.drop_first());
        lemma_ascending_lookup(s, 0);
        assert(as_map(s).dom().remove(s[0].0) =~= as_map(s.drop_first()).dom());
    }
}

/// The pairs that a vector of strings holds.
pub open spec fn pairs_of(v: Seq<(String, String)>) -> Seq<Pair> {
    Seq::new(v.len(), |i: int| (v[i].0@, v[i].1@))
}

/// A set of request parameters: each name once, with its value.
///
/// The set keeps its parameters in signing order, so that whatever the order
/// in which they were put in, they are enumerated by ascending name.
#[derive(Debug)]
pub struct ParameterSet {
    entries: Vec<(String, String)>,
}

impl View for ParameterSet {
    type V = Parameters;

    closed spec fn view(&self) -> Parameters {
        as_map(pairs_of(self.entries@))
    }
}

impl ParameterSet {
    #[verifier::type_invariant]
    spec fn ordered(&self) -> bool {
        ascending(pairs_of(self.entries@))
    }

    /// A parameter set has finitely many names.
    pub proof fn lemma_finite(&self)
        ensures
            self@.dom().finite(),
    {
        lemma_as_map_finite(pairs_of(self.entries@));
    }

    /// The empty parameter set.
    pub fn new() -> (p: ParameterSet)
        ensures
            p@ == Parameters::empty(),
    {
        let p = ParameterSet { entries: Vec::new() };
        assert(p@ =~= Parameters::empty());
        p
    }

    /// The number of parameters.
    pub fn len(&self) -> (n: usize)
        ensures
            n == self@.dom().len(),
    {
        proof {
            use_type_invariant(self);
            lemma_ascending_len(pairs_of(self.entries@));
        }
        self.entries.len()
    }

    /// Whether the set holds no parameter.
    pub fn is_empty(&self) -> (b: bool)
        ensures
            b == (self@.dom().len() == 0),
    {
        self.len() == 0
    }

    /// The parameters in signing order.
    pub fn entries(&self) -> (list: &Vec<(String, String)>)
        ensures
            pairs_of(list@) == canonical(self@),
    {
        proof {
            use_type_invariant(self);
            lemma_lists_is_canonical(pairs_of(self.entries@), self@);
        }
        &self.entries
    }

    /// The place of `name` in the list: the index at which it stands, or
    /// the index at which it belongs.
    fn locate(&self, name: &str) -> (place: (usize, bool))
        ensures
            place.0 <= self.entries@.len(),
            forall|i: int| 0 <= i < place.0 ==> name_lt((#[trigger] self.entries@[i]).0@, name@),
            place.1 ==> place.0 < self.entries@.len() && self.entries@[place.0 as int].0@ == name@,
            !place.1 ==> forall|i: int|
                place.0 <= i < self.entries@.len() ==> name_lt(
                    name@,
                    (#[trigger] self.entries@[i]).0@,
                ),
    {
        proof {
            use_type_invariant(self);
        }
        let ghost list = pairs_of(self.entries@);
        let mut i: usize = 0;
        while i < self.entries.len()
            invariant
                i <= self.entries@.len(),
                list == pairs_of(self.entries@),
                ascending(list),
                forall|j: int| 0 <= j < i ==> name_lt((#[trigger] self.entries@[j]).0@, name@),
            decreases self.entries.len() - i,
        {
            match compare_names(self.entries[i].0.as_str(), name) {
                NameOrder::Before => {
                    i += 1;
                },
                NameOrder::Same => {
                    return (i, true);
                },
                NameOrder::After => {
                    assert forall|j: int| i <= j < self.entries@.len() implies name_lt(
                        name@,
                        (#[trigger] self.entries@[j]).0@,
                    ) by {
                        if i < j {
                            assert(name_lt(list[i as int].0, list[j].0));
                            lemma_name_lt_transitive(name@, list[i as int].0, list[j].0);
                        }
                    }
                    return (i, false);
                },
            }
        }
        (i, false)
    }

    /// Whether the set holds a parameter of this name.
    pub fn contains_key(&self, name: &str) -> (b: bool)
        ensures
            b == self@.dom().contains(name@),
    {
        let (i, found) = self.locate(name);
        proof {
            use_type_invariant(self);
            let list = pairs_of(self.entries@);
            if found {
                lemma_ascending_lookup(list, i as int);
            } else {
                lemma_between_is_absent(list, i as int, name@);
            }
        }
        found
    }

    /// The value of the parameter of this name, if the set holds one.
    pub fn get(&self, name: &str) -> (value: Option<&String>)
        ensures
            match value {
                Some(v) => self@.dom().contains(name@) && v@ == self@[name@],
                None => !self@.dom().contains(name@),
            },
    {
        let (i, found) = self.locate(name);
        proof {
            use_type_invariant(self);
            let list = pairs_of(self.entries@);
            if found {
                lemma_ascending_lookup(list, i as int);
            } else {
                lemma_between_is_absent(list, i as int, name@);
            }
        }
        if found {
            Some(&self.entries[i].1)
        } else {
            None
        }
    }

    /// Puts a parameter into the set. A parameter of the same name that
    /// the set held before is replaced, and its value is returned.
    pub fn insert(&mut self, name: String, value: String) -> (previous: Option<String>)
        ensures
            final(self)@ == old(self)@.insert(name@, value@),
            match previous {
                Some(v) => old(self)@.dom().contains(name@) && v@ == old(self)@[name@],
                None => !old(self)@.dom().contains(name@),
            },
    {
        let (i, found) = self.locate(name.as_str());
        let ghost list = pairs_of(self.entries@);
        proof {
            use_type_invariant(&*self);
        }
        let mut entries = Vec::new();
        core::mem::swap(&mut entries, &mut self.entries);
        if found {
            proof {
                lemma_ascending_lookup(list, i as int);
                lemma_replace_value(list, i as int, value@);
            }
            let replaced = entries.remove(i);
            entries.insert(i, (name, value));
            assert(pairs_of(entries@) =~= list.update(i as int, (name@, value@)));
            self.entries = entries;
            Some(replaced.1)
        } else {
            proof {
                lemma_between_is_absent(list, i as int, name@);
                lemma_insert_fresh(list, i as int, name@, value@);
            }
            entries.insert(i, (name, value));
            assert(pairs_of(entries@) =~= list.insert(i as int, (name@, value@)));
            self.entries = entries;
            None
        }
    }
}

impl Clone for ParameterSet {
    fn clone(&self) -> (copy: ParameterSet)
        ensures
            copy@ == self@,
    {
        proof {
            use_type_invariant(self);
        }
        let mut entries: Vec<(String, String)> = Vec::new();
        let mut i: usize = 0;
        while i < self.entries.len()
            invariant
                i <= self.entries@.len(),
                entries@.len() == i,
                pairs_of(entries@) == pairs_of(self.entries@).take(i as int),
            decreases self.entries.len() - i,
        {
            entries.push((self.entries[i].0.clone(), self.entries[i].1.clone()));
            assert(pairs_of(entries@) =~= pairs_of(self.entries@).take(i + 1));
            i += 1;
        }
        assert(pairs_of(entries@) =~= pairs_of(self.entries@));
        ParameterSet { entries }
    }
}

} // verus!
