use crate::key::{CelKey, KeyModel};
use crate::key_order::{
    key_lt, lemma_key_lt_irreflexive, lemma_key_lt_total, lemma_key_lt_transitive, KeyOrder,
};
use crate::value::{same_entries, same_value, CelValue, ValueModel};
use vstd::prelude::*;
use vstd::std_specs::cmp::PartialEqSpecImpl;
use vstd::std_specs::convert::IntoSpec;

verus! {

/// A dictionary from keys to values. No key occurs twice; the entries are
/// kept in ascending order of their keys, so that two dictionaries with the
/// same entries are the same whatever the order in which they were filled.
#[derive(Debug)]
pub struct CelMap {
    entries: Vec<(CelKey, CelValue)>,
}

impl CelMap {
    /// The entries of the dictionary, in the order in which they are kept.
    pub closed spec fn model(&self) -> Seq<(KeyModel, ValueModel)>
        decreases self,
    {
        Seq::new(
            self.entries@.len(),
            |i: int|
                if 0 <= i < self.entries@.len() {
                    (self.entries@[i].0@, self.entries@[i].1.model())
                } else {
                    (KeyModel::Bool(false), ValueModel::Null)
                },
        )
    }
}

/// The entries of an empty dictionary.
pub open spec fn no_entries() -> Seq<(KeyModel, ValueModel)> {
    Seq::empty()
}

/// The keys of the entries strictly ascend: each comes before all that
/// follow it, so none occurs twice.
pub open spec fn ascending(e: Seq<(KeyModel, ValueModel)>) -> bool {
    forall|i: int, j: int| #![trigger e[i], e[j]] 0 <= i < j < e.len() ==> key_lt(e[i].0, e[j].0)
}

/// Some entry has the key `k`.
pub open spec fn has_key(e: Seq<(KeyModel, ValueModel)>, k: KeyModel) -> bool {
    exists|i: int| 0 <= i < e.len() && (#[trigger] e[i]).0 == k
}

/// The mapping that a sequence of entries builds when they are entered one
/// after the other: where a key occurs more than once, its last entry
/// counts.
pub open spec fn entries_map(e: Seq<(KeyModel, ValueModel)>) -> Map<KeyModel, ValueModel>
    decreases e.len(),
{
    if e.len() == 0 {
        Map::empty()
    } else {
        entries_map(e.drop_last()).insert(e.last().0, e.last().1)
    }
}

/// What a lookup gives: the value under the key, and the null value where
/// the key is absent.
pub open spec fn lookup(m: Map<KeyModel, ValueModel>, k: KeyModel) -> ValueModel {
    if m.contains_key(k) {
        m[k]
    } else {
        ValueModel::Null
    }
}

/// The keys of the mapping that entries build are the keys of the entries.
pub proof fn lemma_entries_map_keys(e: Seq<(KeyModel, ValueModel)>, k: KeyModel)
    ensures
        entries_map(e).contains_key(k) <==> has_key(e, k),
    decreases e.len(),
{
    if e.len() > 0 {
        let front = e.drop_last();
        lemma_entries_map_keys(front, k);
        if has_key(e, k) {
            let i = choose|i: int| 0 <= i < e.len() && (#[trigger] e[i]).0 == k;
            if i < e.len() - 1 {
                assert(front[i].0 == k);
            }
        }
        if has_key(front, k) {
            let i = choose|i: int| 0 <= i < front.len() && (#[trigger] front[i]).0 == k;
            assert(e[i].0 == k);
        }
        if e.last().0 == k {
            assert(e[e.len() - 1].0 == k);
        }
    }
}

/// Where the keys ascend, the mapping gives under each entry's key that
/// entry's value.
pub proof fn lemma_entries_map_value(e: Seq<(KeyModel, ValueModel)>, i: int)
    requires
        ascending(e),
        0 <= i < e.len(),
    ensures
        entries_map(e).contains_key(e[i].0),
        entries_map(e)[e[i].0] == e[i].1,
    decreases e.len(),
{
    let front = e.drop_last();
    if i < e.len() - 1 {
        assert forall|p: int, q: int| #![trigger front[p], front[q]] 0 <= p < q < front.len() implies key_lt(
            front[p].0,
            front[q].0,
        ) by {
            assert(key_lt(e[p].0, e[q].0));
        }
        lemma_entries_map_value(front, i);
        assert(key_lt(e[i].0, e[e.len() - 1].0));
        lemma_key_lt_irreflexive(e[i].0);
    }
}

/// Entering an entry at place `i`, between the keys that come before `k`
/// and those that come after it, keeps the keys ascending and adds the
/// entry to the mapping.
proof fn lemma_enter_new(e: Seq<(KeyModel, ValueModel)>, i: int, k: KeyModel, v: ValueModel)
    requires
        ascending(e),
        0 <= i <= e.len(),
        forall|j: int| 0 <= j < i ==> key_lt((#[trigger] e[j]).0, k),
        forall|j: int| i <= j < e.len() ==> key_lt(k, (#[trigger] e[j]).0),
    ensures
        ascending(e.insert(i, (k, v))),
        entries_map(e.insert(i, (k, v))) == entries_map(e).insert(k, v),
{
    let a = e.insert(i, (k, v));
    assert forall|p: int, q: int| #![trigger a[p], a[q]] 0 <= p < q < a.len() implies key_lt(
        a[p].0,
        a[q].0,
    ) by {
        if p < i && q > i {
            assert(a[p] == e[p]);
            assert(a[q] == e[q - 1]);
            if p < q - 1 {
                assert(key_lt(e[p].0, e[q - 1].0));
            }
        } else if p < i && q < i {
            assert(key_lt(e[p].0, e[q].0));
        } else if p < i && q == i {
            assert(key_lt(e[p].0, k));
        } else if p == i {
            assert(a[q] == e[q - 1]);
            assert(key_lt(k, e[q - 1].0));
        } else {
            assert(a[p] == e[p - 1]);
            assert(a[q] == e[q - 1]);
            assert(key_lt(e[p - 1].0, e[q - 1].0));
        }
    }
    assert forall|x: KeyModel|
        entries_map(a).contains_key(x) <==> entries_map(e).insert(k, v).contains_key(x) by {
        lemma_entries_map_keys(a, x);
        lemma_entries_map_keys(e, x);
        if has_key(a, x) {
            let p = choose|p: int| 0 <= p < a.len() && (#[trigger] a[p]).0 == x;
            if p < i {
                assert(e[p].0 == x);
            } else if p > i {
                assert(e[p - 1].0 == x);
            }
        }
        if has_key(e, x) {
            let p = choose|p: int| 0 <= p < e.len() && (#[trigger] e[p]).0 == x;
            if p < i {
                assert(a[p].0 == x);
            } else {
                assert(a[p + 1].0 == x);
            }
        }
        if x == k {
            assert(a[i].0 == x);
        }
    }
    assert forall|x: KeyModel| entries_map(a).contains_key(x) implies entries_map(a)[x]
        == entries_map(e).insert(k, v)[x] by {
        lemma_entries_map_keys(a, x);
        let p = choose|p: int| 0 <= p < a.len() && (#[trigger] a[p]).0 == x;
        lemma_entries_map_value(a, p);
        if p < i {
            assert(a[p] == e[p]);
            lemma_entries_map_value(e, p);
            lemma_key_lt_irreflexive(k);
        } else if p > i {
            assert(a[p] == e[p - 1]);
            lemma_entries_map_value(e, p - 1);
            lemma_key_lt_irreflexive(k);
        }
    }
    assert(entries_map(a) =~= entries_map(e).insert(k, v));
}

/// Giving the entry at place `i` a new value keeps the keys ascending and
/// changes the mapping under that entry's key alone.
proof fn lemma_enter_again(e: Seq<(KeyModel, ValueModel)>, i: int, v: ValueModel)
    requires
        ascending(e),
        0 <= i < e.len(),
    ensures
        ascending(e.update(i, (e[i].0, v))),
        entries_map(e.update(i, (e[i].0, v))) == entries_map(e).insert(e[i].0, v),
{
    let k = e[i].0;
    let a = e.update(i, (k, v));
    assert forall|p: int, q: int| #![trigger a[p], a[q]] 0 <= p < q < a.len() implies key_lt(
        a[p].0,
        a[q].0,
    ) by {
        assert(key_lt(e[p].0, e[q].0));
    }
    assert forall|x: KeyModel|
        entries_map(a).contains_key(x) <==> entries_map(e).insert(k, v).contains_key(x) by {
        lemma_entries_map_keys(a, x);
        lemma_entries_map_keys(e, x);
        if has_key(a, x) {
            let p = choose|p: int| 0 <= p < a.len() && (#[trigger] a[p]).0 == x;
            assert(e[p].0 == x);
        }
        if has_key(e, x) {
            let p = choose|p: int| 0 <= p < e.len() && (#[trigger] e[p]).0 == x;
            assert(a[p].0 == x);
        }
        if x == k {
            assert(a[i].0 == x);
        }
    }
    assert forall|x: KeyModel| entries_map(a).contains_key(x) implies entries_map(a)[x]
        == entries_map(e).insert(k, v)[x] by {
        lemma_entries_map_keys(a, x);
        let p = choose|p: int| 0 <= p < a.len() && (#[trigger] a[p]).0 == x;
        lemma_entries_map_value(a, p);
        if p != i {
            assert(a[p] == e[p]);
            lemma_entries_map_value(e, p);
            if p < i {
                assert(key_lt(e[p].0, e[i].0));
            } else {
                assert(key_lt(e[i].0, e[p].0));
            }
            lemma_key_lt_irreflexive(k);
        }
    }
    assert(entries_map(a) =~= entries_map(e).insert(k, v));
}

impl View for CelMap {
    type V = Map<KeyModel, ValueModel>;

    /// The dictionary as a mapping from keys to values.
    open spec fn view(&self) -> Map<KeyModel, ValueModel> {
        entries_map(self.model())
    }
}

impl CelMap {
    #[verifier::type_invariant]
    spec fn keys_ascend(self) -> bool {
        ascending(self.model())
    }

    /// An empty dictionary.
    pub fn new() -> (r: CelMap)
        ensures
            r.model() == no_entries(),
            r@ == entries_map(no_entries()),
    {
        let r = CelMap { entries: Vec::new() };
        assert(r.model() =~= no_entries());
        r
    }

    /// The number of entries. Their keys ascend.
    pub fn len(&self) -> (n: usize)
        ensures
            n == self.model().len(),
            ascending(self.model()),
    {
        proof {
            use_type_invariant(self);
        }
        self.entries.len()
    }

    /// The key of the entry at place `i`, counted in ascending order of the
    /// keys.
    pub fn key_at(&self, i: usize) -> (k: &CelKey)
        requires
            i < self.model().len(),
        ensures
            k@ == self.model()[i as int].0,
    {
        &self.entries[i].0
    }

    /// The value of the entry at place `i`, counted in ascending order of
    /// the keys.
    pub fn value_at(&self, i: usize) -> (v: &CelValue)
        requires
            i < self.model().len(),
        ensures
            v@ == self.model()[i as int].1,
    {
        &self.entries[i].1
    }

    /// Says whether two dictionaries are equal: whether they have the same
    /// keys with equal values.
    pub fn equals(&self, other: &CelMap) -> (r: bool)
        ensures
            r == same_entries(self.model(), other.model()),
        decreases self.model(),
    {
        let n: usize = self.entries.len();
        if other.entries.len() != n {
            return false;
        }
        let ghost x = self.model();
        let ghost y = other.model();
        let mut i: usize = 0;
        while i < n
            invariant
                x == self.model(),
                y == other.model(),
                n == x.len(),
                n == y.len(),
                n == self.entries@.len(),
                n == other.entries@.len(),
                i <= n,
                forall|j: int|
                    0 <= j < i ==> (#[trigger] x[j]).0 == y[j].0 && same_value(x[j].1, y[j].1),
            decreases n - i,
        {
            assert(x[i as int].0 == self.entries@[i as int].0@);
            assert(y[i as int].0 == other.entries@[i as int].0@);
            if !(self.entries[i].0 == other.entries[i].0) {
                return false;
            }
            assert(x[i as int].1 == self.entries@[i as int].1@);
            assert(y[i as int].1 == other.entries@[i as int].1@);
            assert(decreases_to!(x => x[i as int]));
            if !self.entries[i].1.equals(&other.entries[i].1) {
                return false;
            }
            i = i + 1;
        }
        true
    }

    /// The place where `key` stands or would stand among the entries, and
    /// whether it stands there.
    fn position(&self, key: &CelKey) -> (r: (usize, bool))
        ensures
            r.0 <= self.model().len(),
            forall|j: int| 0 <= j < r.0 ==> key_lt((#[trigger] self.model()[j]).0, key@),
            r.1 ==> r.0 < self.model().len() && self.model()[r.0 as int].0 == key@,
            !r.1 ==> forall|j: int|
                r.0 <= j < self.model().len() ==> key_lt(key@, (#[trigger] self.model()[j]).0),
    {
        proof {
            use_type_invariant(self);
        }
        let ghost e = self.model();
        let mut lo: usize = 0;
        let mut hi: usize = self.entries.len();
        while lo < hi
            invariant
                e == self.model(),
                ascending(e),
                lo <= hi <= e.len(),
                e.len() == self.entries@.len(),
                forall|j: int| 0 <= j < lo ==> key_lt((#[trigger] e[j]).0, key@),
                forall|j: int| hi <= j < e.len() ==> key_lt(key@, (#[trigger] e[j]).0),
            decreases hi - lo,
        {
            let mid: usize = lo + (hi - lo) / 2;
            let here = self.entries[mid].0.compare(key);
            assert(e[mid as int].0 == self.entries@[mid as int].0@);
            match here {
                KeyOrder::Less => {
                    proof {
                        assert forall|j: int| 0 <= j < mid + 1 implies key_lt(
                            (#[trigger] e[j]).0,
                            key@,
                        ) by {
                            if j < mid {
                                assert(key_lt(e[j].0, e[mid as int].0));
                                lemma_key_lt_transitive(e[j].0, e[mid as int].0, key@);
                            }
                        }
                    }
                    lo = mid + 1;
                },
                KeyOrder::Equal => {
                    proof {
                        assert forall|j: int| 0 <= j < mid implies key_lt(
                            (#[trigger] e[j]).0,
                            key@,
                        ) by {
                            assert(key_lt(e[j].0, e[mid as int].0));
                        }
                    }
                    return (mid, true);
                },
                KeyOrder::Greater => {
                    proof {
                        lemma_key_lt_total(e[mid as int].0, key@);
                        assert forall|j: int| mid <= j < e.len() implies key_lt(
                            key@,
                            (#[trigger] e[j]).0,
                        ) by {
                            if mid < j {
                                assert(key_lt(e[mid as int].0, e[j].0));
                                lemma_key_lt_transitive(key@, e[mid as int].0, e[j].0);
                            }
                        }
                    }
                    hi = mid;
                },
            }
        }
        (lo, false)
    }

    /// Enters `value` under `key`. An entry that the key had is replaced.
    pub fn insert_key(&mut self, key: CelKey, value: CelValue)
        ensures
            final(self)@ == old(self)@.insert(key@, value@),
            ascending(final(self).model()),
    {
        let (i, found) = self.position(&key);
        proof {
            use_type_invariant(&*self);
        }
        let ghost before = self.model();
        let ghost k = key@;
        let ghost v = value@;
        let mut entries: Vec<(CelKey, CelValue)> = Vec::new();
        std::mem::swap(&mut entries, &mut self.entries);
        assert(self.model() =~= no_entries());
        if found {
            entries.set(i, (key, value));
            proof {
                lemma_enter_again(before, i as int, v);
            }
        } else {
            entries.insert(i, (key, value));
            proof {
                lemma_enter_new(before, i as int, k, v);
            }
        }
        proof {
            let after = (CelMap { entries }).model();
            if found {
                assert(after =~= before.update(i as int, (k, v)));
            } else {
                assert(after =~= before.insert(i as int, (k, v)));
            }
        }
        self.entries = entries;
        proof {
            use_type_invariant(&*self);
        }
    }

    /// Looks `key` up: the value entered under it, or the null value where
    /// it has none. A lookup never fails.
    pub fn get_key(&self, key: &CelKey) -> (r: CelValue)
        ensures
            r@ == lookup(self@, key@),
    {
        let (i, found) = self.position(key);
        proof {
            use_type_invariant(self);
        }
        let ghost e = self.model();
        if found {
            proof {
                lemma_entries_map_value(e, i as int);
            }
            self.entries[i].1.clone()
        } else {
            proof {
                lemma_entries_map_keys(e, key@);
                if has_key(e, key@) {
                    let j = choose|j: int| 0 <= j < e.len() && (#[trigger] e[j]).0 == key@;
                    lemma_key_lt_irreflexive(key@);
                }
            }
            CelValue::Null
        }
    }

    /// Enters a value under a key, each given as anything that converts to
    /// one. An entry that the key had is replaced.
    pub fn insert<K: Into<CelKey>, V: Into<CelValue>>(&mut self, k: K, val: V)
        ensures
            ascending(final(self).model()),
            exists|key: CelKey, value: CelValue|
                call_ensures(K::into, (k,), key) && call_ensures(V::into, (val,), value)
                    && final(self)@ == old(self)@.insert(key@, value@),
            <K as IntoSpec<CelKey>>::obeys_into_spec() && <V as IntoSpec<CelValue>>::obeys_into_spec()
                ==> final(self)@ == old(self)@.insert(k.into_spec()@, val.into_spec()@),
    {
        let key: CelKey = k.into();
        let value: CelValue = val.into();
        self.insert_key(key, value);
    }

    /// Looks up a key given as anything that converts to one: the value
    /// entered under it, or the null value where it has none.
    pub fn get<K: Into<CelKey>>(&self, key: K) -> (r: CelValue)
        ensures
            exists|k: CelKey| call_ensures(K::into, (key,), k) && r@ == lookup(self@, k@),
            <K as IntoSpec<CelKey>>::obeys_into_spec() ==> r@ == lookup(self@, key.into_spec()@),
    {
        let k: CelKey = key.into();
        self.get_key(&k)
    }
}

impl PartialEq for CelMap {
    /// Two dictionaries are equal when they have the same keys with equal
    /// values, whatever the order in which they were filled.
    fn eq(&self, other: &CelMap) -> (r: bool) {
        self.equals(other)
    }
}

impl PartialEqSpecImpl for CelMap {
    open spec fn obeys_eq_spec() -> bool {
        true
    }

    open spec fn eq_spec(&self, other: &CelMap) -> bool {
        same_entries(self.model(), other.model())
    }
}

impl Default for CelMap {
    /// An empty dictionary.
    fn default() -> (r: CelMap)
        ensures
            r.model() == no_entries(),
            r@ == entries_map(no_entries()),
    {
        CelMap::new()
    }
}

/// The entries that pairs of a name and a value stand for: each value
/// under its name as a text key, in the order of the pairs.
pub open spec fn named_entries(pairs: Seq<(String, CelValue)>) -> Seq<(KeyModel, ValueModel)> {
    Seq::new(pairs.len(), |i: int| (KeyModel::Text(pairs[i].0@), pairs[i].1@))
}

impl From<Vec<(String, CelValue)>> for CelMap {
    /// The dictionary that holds each value under its name. Where a name
    /// occurs more than once, its last pair counts.
    fn from(pairs: Vec<(String, CelValue)>) -> (r: CelMap)
        ensures
            r@ == entries_map(named_entries(pairs@)),
            ascending(r.model()),
    {
        let mut res = CelMap::new();
        let n: usize = pairs.len();
        let mut i: usize = 0;
        let ghost all = named_entries(pairs@);
        assert(all.take(0) =~= no_entries());
        while i < n
            invariant
                n == pairs@.len(),
                i <= n,
                all == named_entries(pairs@),
                res@ == entries_map(all.take(i as int)),
            decreases n - i,
        {
            let key = CelKey::from(pairs[i].0.as_str());
            let value = pairs[i].1.clone();
            res.insert_key(key, value);
            proof {
                let next = all.take(i as int + 1);
                assert(next.drop_last() =~= all.take(i as int));
                assert(next.last() == all[i as int]);
            }
            i = i + 1;
        }
        proof {
            assert(all.take(n as int) =~= all);
            use_type_invariant(&res);
        }
        res
    }
}

impl vstd::std_specs::convert::FromSpecImpl<Vec<(String, CelValue)>> for CelMap {
    open spec fn obeys_from_spec() -> bool {
        false
    }

    open spec fn from_spec(pairs: Vec<(String, CelValue)>) -> CelMap {
        arbitrary()
    }
}

} // verus!
