//! Tables with keys in order.

use vstd::prelude::*;

use crate::data::Data;
use crate::text::{
    lemma_lex_irreflexive, lemma_lex_total, lemma_lex_transitive, lex_lt, text_before,
};

verus! {

/// Data whose models are strictly and totally ordered.
pub trait Key: Data {
    /// The order.
    spec fn lt(a: Self::V, b: Self::V) -> bool;

    proof fn irreflexive(a: Self::V)
        ensures
            !Self::lt(a, a),
    ;

    proof fn transitive(a: Self::V, b: Self::V, c: Self::V)
        requires
            Self::lt(a, b),
            Self::lt(b, c),
        ensures
            Self::lt(a, c),
    ;

    proof fn total(a: Self::V, b: Self::V)
        ensures
            a == b || Self::lt(a, b) || Self::lt(b, a),
    ;

    /// Whether `self` comes strictly before `other`.
    fn before(&self, other: &Self) -> (r: bool)
        ensures
            r == Self::lt(self.deep_view(), other.deep_view()),
    ;
}

impl Key for String {
    open spec fn lt(a: Seq<char>, b: Seq<char>) -> bool {
        lex_lt(a, b)
    }

    proof fn irreflexive(a: Seq<char>) {
        lemma_lex_irreflexive(a);
    }

    proof fn transitive(a: Seq<char>, b: Seq<char>, c: Seq<char>) {
        lemma_lex_transitive(a, b, c);
    }

    proof fn total(a: Seq<char>, b: Seq<char>) {
        lemma_lex_total(a, b);
    }

    fn before(&self, other: &Self) -> (r: bool) {
        text_before(self.as_str(), other.as_str())
    }
}

/// Whether keys are in strictly ascending order.
pub open spec fn ascending<K: Key>(keys: Seq<K::V>) -> bool {
    forall|i: int, j: int| 0 <= i < j < keys.len() ==> K::lt(#[trigger] keys[i], #[trigger] keys[j])
}

/// The keys of a finite map in ascending order.
pub open spec fn in_order<K: Key, X>(m: Map<K::V, X>) -> Seq<K::V> {
    choose|keys: Seq<K::V>| ascending::<K>(keys) && keys.to_set() == m.dom()
}

/// Ascending keys are determined by which keys they are.
pub proof fn lemma_ascending_unique<K: Key>(a: Seq<K::V>, b: Seq<K::V>)
    requires
        ascending::<K>(a),
        ascending::<K>(b),
        a.to_set() == b.to_set(),
    ensures
        a == b,
    decreases a.len(),
{
    if a.len() == 0 {
        if b.len() > 0 {
            assert(b.to_set().contains(b[0]));
            assert(a.to_set().contains(b[0]));
        }
        assert(a =~= b);
    } else {
        assert(a.to_set().contains(a.last()));
        assert(b.to_set().contains(a.last()));
        assert(b.contains(a.last()));
        assert(b.len() > 0);
        assert(b.to_set().contains(b.last()));
        assert(a.contains(b.last()));
        if a.last() != b.last() {
            let i = choose|i: int| 0 <= i < a.len() && a[i] == b.last();
            let j = choose|j: int| 0 <= j < b.len() && b[j] == a.last();
            assert(K::lt(a[i], a[a.len() - 1]));
            assert(K::lt(b[j], b[b.len() - 1]));
            K::transitive(a.last(), b.last(), a.last());
            K::irreflexive(a.last());
        }
        let x = a.drop_last();
        let y = b.drop_last();
        assert(ascending::<K>(x)) by {
            assert forall|i: int, j: int| 0 <= i < j < x.len() implies K::lt(
                #[trigger] x[i],
                #[trigger] x[j],
            ) by {
                assert(x[i] == a[i] && x[j] == a[j]);
            }
        }
        assert(ascending::<K>(y)) by {
            assert forall|i: int, j: int| 0 <= i < j < y.len() implies K::lt(
                #[trigger] y[i],
                #[trigger] y[j],
            ) by {
                assert(y[i] == b[i] && y[j] == b[j]);
            }
        }
        assert forall|k: K::V| x.to_set().contains(k) == y.to_set().contains(k) by {
            if x.contains(k) {
                let i = choose|i: int| 0 <= i < x.len() && x[i] == k;
                assert(a[i] == k);
                assert(a.to_set().contains(k));
                assert(b.contains(k));
                let j = choose|j: int| 0 <= j < b.len() && b[j] == k;
                if j == b.len() - 1 {
                    assert(K::lt(a[i], a[a.len() - 1]));
                    K::irreflexive(k);
                }
                assert(y[j] == k);
            }
            if y.contains(k) {
                let j = choose|j: int| 0 <= j < y.len() && y[j] == k;
                assert(b[j] == k);
                assert(b.to_set().contains(k));
                assert(a.contains(k));
                let i = choose|i: int| 0 <= i < a.len() && a[i] == k;
                if i == a.len() - 1 {
                    assert(K::lt(b[j], b[b.len() - 1]));
                    K::irreflexive(k);
                }
                assert(x[i] == k);
            }
        }
        assert(x.to_set() =~= y.to_set());
        lemma_ascending_unique::<K>(x, y);
        assert(a =~= x.push(a.last()));
        assert(b =~= y.push(b.last()));
    }
}

/// A table from keys to values.
#[derive(Debug, PartialEq, Eq)]
#[verifier::reject_recursive_types(K)]
pub struct Table<K: Key, V: Data> {
    entries: Vec<(K, V)>,
}

/// The keys of a list of entries.
spec fn keys_of<K: Key, V: Data>(entries: Seq<(K, V)>) -> Seq<K::V> {
    Seq::new(entries.len(), |i: int| entries[i].0.deep_view())
}

/// The map that a list of entries stands for.
spec fn map_of<K: Key, V: Data>(entries: Seq<(K, V)>) -> Map<K::V, V::V>
    decreases entries.len(),
{
    if entries.len() == 0 {
        Map::empty()
    } else {
        map_of(entries.drop_last()).insert(
            entries.last().0.deep_view(),
            entries.last().1.deep_view(),
        )
    }
}

proof fn lemma_ascending_drop<K: Key, V: Data>(entries: Seq<(K, V)>)
    requires
        entries.len() > 0,
        ascending::<K>(keys_of(entries)),
    ensures
        ascending::<K>(keys_of(entries.drop_last())),
{
    let keys = keys_of(entries);
    let rest = keys_of(entries.drop_last());
    assert forall|i: int, j: int| 0 <= i < j < rest.len() implies K::lt(
        #[trigger] rest[i],
        #[trigger] rest[j],
    ) by {
        assert(rest[i] == keys[i] && rest[j] == keys[j]);
    }
}

/// Where a key is in a list of entries, and what it maps to.
proof fn lemma_map_of<K: Key, V: Data>(entries: Seq<(K, V)>)
    requires
        ascending::<K>(keys_of(entries)),
    ensures
        forall|i: int|
            0 <= i < entries.len() ==> map_of(entries).contains_key(
                (#[trigger] entries[i]).0.deep_view(),
            ) && map_of(entries)[entries[i].0.deep_view()] == entries[i].1.deep_view(),
        forall|k: K::V|
            #[trigger] map_of(entries).contains_key(k) ==> exists|i: int|
                0 <= i < entries.len() && (#[trigger] entries[i]).0.deep_view() == k,
        map_of(entries).dom() == keys_of(entries).to_set(),
    decreases entries.len(),
{
    let keys = keys_of(entries);
    if entries.len() > 0 {
        lemma_ascending_drop(entries);
        let rest = entries.drop_last();
        lemma_map_of(rest);
        assert forall|i: int| 0 <= i < entries.len() implies map_of(entries).contains_key(
            (#[trigger] entries[i]).0.deep_view(),
        ) && map_of(entries)[entries[i].0.deep_view()] == entries[i].1.deep_view() by {
            if i < entries.len() - 1 {
                assert(rest[i] == entries[i]);
                assert(K::lt(keys[i], keys[entries.len() - 1]));
                K::irreflexive(keys[i]);
            }
        }
        assert forall|k: K::V| #[trigger] map_of(entries).contains_key(k) implies exists|i: int|
            0 <= i < entries.len() && (#[trigger] entries[i]).0.deep_view() == k by {
            if k == entries.last().0.deep_view() {
                assert(entries[entries.len() - 1].0.deep_view() == k);
            } else {
                assert(map_of(rest).contains_key(k));
                let i = choose|i: int|
                    0 <= i < rest.len() && (#[trigger] rest[i]).0.deep_view() == k;
                assert(entries[i].0.deep_view() == k);
            }
        }
    }
    assert forall|k: K::V| map_of(entries).dom().contains(k) == keys.to_set().contains(k) by {
        if map_of(entries).contains_key(k) {
            let i = choose|i: int|
                0 <= i < entries.len() && (#[trigger] entries[i]).0.deep_view() == k;
            assert(keys[i] == k);
        }
        if keys.contains(k) {
            let i = choose|i: int| 0 <= i < keys.len() && keys[i] == k;
            assert(entries[i].0.deep_view() == k);
        }
    }
    assert(map_of(entries).dom() =~= keys.to_set());
}

impl<K: Key, V: Data> DeepView for Table<K, V> {
    type V = Map<K::V, V::V>;

    closed spec fn deep_view(&self) -> Map<K::V, V::V> {
        map_of(self.entries@)
    }
}

impl<K: Key, V: Data> Table<K, V> {
    #[verifier::type_invariant]
    spec fn sorted(self) -> bool {
        ascending::<K>(keys_of(self.entries@))
    }

    /// An empty table.
    pub fn new() -> (r: Self)
        ensures
            r.deep_view() == Map::<K::V, V::V>::empty(),
    {
        Table { entries: Vec::new() }
    }

    /// The keys in ascending order.
    pub open spec fn keys(&self) -> Seq<K::V> {
        in_order::<K, V::V>(self.deep_view())
    }

    /// How many keys come before `key`.
    fn position(&self, key: &K) -> (r: usize)
        ensures
            r <= self.entries@.len(),
            forall|i: int|
                0 <= i < r ==> K::lt(
                    (#[trigger] self.entries@[i]).0.deep_view(),
                    key.deep_view(),
                ),
            r < self.entries@.len() ==> !K::lt(
                self.entries@[r as int].0.deep_view(),
                key.deep_view(),
            ),
    {
        let mut i: usize = 0;
        while i < self.entries.len() && self.entries[i].0.before(key)
            invariant
                i <= self.entries@.len(),
                forall|k: int|
                    0 <= k < i ==> K::lt(
                        (#[trigger] self.entries@[k]).0.deep_view(),
                        key.deep_view(),
                    ),
            decreases self.entries@.len() - i,
        {
            i = i + 1;
        }
        i
    }

    /// Where `key` is.
    fn find(&self, key: &K) -> (r: Option<usize>)
        ensures
            r is Some <==> self.deep_view().contains_key(key.deep_view()),
            r matches Some(i) ==> i < self.entries@.len() && self.entries@[i as int].0.deep_view()
                == key.deep_view() && self.deep_view()[key.deep_view()]
                == self.entries@[i as int].1.deep_view(),
    {
        proof {
            use_type_invariant(self);
            lemma_map_of(self.entries@);
        }
        let i = self.position(key);
        proof {
            if self.deep_view().contains_key(key.deep_view()) {
                let j = choose|j: int|
                    0 <= j < self.entries@.len() && (#[trigger] self.entries@[j]).0.deep_view()
                        == key.deep_view();
                K::irreflexive(key.deep_view());
                let keys = keys_of(self.entries@);
                if j > i {
                    assert(K::lt(keys[i as int], keys[j]));
                }
                assert(i == j);
            }
        }
        if i < self.entries.len() && self.entries[i].0.same(key) {
            Some(i)
        } else {
            None
        }
    }

    /// Whether `key` is in the table.
    pub fn contains(&self, key: &K) -> (r: bool)
        ensures
            r == self.deep_view().contains_key(key.deep_view()),
    {
        self.find(key).is_some()
    }

    /// The value of `key`.
    pub fn get(&self, key: &K) -> (r: Option<&V>)
        ensures
            match r {
                Some(v) => self.deep_view().contains_key(key.deep_view()) && v.deep_view()
                    == self.deep_view()[key.deep_view()],
                None => !self.deep_view().contains_key(key.deep_view()),
            },
    {
        match self.find(key) {
            Some(i) => Some(&self.entries[i].1),
            None => None,
        }
    }

    /// How many keys there are.
    pub fn len(&self) -> (r: usize)
        ensures
            r == self.keys().len(),
            r == self.deep_view().len(),
            self.keys().to_set() == self.deep_view().dom(),
            ascending::<K>(self.keys()),
    {
        proof {
            use_type_invariant(self);
            lemma_map_of(self.entries@);
            lemma_keys(*self);
        }
        self.entries.len()
    }

    /// The key at position `i`, in ascending order.
    pub fn key_at(&self, i: usize) -> (r: &K)
        requires
            i < self.keys().len(),
        ensures
            r.deep_view() == self.keys()[i as int],
            self.deep_view().contains_key(r.deep_view()),
    {
        proof {
            use_type_invariant(self);
            lemma_map_of(self.entries@);
            lemma_keys(*self);
        }
        &self.entries[i].0
    }

    /// The value of the key at position `i`.
    pub fn value_at(&self, i: usize) -> (r: &V)
        requires
            i < self.keys().len(),
        ensures
            self.deep_view().contains_key(self.keys()[i as int]),
            r.deep_view() == self.deep_view()[self.keys()[i as int]],
    {
        proof {
            use_type_invariant(self);
            lemma_map_of(self.entries@);
            lemma_keys(*self);
        }
        &self.entries[i].1
    }

    /// Map `key` to `value`.
    pub fn insert(&mut self, key: K, value: V)
        ensures
            final(self).deep_view() == old(self).deep_view().insert(
                key.deep_view(),
                value.deep_view(),
            ),
    {
        proof {
            use_type_invariant(&*self);
            lemma_map_of(self.entries@);
        }
        let at = self.position(&key);
        let ghost was = self.entries@;
        let mut entries: Vec<(K, V)> = Vec::new();
        std::mem::swap(&mut entries, &mut self.entries);
        let ghost k = key.deep_view();
        let ghost v = value.deep_view();
        if at < entries.len() && entries[at].0.same(&key) {
            entries.set(at, (key, value));
            proof {
                assert(keys_of(entries@) =~= keys_of(was));
                lemma_map_of(entries@);
                lemma_same_map(entries@, was, k, v, at as int);
            }
        } else {
            entries.insert(at, (key, value));
            proof {
                lemma_inserted(entries@, was, at as int);
                lemma_map_of(entries@);
                lemma_grown_map(entries@, was, at as int);
            }
        }
        self.entries = entries;
    }

    /// Drop `key`, handing back its value.
    pub fn remove(&mut self, key: &K) -> (r: Option<V>)
        ensures
            final(self).deep_view() == old(self).deep_view().remove(key.deep_view()),
            match r {
                Some(v) => old(self).deep_view().contains_key(key.deep_view()) && v.deep_view()
                    == old(self).deep_view()[key.deep_view()],
                None => !old(self).deep_view().contains_key(key.deep_view()),
            },
    {
        proof {
            use_type_invariant(&*self);
            lemma_map_of(self.entries@);
        }
        match self.find(key) {
            None => {
                proof {
                    assert(self.deep_view().remove(key.deep_view()) =~= self.deep_view());
                }
                None
            },
            Some(at) => {
                let ghost was = self.entries@;
                let mut entries: Vec<(K, V)> = Vec::new();
                std::mem::swap(&mut entries, &mut self.entries);
                let (_, value) = entries.remove(at);
                proof {
                    lemma_removed(entries@, was, at as int);
                    lemma_map_of(entries@);
                    lemma_shrunk_map(entries@, was, at as int);
                }
                self.entries = entries;
                Some(value)
            },
        }
    }

    /// Drop every key but those in `keep`.
    pub fn keep_only(&mut self, keep: &Vec<K>)
        ensures
            final(self).deep_view() == old(self).deep_view().restrict(keep.deep_view().to_set()),
    {
        let n: usize = self.len();
        let ghost all = self.deep_view();
        let ghost keys = self.keys();
        let ghost wanted = keep.deep_view().to_set();
        let mut r: Table<K, V> = Table::new();
        let mut i: usize = 0;
        proof {
            assert(all.restrict(wanted.intersect(keys.take(0).to_set())) =~= Map::empty());
        }
        while i < n
            invariant
                i <= n,
                n == keys.len(),
                keys == self.keys(),
                all == self.deep_view(),
                wanted == keep.deep_view().to_set(),
                keys.to_set() == all.dom(),
                r.deep_view() == all.restrict(wanted.intersect(keys.take(i as int).to_set())),
            decreases n - i,
        {
            let key = self.key_at(i);
            let kept = is_among(key, keep);
            let ghost k = keys[i as int];
            let ghost before = r.deep_view();
            if kept {
                r.insert(key.duplicate(), self.value_at(i).duplicate());
            }
            proof {
                let next = wanted.intersect(keys.take(i as int + 1).to_set());
                let prior = wanted.intersect(keys.take(i as int).to_set());
                assert(keys.take(i as int + 1) =~= keys.take(i as int).push(k));
                lemma_push_contains(keys.take(i as int), k);
                assert(all.contains_key(k));
                assert(r.deep_view() =~= all.restrict(next));
            }
            i = i + 1;
        }
        proof {
            assert(keys.take(n as int) =~= keys);
            assert(r.deep_view() =~= all.restrict(wanted));
        }
        *self = r;
    }
}

proof fn lemma_push_contains<A>(s: Seq<A>, k: A)
    ensures
        forall|x: A| #[trigger] s.push(k).contains(x) <==> (x == k || s.contains(x)),
{
    assert forall|x: A| #[trigger] s.push(k).contains(x) <==> (x == k || s.contains(x)) by {
        let t = s.push(k);
        if x == k {
            assert(t[s.len() as int] == k);
        }
        if s.contains(x) {
            let j = choose|j: int| 0 <= j < s.len() && s[j] == x;
            assert(t[j] == x);
        }
        if t.contains(x) && x != k {
            let j = choose|j: int| 0 <= j < t.len() && t[j] == x;
            assert(s[j] == x);
        }
    }
}

/// Whether `key` is among `keys`.
pub fn is_among<K: Data>(key: &K, keys: &Vec<K>) -> (r: bool)
    ensures
        r == keys.deep_view().contains(key.deep_view()),
{
    let mut i: usize = 0;
    while i < keys.len()
        invariant
            i <= keys@.len(),
            forall|k: int| 0 <= k < i ==> (#[trigger] keys@[k]).deep_view() != key.deep_view(),
        decreases keys@.len() - i,
    {
        if keys[i].same(key) {
            proof {
                assert(keys.deep_view()[i as int] == key.deep_view());
            }
            return true;
        }
        i = i + 1;
    }
    false
}

impl<K: Key, V: Data> Data for Table<K, V> {
    fn duplicate(&self) -> (r: Self) {
        proof {
            use_type_invariant(self);
        }
        let mut r: Vec<(K, V)> = Vec::new();
        let mut i: usize = 0;
        while i < self.entries.len()
            invariant
                i <= self.entries@.len(),
                r@.len() == i,
                forall|k: int|
                    0 <= k < i ==> (#[trigger] r@[k]).0.deep_view()
                        == self.entries@[k].0.deep_view() && r@[k].1.deep_view()
                        == self.entries@[k].1.deep_view(),
            decreases self.entries@.len() - i,
        {
            r.push((self.entries[i].0.duplicate(), self.entries[i].1.duplicate()));
            i = i + 1;
        }
        proof {
            assert(keys_of(r@) =~= keys_of(self.entries@));
            lemma_alike(r@, self.entries@);
        }
        Table { entries: r }
    }

    fn same(&self, other: &Self) -> (r: bool) {
        proof {
            use_type_invariant(self);
            use_type_invariant(other);
            lemma_keys(*self);
            lemma_keys(*other);
            lemma_map_of(self.entries@);
            lemma_map_of(other.entries@);
        }
        if self.entries.len() != other.entries.len() {
            return false;
        }
        let mut i: usize = 0;
        while i < self.entries.len()
            invariant
                i <= self.entries@.len(),
                self.entries@.len() == other.entries@.len(),
                self.keys() == keys_of(self.entries@),
                other.keys() == keys_of(other.entries@),
                self.deep_view() == map_of(self.entries@),
                other.deep_view() == map_of(other.entries@),
                ascending::<K>(keys_of(self.entries@)),
                ascending::<K>(keys_of(other.entries@)),
                forall|k: int|
                    0 <= k < i ==> (#[trigger] self.entries@[k]).0.deep_view()
                        == other.entries@[k].0.deep_view() && self.entries@[k].1.deep_view()
                        == other.entries@[k].1.deep_view(),
            decreases self.entries@.len() - i,
        {
            if !self.entries[i].0.same(&other.entries[i].0) {
                proof {
                    assert(self.keys()[i as int] != other.keys()[i as int]);
                }
                return false;
            }
            if !self.entries[i].1.same(&other.entries[i].1) {
                proof {
                    lemma_map_of(self.entries@);
                    lemma_map_of(other.entries@);
                    let k = self.entries@[i as int].0.deep_view();
                    assert(self.deep_view()[k] == self.entries@[i as int].1.deep_view());
                    assert(other.deep_view()[k] == other.entries@[i as int].1.deep_view());
                }
                return false;
            }
            i = i + 1;
        }
        proof {
            lemma_alike(self.entries@, other.entries@);
        }
        true
    }
}

impl<K: Key, V: Data> Clone for Table<K, V> {
    fn clone(&self) -> (r: Self)
        ensures
            r.deep_view() == self.deep_view(),
    {
        self.duplicate()
    }
}

/// Entries that hold the same data stand for the same map.
proof fn lemma_alike<K: Key, V: Data>(a: Seq<(K, V)>, b: Seq<(K, V)>)
    requires
        a.len() == b.len(),
        forall|k: int|
            0 <= k < a.len() ==> (#[trigger] a[k]).0.deep_view() == b[k].0.deep_view()
                && a[k].1.deep_view() == b[k].1.deep_view(),
    ensures
        map_of(a) == map_of(b),
    decreases a.len(),
{
    if a.len() > 0 {
        let x = a.drop_last();
        let y = b.drop_last();
        assert forall|k: int| 0 <= k < x.len() implies (#[trigger] x[k]).0.deep_view()
            == y[k].0.deep_view() && x[k].1.deep_view() == y[k].1.deep_view() by {
            assert(x[k] == a[k] && y[k] == b[k]);
        }
        lemma_alike(x, y);
        assert(a[a.len() - 1].0.deep_view() == b[b.len() - 1].0.deep_view());
    }
}

/// The keys of a table are those of its entries, in their order.
proof fn lemma_keys<K: Key, V: Data>(table: Table<K, V>)
    requires
        ascending::<K>(keys_of(table.entries@)),
    ensures
        table.keys() == keys_of(table.entries@),
        table.keys().to_set() == table.deep_view().dom(),
        ascending::<K>(table.keys()),
        table.deep_view().len() == table.entries@.len(),
{
    lemma_map_of(table.entries@);
    let mine = keys_of(table.entries@);
    assert(ascending::<K>(mine) && mine.to_set() == table.deep_view().dom());
    lemma_ascending_unique::<K>(table.keys(), mine);
    assert(mine.no_duplicates()) by {
        assert forall|i: int, j: int| 0 <= i < mine.len() && 0 <= j < mine.len() && i
            != j implies mine[i] != mine[j] by {
            K::irreflexive(mine[i]);
            if i < j {
                assert(K::lt(mine[i], mine[j]));
            } else {
                assert(K::lt(mine[j], mine[i]));
            }
        }
    }
    mine.unique_seq_to_set();
}

proof fn lemma_same_map<K: Key, V: Data>(
    entries: Seq<(K, V)>,
    was: Seq<(K, V)>,
    k: K::V,
    v: V::V,
    at: int,
)
    requires
        0 <= at < was.len(),
        entries.len() == was.len(),
        forall|i: int| 0 <= i < was.len() && i != at ==> entries[i] == #[trigger] was[i],
        entries[at].0.deep_view() == k,
        was[at].0.deep_view() == k,
        entries[at].1.deep_view() == v,
        ascending::<K>(keys_of(was)),
        ascending::<K>(keys_of(entries)),
    ensures
        map_of(entries) == map_of(was).insert(k, v),
{
    lemma_map_of(entries);
    lemma_map_of(was);
    let a = map_of(entries);
    let b = map_of(was).insert(k, v);
    assert forall|x: K::V| a.contains_key(x) == b.contains_key(x) by {
        if a.contains_key(x) {
            let i = choose|i: int|
                0 <= i < entries.len() && (#[trigger] entries[i]).0.deep_view() == x;
            assert(was[i].0.deep_view() == x);
        }
        if b.contains_key(x) && x != k {
            let i = choose|i: int| 0 <= i < was.len() && (#[trigger] was[i]).0.deep_view() == x;
            assert(entries[i].0.deep_view() == x);
        }
        if x == k {
            assert(entries[at].0.deep_view() == k);
        }
    }
    assert forall|x: K::V| a.contains_key(x) implies a[x] == b[x] by {
        let i = choose|i: int| 0 <= i < entries.len() && (#[trigger] entries[i]).0.deep_view() == x;
        if i == at {
        } else {
            assert(was[i] == entries[i]);
            K::irreflexive(k);
            let keys = keys_of(was);
            if i < at {
                assert(K::lt(keys[i], keys[at]));
            } else {
                assert(K::lt(keys[at], keys[i]));
            }
        }
    }
    assert(a =~= b);
}

proof fn lemma_inserted<K: Key, V: Data>(entries: Seq<(K, V)>, was: Seq<(K, V)>, at: int)
    requires
        0 <= at <= was.len(),
        entries == was.insert(at, entries[at]),
        ascending::<K>(keys_of(was)),
        forall|i: int|
            0 <= i < at ==> K::lt(
                (#[trigger] was[i]).0.deep_view(),
                entries[at].0.deep_view(),
            ),
        at < was.len() ==> !K::lt(was[at].0.deep_view(), entries[at].0.deep_view())
            && was[at].0.deep_view() != entries[at].0.deep_view(),
    ensures
        ascending::<K>(keys_of(entries)),
{
    let k = entries[at].0.deep_view();
    let keys = keys_of(was);
    let next = keys_of(entries);
    if at < was.len() {
        K::total(k, was[at].0.deep_view());
    }
    assert forall|i: int, j: int| 0 <= i < j < next.len() implies K::lt(
        #[trigger] next[i],
        #[trigger] next[j],
    ) by {
        if j < at {
            assert(next[i] == keys[i] && next[j] == keys[j]);
        } else if j == at {
            assert(next[i] == keys[i]);
            assert(was[i].0.deep_view() == keys[i]);
        } else if i < at {
            assert(next[i] == keys[i] && next[j] == keys[j - 1]);
        } else if i == at {
            assert(next[j] == keys[j - 1]);
            if j - 1 > at {
                assert(K::lt(keys[at], keys[j - 1]));
                K::transitive(k, keys[at], keys[j - 1]);
            }
        } else {
            assert(next[i] == keys[i - 1] && next[j] == keys[j - 1]);
        }
    }
}

proof fn lemma_grown_map<K: Key, V: Data>(entries: Seq<(K, V)>, was: Seq<(K, V)>, at: int)
    requires
        0 <= at <= was.len(),
        entries == was.insert(at, entries[at]),
        ascending::<K>(keys_of(was)),
        ascending::<K>(keys_of(entries)),
    ensures
        map_of(entries) == map_of(was).insert(
            entries[at].0.deep_view(),
            entries[at].1.deep_view(),
        ),
{
    lemma_map_of(entries);
    lemma_map_of(was);
    let k = entries[at].0.deep_view();
    let a = map_of(entries);
    let b = map_of(was).insert(k, entries[at].1.deep_view());
    assert forall|x: K::V| a.contains_key(x) == b.contains_key(x) by {
        if a.contains_key(x) && x != k {
            let i = choose|i: int|
                0 <= i < entries.len() && (#[trigger] entries[i]).0.deep_view() == x;
            if i < at {
                assert(was[i] == entries[i]);
            } else {
                assert(was[i - 1] == entries[i]);
            }
        }
        if b.contains_key(x) && x != k {
            let i = choose|i: int| 0 <= i < was.len() && (#[trigger] was[i]).0.deep_view() == x;
            if i < at {
                assert(entries[i] == was[i]);
            } else {
                assert(entries[i + 1] == was[i]);
            }
        }
    }
    assert forall|x: K::V| a.contains_key(x) implies a[x] == b[x] by {
        let i = choose|i: int| 0 <= i < entries.len() && (#[trigger] entries[i]).0.deep_view() == x;
        let keys = keys_of(entries);
        K::irreflexive(k);
        if i < at {
            assert(was[i] == entries[i]);
            assert(K::lt(keys[i], keys[at]));
        } else if i > at {
            assert(was[i - 1] == entries[i]);
            assert(K::lt(keys[at], keys[i]));
        }
    }
    assert(a =~= b);
}

proof fn lemma_removed<K: Key, V: Data>(entries: Seq<(K, V)>, was: Seq<(K, V)>, at: int)
    requires
        0 <= at < was.len(),
        entries == was.remove(at),
        ascending::<K>(keys_of(was)),
    ensures
        ascending::<K>(keys_of(entries)),
{
    let keys = keys_of(was);
    let next = keys_of(entries);
    assert forall|i: int, j: int| 0 <= i < j < next.len() implies K::lt(
        #[trigger] next[i],
        #[trigger] next[j],
    ) by {
        let i2 = if i < at {
            i
        } else {
            i + 1
        };
        let j2 = if j < at {
            j
        } else {
            j + 1
        };
        assert(next[i] == keys[i2] && next[j] == keys[j2]);
    }
}

proof fn lemma_shrunk_map<K: Key, V: Data>(entries: Seq<(K, V)>, was: Seq<(K, V)>, at: int)
    requires
        0 <= at < was.len(),
        entries == was.remove(at),
        ascending::<K>(keys_of(was)),
        ascending::<K>(keys_of(entries)),
    ensures
        map_of(entries) == map_of(was).remove(was[at].0.deep_view()),
{
    lemma_map_of(entries);
    lemma_map_of(was);
    let k = was[at].0.deep_view();
    let keys = keys_of(was);
    let a = map_of(entries);
    let b = map_of(was).remove(k);
    assert forall|x: K::V| a.contains_key(x) == b.contains_key(x) by {
        if a.contains_key(x) {
            let i = choose|i: int|
                0 <= i < entries.len() && (#[trigger] entries[i]).0.deep_view() == x;
            K::irreflexive(k);
            if i < at {
                assert(was[i] == entries[i]);
                assert(K::lt(keys[i], keys[at]));
            } else {
                assert(was[i + 1] == entries[i]);
                assert(K::lt(keys[at], keys[i + 1]));
            }
        }
        if b.contains_key(x) {
            let i = choose|i: int| 0 <= i < was.len() && (#[trigger] was[i]).0.deep_view() == x;
            if i < at {
                assert(entries[i] == was[i]);
            } else {
                assert(entries[i - 1] == was[i]);
            }
        }
    }
    assert forall|x: K::V| a.contains_key(x) implies a[x] == b[x] by {
        let i = choose|i: int| 0 <= i < entries.len() && (#[trigger] entries[i]).0.deep_view() == x;
        if i < at {
            assert(was[i] == entries[i]);
        } else {
            assert(was[i + 1] == entries[i]);
        }
    }
    assert(a =~= b);
}

} // verus!
