//! A map kept in ascending key order.
//!
//! Settings are keyed by text, by button and by direction, and several rules of
//! the configuration depend on the order in which entries are visited. The map
//! here keeps its keys strictly ascending, so a walk by position is a walk in
//! key order.

use vstd::prelude::*;

verus! {

/// How one key stands to another.
#[derive(Clone, Copy, Debug, PartialEq, Eq, Structural)]
pub enum KeyOrder {
    /// The left key comes first.
    Before,
    /// The two keys are the same.
    Same,
    /// The right key comes first.
    After,
}

/// The model of an optional value.
pub open spec fn opt<T: View>(value: Option<T>) -> Option<T::V> {
    match value {
        Some(v) => Some(v@),
        None => None,
    }
}

/// The models of a sequence of values.
pub open spec fn each<T: View>(values: Seq<T>) -> Seq<T::V> {
    Seq::new(values.len(), |i: int| values[i]@)
}

/// A value that can be copied out without changing its model.
pub trait Replicate: View + Sized {
    /// A second value with the same model.
    fn replicate(&self) -> (copy: Self)
        ensures
            copy@ == self@,
    ;
}

/// A value that can be compared with another by model.
pub trait Same: View + Sized {
    /// Whether the two values have the same model.
    fn same(&self, other: &Self) -> (same: bool)
        ensures
            same == (self@ == other@),
    ;
}

/// Whether two optional values have the same model.
pub fn same_opt<T: Same>(a: &Option<T>, b: &Option<T>) -> (same: bool)
    ensures
        same == (opt(*a) == opt(*b)),
{
    match (a, b) {
        (Some(x), Some(y)) => x.same(y),
        (None, None) => true,
        _ => false,
    }
}

/// Whether two lists have the same models in the same order.
pub fn same_each<T: Same>(a: &Vec<T>, b: &Vec<T>) -> (same: bool)
    ensures
        same == (each(a@) == each(b@)),
{
    if a.len() != b.len() {
        assert(each(a@).len() != each(b@).len());
        return false;
    }
    let mut i: usize = 0;
    while i < a.len()
        invariant
            i <= a@.len(),
            a@.len() == b@.len(),
            forall|j: int| 0 <= j < i ==> (#[trigger] a@[j])@ == b@[j]@,
        decreases a@.len() - i,
    {
        if !a[i].same(&b[i]) {
            assert(each(a@)[i as int] != each(b@)[i as int]);
            return false;
        }
        i += 1;
    }
    assert(each(a@) =~= each(b@));
    true
}

/// A key whose model is strictly and totally ordered.
pub trait OrderedKey: View + Sized {
    /// What a lookup is made with: text for text keys, the key itself otherwise.
    type Probe: View<V = Self::V> + ?Sized;

    /// The strict order.
    spec fn before(a: Self::V, b: Self::V) -> bool;

    /// Nothing comes before itself.
    proof fn before_irreflexive(a: Self::V)
        ensures
            !Self::before(a, a),
    ;

    /// The order is transitive.
    proof fn before_transitive(a: Self::V, b: Self::V, c: Self::V)
        requires
            Self::before(a, b),
            Self::before(b, c),
        ensures
            Self::before(a, c),
    ;

    /// Two different keys are ordered one way or the other.
    proof fn before_total(a: Self::V, b: Self::V)
        ensures
            a == b || Self::before(a, b) || Self::before(b, a),
    ;

    /// Compare this key with a probe.
    fn order_against(&self, probe: &Self::Probe) -> (order: KeyOrder)
        ensures
            match order {
                KeyOrder::Before => Self::before(self@, probe@),
                KeyOrder::Same => self@ == probe@,
                KeyOrder::After => Self::before(probe@, self@),
            },
    ;

    /// The probe that finds this key.
    fn as_probe(&self) -> (probe: &Self::Probe)
        ensures
            probe@ == self@,
    ;
}

/// Whether `keys` lists the keys of `map` once each, in ascending order.
pub open spec fn is_key_order<K: OrderedKey, W>(keys: Seq<K::V>, map: Map<K::V, W>) -> bool {
    &&& forall|i: int, j: int|
        0 <= i < j < keys.len() ==> K::before(#[trigger] keys[i], #[trigger] keys[j])
    &&& forall|i: int| 0 <= i < keys.len() ==> map.contains_key(#[trigger] keys[i])
    &&& forall|k: K::V| map.contains_key(k) ==> keys.contains(k)
}

/// The keys of a map in ascending order.
pub open spec fn key_order<K: OrderedKey, W>(map: Map<K::V, W>) -> Seq<K::V> {
    choose|keys: Seq<K::V>| is_key_order::<K, W>(keys, map)
}

/// Where a key belongs among keys in ascending order that do not hold it.
proof fn lemma_place_of<K: OrderedKey>(keys: Seq<K::V>, key: K::V) -> (place: int)
    requires
        forall|i: int, j: int|
            0 <= i < j < keys.len() ==> K::before(#[trigger] keys[i], #[trigger] keys[j]),
        !keys.contains(key),
    ensures
        0 <= place <= keys.len(),
        forall|i: int| 0 <= i < place ==> K::before(#[trigger] keys[i], key),
        forall|i: int| place <= i < keys.len() ==> K::before(key, #[trigger] keys[i]),
    decreases keys.len(),
{
    if keys.len() == 0 {
        0
    } else {
        let last = keys.len() - 1;
        assert(keys.contains(keys[last]));
        K::before_total(keys[last], key);
        if K::before(keys[last], key) {
            assert forall|i: int| 0 <= i < keys.len() implies K::before(
                #[trigger] keys[i],
                key,
            ) by {
                if i < last {
                    K::before_transitive(keys[i], keys[last], key);
                }
            }
            keys.len() as int
        } else {
            let fewer = keys.drop_last();
            assert(!fewer.contains(key)) by {
                if fewer.contains(key) {
                    assert(keys[fewer.index_of(key)] == key);
                }
            }
            let place = lemma_place_of::<K>(fewer, key);
            assert forall|i: int| 0 <= i < place implies K::before(#[trigger] keys[i], key) by {
                assert(keys[i] == fewer[i]);
            }
            assert forall|i: int| place <= i < keys.len() implies K::before(
                key,
                #[trigger] keys[i],
            ) by {
                if i < last {
                    assert(keys[i] == fewer[i]);
                }
            }
            place
        }
    }
}

/// The keys of every finite map can be listed in ascending order, and
/// [`key_order`] does.
pub proof fn lemma_key_order_exists<K: OrderedKey, W>(map: Map<K::V, W>)
    requires
        map.dom().finite(),
    ensures
        is_key_order::<K, W>(key_order::<K, W>(map), map),
    decreases map.dom().len(),
{
    if map.dom().len() == 0 {
        let none = Seq::<K::V>::empty();
        assert forall|k: K::V| map.contains_key(k) implies none.contains(k) by {
            assert(map.dom() =~= Set::empty());
        }
        assert(is_key_order::<K, W>(none, map));
    } else {
        let key = map.dom().choose();
        assert(map.dom().contains(key));
        let rest = map.remove(key);
        lemma_key_order_exists::<K, W>(rest);
        let fewer = key_order::<K, W>(rest);
        assert(!fewer.contains(key)) by {
            if fewer.contains(key) {
                assert(rest.contains_key(fewer[fewer.index_of(key)]));
            }
        }
        let place = lemma_place_of::<K>(fewer, key);
        let keys = fewer.insert(place, key);
        assert forall|i: int, j: int| 0 <= i < j < keys.len() implies K::before(
            #[trigger] keys[i],
            #[trigger] keys[j],
        ) by {
            let a = if i < place { i } else { i - 1 };
            let b = if j < place { j } else { j - 1 };
            if i != place && j != place {
                assert(keys[i] == fewer[a] && keys[j] == fewer[b]);
            } else if i == place {
                assert(keys[j] == fewer[b]);
            } else {
                assert(keys[i] == fewer[a]);
            }
        }
        assert forall|i: int| 0 <= i < keys.len() implies map.contains_key(#[trigger] keys[i]) by {
            if i != place {
                let a = if i < place { i } else { i - 1 };
                assert(keys[i] == fewer[a]);
                assert(rest.contains_key(fewer[a]));
            }
        }
        assert forall|k: K::V| map.contains_key(k) implies keys.contains(k) by {
            if k == key {
                assert(keys[place] == k);
            } else {
                assert(rest.contains_key(k));
                assert(fewer.contains(k));
                let a = fewer.index_of(k);
                assert(fewer[a] == k);
                assert(keys[if a < place { a } else { a + 1 }] == k);
            }
        }
        assert(is_key_order::<K, W>(keys, map));
    }
}

/// There is one way to list the keys of a map in ascending order.
pub proof fn lemma_key_order_is_unique<K: OrderedKey, W>(
    a: Seq<K::V>,
    b: Seq<K::V>,
    map: Map<K::V, W>,
)
    requires
        is_key_order::<K, W>(a, map),
        is_key_order::<K, W>(b, map),
    ensures
        a == b,
{
    lemma_ascending_prefix::<K, W>(a, b, map, a.len() as int);
    if b.len() > a.len() {
        let key = b[a.len() as int];
        let j = a.index_of(key);
        assert(a.contains(key));
        assert(a[j] == key);
        assert(b[j] == key);
        K::before_irreflexive(key);
    }
    assert(a =~= b);
}

proof fn lemma_ascending_prefix<K: OrderedKey, W>(
    a: Seq<K::V>,
    b: Seq<K::V>,
    map: Map<K::V, W>,
    n: int,
)
    requires
        is_key_order::<K, W>(a, map),
        is_key_order::<K, W>(b, map),
        0 <= n <= a.len(),
    ensures
        n <= b.len(),
        forall|i: int| 0 <= i < n ==> a[i] == b[i],
    decreases n,
{
    if n > 0 {
        lemma_ascending_prefix::<K, W>(a, b, map, n - 1);
        let last = n - 1;
        let p = b.index_of(a[last]);
        assert(b.contains(a[last]));
        assert(b[p] == a[last]);
        if p < last {
            assert(a[p] == b[p]);
            K::before_irreflexive(a[last]);
        }
        if p > last {
            let q = a.index_of(b[last]);
            assert(a.contains(b[last]));
            assert(a[q] == b[last]);
            if q < last {
                assert(b[q] == a[q]);
                K::before_irreflexive(b[last]);
            } else if q == last {
                K::before_irreflexive(b[last]);
            } else {
                K::before_transitive(a[last], b[last], a[last]);
                K::before_irreflexive(a[last]);
            }
        }
    }
}

/// `map` with each entry of `other` that `map` has no key for.
pub open spec fn union_keeping_left<A, B>(map: Map<A, B>, other: Map<A, B>) -> Map<A, B> {
    other.union_prefer_right(map)
}

/// `map` without the keys in `keys`.
pub open spec fn without<A, B>(map: Map<A, B>, keys: Seq<A>) -> Map<A, B> {
    Map::new(|k: A| map.contains_key(k) && !keys.contains(k), |k: A| map[k])
}

/// `map` with every value changed by `f`.
pub open spec fn each_changed<A, B>(map: Map<A, B>, f: spec_fn(A, B) -> B) -> Map<A, B> {
    Map::new(|k: A| map.contains_key(k), |k: A| f(k, map[k]))
}

/// `map` with the values of the first `i` keys of `order` changed by `f`.
pub open spec fn some_changed<A, B>(
    map: Map<A, B>,
    order: Seq<A>,
    f: spec_fn(A, B) -> B,
    i: int,
) -> Map<A, B> {
    Map::new(
        |k: A| map.contains_key(k),
        |k: A|
            if order.take(i).contains(k) {
                f(k, map[k])
            } else {
                map[k]
            },
    )
}

/// A walk that has changed nothing yet.
pub proof fn lemma_none_changed<A, B>(map: Map<A, B>, order: Seq<A>, f: spec_fn(A, B) -> B)
    ensures
        some_changed(map, order, f, 0) == map,
{
    assert(some_changed(map, order, f, 0) =~= map);
}

/// One step of a walk that changes every value.
pub proof fn lemma_one_more_changed<K: OrderedKey, B>(
    map: Map<K::V, B>,
    order: Seq<K::V>,
    f: spec_fn(K::V, B) -> B,
    i: int,
)
    requires
        is_key_order::<K, B>(order, map),
        0 <= i < order.len(),
    ensures
        some_changed(map, order, f, i).contains_key(order[i]),
        some_changed(map, order, f, i)[order[i]] == map[order[i]],
        some_changed(map, order, f, i).insert(order[i], f(order[i], map[order[i]]))
            == some_changed(map, order, f, i + 1),
{
    let key = order[i];
    assert(!order.take(i).contains(key)) by {
        if order.take(i).contains(key) {
            let j = order.take(i).index_of(key);
            assert(order[j] == key);
            K::before_irreflexive(key);
        }
    }
    assert forall|k: K::V| order.take(i + 1).contains(k) <==> order.take(i).contains(k) || k
        == key by {
        lemma_taken_one_more(order, i, k);
    }
    assert(some_changed(map, order, f, i).insert(key, f(key, map[key])) =~= some_changed(
        map,
        order,
        f,
        i + 1,
    ));
}

/// A walk that has changed every value.
pub proof fn lemma_all_changed<K: OrderedKey, B>(
    map: Map<K::V, B>,
    order: Seq<K::V>,
    f: spec_fn(K::V, B) -> B,
)
    requires
        is_key_order::<K, B>(order, map),
    ensures
        some_changed(map, order, f, order.len() as int) == each_changed(map, f),
{
    assert(order.take(order.len() as int) =~= order);
    assert(some_changed(map, order, f, order.len() as int) =~= each_changed(map, f));
}

impl Same for String {
    fn same(&self, other: &Self) -> (same: bool) {
        *self == *other
    }
}

impl Replicate for String {
    fn replicate(&self) -> (copy: Self) {
        self.clone()
    }
}

impl Same for u16 {
    fn same(&self, other: &Self) -> (same: bool) {
        *self == *other
    }
}

/// Copy an optional value out.
pub fn replicate_opt<T: Replicate>(value: &Option<T>) -> (copy: Option<T>)
    ensures
        opt(copy) == opt(*value),
{
    match value {
        Some(v) => Some(v.replicate()),
        None => None,
    }
}

/// Copy a list of values out.
pub fn replicate_each<T: Replicate>(values: &Vec<T>) -> (copy: Vec<T>)
    ensures
        each(copy@) == each(values@),
{
    let mut copy: Vec<T> = Vec::new();
    let mut i: usize = 0;
    while i < values.len()
        invariant
            i <= values@.len(),
            copy@.len() == i,
            forall|j: int| 0 <= j < i ==> (#[trigger] copy@[j])@ == values@[j]@,
        decreases values@.len() - i,
    {
        copy.push(values[i].replicate());
        i += 1;
    }
    assert(each(copy@) =~= each(values@));
    copy
}

/// Copy a list of plain values out.
pub fn copied<T: Copy>(values: &Vec<T>) -> (copy: Vec<T>)
    ensures
        copy@ == values@,
{
    let mut copy: Vec<T> = Vec::new();
    let mut i: usize = 0;
    while i < values.len()
        invariant
            i <= values@.len(),
            copy@ == values@.take(i as int),
        decreases values@.len() - i,
    {
        copy.push(values[i]);
        i += 1;
        assert(copy@ =~= values@.take(i as int));
    }
    assert(values@.take(i as int) =~= values@);
    copy
}

/// Keys and values by position.
#[derive(Debug, PartialEq, Eq)]
struct Entries<K, V> {
    keys: Vec<K>,
    values: Vec<V>,
}

/// A map from `K` to `V` whose keys are kept strictly ascending.
#[derive(Debug, PartialEq, Eq)]
pub struct OrderedMap<K: OrderedKey, V: View> {
    entries: Entries<K, V>,
}

impl<K: OrderedKey, V: View> Entries<K, V> {
    spec fn wf(&self) -> bool {
        &&& self.keys@.len() == self.values@.len()
        &&& forall|i: int, j: int|
            0 <= i < j < self.keys@.len() ==> K::before(
                (#[trigger] self.keys@[i])@,
                (#[trigger] self.keys@[j])@,
            )
    }

    spec fn has(&self, key: K::V) -> bool {
        exists|i: int| 0 <= i < self.keys@.len() && (#[trigger] self.keys@[i])@ == key
    }

    spec fn index_of(&self, key: K::V) -> int {
        choose|i: int| 0 <= i < self.keys@.len() && (#[trigger] self.keys@[i])@ == key
    }

    spec fn map(&self) -> Map<K::V, V::V> {
        Map::new(|key: K::V| self.has(key), |key: K::V| self.values@[self.index_of(key)]@)
    }

    proof fn index_unique(&self, i: int)
        requires
            self.wf(),
            0 <= i < self.keys@.len(),
        ensures
            self.has(self.keys@[i]@),
            self.index_of(self.keys@[i]@) == i,
            self.map().contains_key(self.keys@[i]@),
            self.map()[self.keys@[i]@] == self.values@[i]@,
    {
        let j = self.index_of(self.keys@[i]@);
        assert(self.has(self.keys@[i]@));
        if i < j {
            K::before_irreflexive(self.keys@[i]@);
        } else if j < i {
            K::before_irreflexive(self.keys@[i]@);
        }
    }

    /// The position of `probe`, or where it would be inserted.
    fn find(&self, probe: &K::Probe) -> (r: Result<usize, usize>)
        requires
            self.wf(),
        ensures
            match r {
                Ok(i) => i < self.keys@.len() && self.keys@[i as int]@ == probe@,
                Err(i) => {
                    &&& i <= self.keys@.len()
                    &&& !self.has(probe@)
                    &&& forall|j: int|
                        0 <= j < i ==> K::before((#[trigger] self.keys@[j])@, probe@)
                    &&& forall|j: int|
                        i <= j < self.keys@.len() ==> K::before(
                            probe@,
                            (#[trigger] self.keys@[j])@,
                        )
                },
            },
    {
        let mut i: usize = 0;
        while i < self.keys.len()
            invariant
                self.wf(),
                i <= self.keys@.len(),
                forall|j: int| 0 <= j < i ==> K::before((#[trigger] self.keys@[j])@, probe@),
            decreases self.keys@.len() - i,
        {
            match self.keys[i].order_against(probe) {
                KeyOrder::Before => {
                    i += 1;
                },
                KeyOrder::Same => {
                    return Ok(i);
                },
                KeyOrder::After => {
                    proof {
                        assert forall|j: int| i <= j < self.keys@.len() implies K::before(
                            probe@,
                            (#[trigger] self.keys@[j])@,
                        ) by {
                            if i < j {
                                K::before_transitive(
                                    probe@,
                                    self.keys@[i as int]@,
                                    self.keys@[j]@,
                                );
                            }
                        }
                        assert forall|j: int| 0 <= j < self.keys@.len() implies (
                        #[trigger] self.keys@[j])@ != probe@ by {
                            K::before_irreflexive(probe@);
                        }
                    }
                    return Err(i);
                },
            }
        }
        proof {
            assert forall|j: int| 0 <= j < self.keys@.len() implies (
            #[trigger] self.keys@[j])@ != probe@ by {
                K::before_irreflexive(probe@);
            }
        }
        Err(i)
    }
}

impl<K: OrderedKey, V: View> View for OrderedMap<K, V> {
    type V = Map<K::V, V::V>;

    closed spec fn view(&self) -> Map<K::V, V::V> {
        self.entries.map()
    }
}

impl<K: OrderedKey, V: View> OrderedMap<K, V> {
    #[verifier::type_invariant]
    spec fn inv(&self) -> bool {
        self.entries.wf()
    }

    /// The keys in the order in which a walk by position meets them.
    pub closed spec fn order(&self) -> Seq<K::V> {
        each(self.entries.keys@)
    }

    /// A map holds finitely many keys.
    pub proof fn lemma_finite(&self)
        ensures
            self@.dom().finite(),
    {
        let keys = self.order().to_set();
        vstd::seq_lib::seq_to_set_is_finite(self.order());
        assert forall|key: K::V| self@.dom().contains(key) implies keys.contains(key) by {
            assert(self.order()[self.entries.index_of(key)] == key);
        }
        vstd::set_lib::lemma_set_subset_finite(keys, self@.dom());
    }

    /// An empty map.
    pub fn new() -> (map: Self)
        ensures
            map@ == Map::<K::V, V::V>::empty(),
    {
        let map = OrderedMap { entries: Entries { keys: Vec::new(), values: Vec::new() } };
        assert(map@ =~= Map::<K::V, V::V>::empty());
        map
    }

    /// The number of entries.
    pub fn len(&self) -> (n: usize)
        ensures
            n == self.order().len(),
            is_key_order::<K, V::V>(self.order(), self@),
    {
        proof {
            use_type_invariant(self);
            assert forall|i: int| 0 <= i < self.order().len() implies self@.contains_key(
                #[trigger] self.order()[i],
            ) by {
                self.entries.index_unique(i);
            }
            assert forall|k: K::V| self@.contains_key(k) implies self.order().contains(k) by {
                assert(self.order()[self.entries.index_of(k)] == k);
            }
        }
        self.entries.keys.len()
    }

    /// Whether there is no entry.
    pub fn is_empty(&self) -> (empty: bool)
        ensures
            empty == (self@ == Map::<K::V, V::V>::empty()),
    {
        proof {
            use_type_invariant(self);
            if self.entries.keys@.len() > 0 {
                self.entries.index_unique(0);
                assert(self@.contains_key(self.entries.keys@[0]@));
            } else {
                assert(self@ =~= Map::<K::V, V::V>::empty());
            }
        }
        self.entries.keys.len() == 0
    }

    /// The key at position `i` of the walk.
    pub fn key_at(&self, i: usize) -> (key: &K)
        requires
            i < self.order().len(),
        ensures
            key@ == self.order()[i as int],
            self@.contains_key(key@),
    {
        proof {
            use_type_invariant(self);
            self.entries.index_unique(i as int);
        }
        &self.entries.keys[i]
    }

    /// The value at position `i` of the walk.
    pub fn value_at(&self, i: usize) -> (value: &V)
        requires
            i < self.order().len(),
        ensures
            self@.contains_key(self.order()[i as int]),
            value@ == self@[self.order()[i as int]],
    {
        proof {
            use_type_invariant(self);
            self.entries.index_unique(i as int);
        }
        &self.entries.values[i]
    }

    /// The value at position `i` of the walk, for changing in place.
    pub fn value_at_mut(&mut self, i: usize) -> (value: &mut V)
        requires
            i < old(self).order().len(),
        ensures
            old(self)@.contains_key(old(self).order()[i as int]),
            value@ == old(self)@[old(self).order()[i as int]],
            final(self).order() == old(self).order(),
            final(self)@ == old(self)@.insert(old(self).order()[i as int], final(value)@),
    {
        proof {
            use_type_invariant(&*self);
            self.entries.index_unique(i as int);
        }
        let ghost before = self.entries;
        let value = &mut self.entries.values[i];
        proof {
            lemma_values_updated(before, after_borrow(self.entries), i as int, *final(value));
        }
        value
    }

    /// The value stored under `key`.
    pub fn get(&self, key: &K::Probe) -> (value: Option<&V>)
        ensures
            match value {
                Some(v) => self@.contains_key(key@) && v@ == self@[key@],
                None => !self@.contains_key(key@),
            },
    {
        proof {
            use_type_invariant(self);
        }
        match self.entries.find(key) {
            Ok(i) => {
                proof {
                    self.entries.index_unique(i as int);
                }
                Some(&self.entries.values[i])
            },
            Err(_) => None,
        }
    }

    /// The value stored under `key`, for changing in place.
    pub fn get_mut(&mut self, key: &K::Probe) -> (value: Option<&mut V>)
        ensures
            match value {
                Some(v) => {
                    &&& old(self)@.contains_key(key@)
                    &&& v@ == old(self)@[key@]
                    &&& final(self)@ == old(self)@.insert(key@, final(v)@)
                },
                None => !old(self)@.contains_key(key@) && final(self)@ == old(self)@,
            },
    {
        proof {
            use_type_invariant(&*self);
        }
        match self.entries.find(key) {
            Ok(i) => {
                proof {
                    self.entries.index_unique(i as int);
                }
                let ghost before = self.entries;
                let value = &mut self.entries.values[i];
                proof {
                    lemma_values_updated(
                        before,
                        after_borrow(self.entries),
                        i as int,
                        *final(value),
                    );
                }
                Some(value)
            },
            Err(_) => None,
        }
    }

    /// Store `value` under `key`, handing back the value it displaces.
    pub fn insert(&mut self, key: K, value: V) -> (displaced: Option<V>)
        ensures
            final(self)@ == old(self)@.insert(key@, value@),
            opt(displaced) == (if old(self)@.contains_key(key@) {
                Some(old(self)@[key@])
            } else {
                None
            }),
    {
        proof {
            use_type_invariant(&*self);
        }
        let mut entries = Entries { keys: Vec::new(), values: Vec::new() };
        std::mem::swap(&mut entries, &mut self.entries);
        let ghost before = entries;
        let displaced = match entries.find(key.as_probe()) {
            Ok(i) => {
                let mut slot = value;
                proof {
                    before.index_unique(i as int);
                }
                std::mem::swap(&mut slot, &mut entries.values[i]);
                proof {
                    lemma_values_updated(before, entries, i as int, value);
                }
                Some(slot)
            },
            Err(i) => {
                entries.keys.insert(i, key);
                entries.values.insert(i, value);
                proof {
                    lemma_entry_inserted(before, entries, i as int, key, value);
                }
                None
            },
        };
        self.entries = entries;
        displaced
    }

    /// The value stored under `key`, `value` put there first where there is
    /// none, for changing in place.
    pub fn get_or_insert(&mut self, key: K, value: V) -> (slot: &mut V)
        ensures
            slot@ == (if old(self)@.contains_key(key@) {
                old(self)@[key@]
            } else {
                value@
            }),
            final(self)@ == old(self)@.insert(key@, final(slot)@),
    {
        proof {
            use_type_invariant(&*self);
        }
        let ghost start = self.entries.map();
        let mut entries = Entries { keys: Vec::new(), values: Vec::new() };
        std::mem::swap(&mut entries, &mut self.entries);
        let ghost before = entries;
        let i: usize = match entries.find(key.as_probe()) {
            Ok(i) => {
                proof {
                    before.index_unique(i as int);
                }
                i
            },
            Err(i) => {
                entries.keys.insert(i, key);
                entries.values.insert(i, value);
                proof {
                    lemma_entry_inserted(before, entries, i as int, key, value);
                    entries.index_unique(i as int);
                }
                i
            },
        };
        self.entries = entries;
        let ghost middle = self.entries;
        let slot = &mut self.entries.values[i];
        proof {
            lemma_values_updated(middle, after_borrow(self.entries), i as int, *final(slot));
            assert(after_borrow(self.entries).map() =~= start.insert(key@, final(slot)@));
        }
        slot
    }

    /// Take out the value stored under `key`.
    pub fn remove(&mut self, key: &K::Probe) -> (removed: Option<V>)
        ensures
            final(self)@ == old(self)@.remove(key@),
            opt(removed) == (if old(self)@.contains_key(key@) {
                Some(old(self)@[key@])
            } else {
                None
            }),
    {
        proof {
            use_type_invariant(&*self);
        }
        let mut entries = Entries { keys: Vec::new(), values: Vec::new() };
        std::mem::swap(&mut entries, &mut self.entries);
        let ghost before = entries;
        let removed = match entries.find(key) {
            Ok(i) => {
                proof {
                    before.index_unique(i as int);
                    lemma_entry_removed(before, i as int);
                }
                let _ = entries.keys.remove(i);
                let value = entries.values.remove(i);
                Some(value)
            },
            Err(_) => {
                assert(before.map() =~= before.map().remove(key@));
                None
            },
        };
        self.entries = entries;
        removed
    }

    /// Take out every value stored under one of `keys`.
    pub fn remove_all(&mut self, keys: &Vec<K>)
        ensures
            final(self)@ == without(old(self)@, each(keys@)),
    {
        let ghost start = self@;
        let ghost all = each(keys@);
        let mut i: usize = 0;
        assert(without(start, all.take(0)) =~= start);
        while i < keys.len()
            invariant
                all == each(keys@),
                i <= all.len(),
                self@ == without(start, all.take(i as int)),
            decreases all.len() - i,
        {
            let _ = self.remove(keys[i].as_probe());
            proof {
                assert forall|k: K::V| all.take(i + 1).contains(k) <==> all.take(
                    i as int,
                ).contains(k) || k == all[i as int] by {
                    lemma_taken_one_more(all, i as int, k);
                }
                assert(self@ =~= without(start, all.take(i + 1)));
            }
            i += 1;
        }
        assert(all.take(i as int) =~= all);
    }

    /// Take over every entry of `other` whose key is not here yet.
    pub fn absorb(&mut self, other: Self)
        ensures
            final(self)@ == union_keeping_left(old(self)@, other@),
    {
        let mut other = other;
        let mut rest = Entries { keys: Vec::new(), values: Vec::new() };
        proof {
            use_type_invariant(&other);
        }
        std::mem::swap(&mut rest, &mut other.entries);
        let ghost whole = rest.map();
        let ghost start = self@;
        assert(union_keeping_left(self@, rest.map()) =~= union_keeping_left(start, whole));
        while rest.keys.len() > 0
            invariant
                rest.wf(),
                union_keeping_left(self@, rest.map()) == union_keeping_left(start, whole),
            decreases rest.keys@.len(),
        {
            let ghost before = rest;
            let ghost here = self@;
            let ghost last = rest.keys@.len() - 1;
            proof {
                before.index_unique(last);
                lemma_entry_removed(before, last);
            }
            let key = rest.keys.pop().unwrap();
            let value = rest.values.pop().unwrap();
            assert(rest.keys@ == before.keys@.remove(last));
            assert(rest.values@ == before.values@.remove(last));
            if !self.contains_key(key.as_probe()) {
                let _ = self.insert(key, value);
            }
            assert(union_keeping_left(self@, rest.map()) =~= union_keeping_left(
                here,
                before.map(),
            ));
        }
        assert(rest.map() =~= Map::<K::V, V::V>::empty());
        assert(union_keeping_left(self@, rest.map()) =~= self@);
    }

    /// Whether `key` has a value.
    pub fn contains_key(&self, key: &K::Probe) -> (found: bool)
        ensures
            found == self@.contains_key(key@),
    {
        self.get(key).is_some()
    }
}

impl<K: OrderedKey + Replicate, V: Replicate> Replicate for OrderedMap<K, V> {
    fn replicate(&self) -> (copy: Self) {
        let mut copy: OrderedMap<K, V> = OrderedMap::new();
        let n: usize = self.len();
        let mut i: usize = 0;
        while i < n
            invariant
                n == self.order().len(),
                is_key_order::<K, V::V>(self.order(), self@),
                i <= n,
                forall|k: K::V| #[trigger] copy@.contains_key(k) <==> self.order().take(
                    i as int,
                ).contains(k),
                forall|k: K::V| #[trigger] copy@.contains_key(k) ==> copy@[k] == self@[k],
            decreases n - i,
        {
            let ghost before = copy@;
            let _ = copy.insert(self.key_at(i).replicate(), self.value_at(i).replicate());
            assert forall|k: K::V| #[trigger] copy@.contains_key(k) <==> self.order().take(
                i + 1,
            ).contains(k) by {
                lemma_taken_one_more(self.order(), i as int, k);
            }
            i += 1;
        }
        assert(self.order().take(n as int) =~= self.order());
        assert(copy@ =~= self@);
        copy
    }
}

impl<K: OrderedKey + Replicate, V: Replicate> Clone for OrderedMap<K, V> {
    fn clone(&self) -> (copy: Self)
        ensures
            copy@ == self@,
    {
        self.replicate()
    }
}

impl<K: OrderedKey, V: View> Default for OrderedMap<K, V> {
    fn default() -> (map: Self)
        ensures
            map@ == Map::<K::V, V::V>::empty(),
    {
        OrderedMap::new()
    }
}

/// What one more element adds to a beginning.
pub proof fn lemma_taken_one_more<A>(s: Seq<A>, i: int, a: A)
    requires
        0 <= i < s.len(),
    ensures
        s.take(i + 1).contains(a) <==> s.take(i).contains(a) || a == s[i],
{
    let more = s.take(i + 1);
    if more.contains(a) {
        let j = choose|j: int| 0 <= j < more.len() && more[j] == a;
        if j < i {
            assert(s.take(i)[j] == a);
        }
    }
    if s.take(i).contains(a) {
        let j = choose|j: int| 0 <= j < i && s.take(i)[j] == a;
        assert(more[j] == a);
    }
    assert(more[i] == s[i]);
}

proof fn lemma_entry_inserted<K: OrderedKey, V: View>(
    before: Entries<K, V>,
    after: Entries<K, V>,
    i: int,
    key: K,
    value: V,
)
    requires
        before.wf(),
        0 <= i <= before.keys@.len(),
        !before.has(key@),
        forall|j: int| 0 <= j < i ==> K::before((#[trigger] before.keys@[j])@, key@),
        forall|j: int|
            i <= j < before.keys@.len() ==> K::before(key@, (#[trigger] before.keys@[j])@),
        after.keys@ == before.keys@.insert(i, key),
        after.values@ == before.values@.insert(i, value),
    ensures
        after.wf(),
        after.map() == before.map().insert(key@, value@),
{
    assert forall|k: K::V| #[trigger] after.has(k) == (before.has(k) || k == key@) by {
        if before.has(k) {
            let j = before.index_of(k);
            let shifted = if j < i { j } else { j + 1 };
            assert(after.keys@[shifted] == before.keys@[j]);
        }
        if k == key@ {
            assert(after.keys@[i] == key);
        }
        if after.has(k) {
            let j = after.index_of(k);
            if j < i {
                assert(before.keys@[j] == after.keys@[j]);
            } else if j > i {
                assert(before.keys@[j - 1] == after.keys@[j]);
            }
        }
    }
    after.index_unique(i);
    assert forall|k: K::V| before.has(k) implies #[trigger] after.map()[k] == before.map()[k] by {
        let j = before.index_of(k);
        let shifted = if j < i { j } else { j + 1 };
        assert(after.keys@[shifted] == before.keys@[j]);
        after.index_unique(shifted);
    }
    assert(after.map() =~= before.map().insert(key@, value@));
}

proof fn lemma_entry_removed<K: OrderedKey, V: View>(before: Entries<K, V>, i: int)
    requires
        before.wf(),
        0 <= i < before.keys@.len(),
    ensures
        forall|after: Entries<K, V>|
            #![trigger after.map()]
            after.keys@ == before.keys@.remove(i) && after.values@ == before.values@.remove(i)
                ==> after.wf() && after.map() == before.map().remove(before.keys@[i]@),
{
    assert forall|after: Entries<K, V>|
        #![trigger after.map()]
        after.keys@ == before.keys@.remove(i) && after.values@ == before.values@.remove(i) implies
        after.wf() && after.map() == before.map().remove(before.keys@[i]@) by {
        let key = before.keys@[i]@;
        before.index_unique(i);
        assert(after.wf());
        assert forall|k: K::V| #[trigger] after.has(k) == (before.has(k) && k != key) by {
            if after.has(k) {
                let j = after.index_of(k);
                let shifted = if j < i { j } else { j + 1 };
                assert(before.keys@[shifted] == after.keys@[j]);
                before.index_unique(shifted);
            }
            if before.has(k) && k != key {
                let j = before.index_of(k);
                let shifted = if j < i { j } else { j - 1 };
                assert(after.keys@[shifted] == before.keys@[j]);
            }
        }
        assert forall|k: K::V| after.has(k) implies #[trigger] after.map()[k]
            == before.map()[k] by {
            let j = after.index_of(k);
            let shifted = if j < i { j } else { j + 1 };
            assert(before.keys@[shifted] == after.keys@[j]);
            before.index_unique(shifted);
        }
        assert(after.map() =~= before.map().remove(key));
    }
}

proof fn lemma_values_updated<K: OrderedKey, V: View>(
    before: Entries<K, V>,
    after: Entries<K, V>,
    i: int,
    value: V,
)
    requires
        before.wf(),
        0 <= i < before.keys@.len(),
        after.keys@ == before.keys@,
        after.values@ == before.values@.update(i, value),
    ensures
        after.wf(),
        after.map() == before.map().insert(before.keys@[i]@, value@),
{
    before.index_unique(i);
    assert forall|k: K::V| #[trigger] after.has(k) == before.has(k) by {}
    assert forall|k: K::V| #[trigger] after.index_of(k) == before.index_of(k) by {}
    assert forall|k: K::V| before.has(k) && k != before.keys@[i]@ implies before.index_of(k) != i by {}
    assert(after.map() =~= before.map().insert(before.keys@[i]@, value@));
}

/// What is left of a sequence are those of its items that were to be kept.
pub proof fn lemma_filter_holds<A>(s: Seq<A>, pred: spec_fn(A) -> bool, a: A)
    ensures
        s.filter(pred).contains(a) <==> s.contains(a) && pred(a),
    decreases s.len(),
{
    reveal(Seq::filter);
    if s.len() > 0 {
        let fewer = s.drop_last();
        lemma_filter_holds(fewer, pred, a);
        assert(s =~= fewer.push(s.last()));
        assert(s.contains(a) <==> fewer.contains(a) || a == s.last()) by {
            if fewer.contains(a) {
                assert(s[fewer.index_of(a)] == a);
            }
            if s.contains(a) && a != s.last() {
                assert(fewer[s.index_of(a)] == a);
            }
            assert(s[s.len() - 1] == s.last());
        }
        let kept = fewer.filter(pred);
        assert(kept.push(s.last()).contains(a) <==> kept.contains(a) || a == s.last()) by {
            let more = kept.push(s.last());
            assert(more[kept.len() as int] == s.last());
            if kept.contains(a) {
                assert(more[kept.index_of(a)] == a);
            }
            if more.contains(a) && a != s.last() {
                assert(kept[more.index_of(a)] == a);
            }
        }
    }
}

}
