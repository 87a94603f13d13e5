//! Small maps and sets that remember the order in which their keys came.
use crate::text::same_text;
use vstd::prelude::*;

verus! {

/// A key: two keys are the same if their views are.
pub trait Key: View + Sized {
    fn same(&self, other: &Self) -> (r: bool)
        ensures
            r == (self@ == other@),
    ;
}

impl Key for String {
    fn same(&self, other: &Self) -> (r: bool) {
        same_text(self.as_str(), other.as_str())
    }
}

impl Key for usize {
    fn same(&self, other: &Self) -> (r: bool) {
        *self == *other
    }
}

impl Key for [u8; 16] {
    fn same(&self, other: &Self) -> (r: bool) {
        let mut i: usize = 0;
        while i < 16
            invariant
                i <= 16,
                forall|j: int| 0 <= j < i ==> self@[j] == other@[j],
            decreases 16 - i,
        {
            if self[i] != other[i] {
                return false;
            }
            i = i + 1;
        }
        assert(self@ =~= other@);
        true
    }
}

impl Key for [u8; 32] {
    fn same(&self, other: &Self) -> (r: bool) {
        let mut i: usize = 0;
        while i < 32
            invariant
                i <= 32,
                forall|j: int| 0 <= j < i ==> self@[j] == other@[j],
            decreases 32 - i,
        {
            if self[i] != other[i] {
                return false;
            }
            i = i + 1;
        }
        assert(self@ =~= other@);
        true
    }
}

/// Where `k` stands among the keys, if it does.
pub open spec fn position<A, B>(s: Seq<(A, B)>, k: A) -> Option<int>
    decreases s.len(),
{
    if s.len() == 0 {
        None
    } else {
        match position(s.drop_last(), k) {
            Some(i) => Some(i),
            None => if s.last().0 == k {
                Some(s.len() - 1)
            } else {
                None
            },
        }
    }
}

/// The value under `k`, if there is one.
pub open spec fn lookup<A, B>(s: Seq<(A, B)>, k: A) -> Option<B> {
    match position(s, k) {
        Some(i) => Some(s[i].1),
        None => None,
    }
}

pub open spec fn has_key<A, B>(s: Seq<(A, B)>, k: A) -> bool {
    position(s, k) is Some
}

/// The map with `v` under `k`: in its old place if `k` was there, else at the
/// end.
pub open spec fn put<A, B>(s: Seq<(A, B)>, k: A, v: B) -> Seq<(A, B)> {
    match position(s, k) {
        Some(i) => s.update(i, (k, v)),
        None => s.push((k, v)),
    }
}

/// The map without `k`.
pub open spec fn without<A, B>(s: Seq<(A, B)>, k: A) -> Seq<(A, B)> {
    match position(s, k) {
        Some(i) => s.remove(i),
        None => s,
    }
}

/// No key occurs twice.
pub open spec fn distinct<A, B>(s: Seq<(A, B)>) -> bool {
    forall|i: int, j: int|
        #![trigger s[i], s[j]]
        0 <= i < j < s.len() ==> s[i].0 != s[j].0
}

/// A position, where there is one, is that of the key, and the first.
pub proof fn lemma_position<A, B>(s: Seq<(A, B)>, k: A)
    ensures
        position(s, k) matches Some(i) ==> 0 <= i < s.len() && s[i].0 == k,
        position(s, k) matches Some(i) ==> forall|j: int| 0 <= j < i ==> (#[trigger] s[j]).0 != k,
        position(s, k) is None ==> forall|j: int| 0 <= j < s.len() ==> (#[trigger] s[j]).0 != k,
    decreases s.len(),
{
    if s.len() > 0 {
        let d = s.drop_last();
        lemma_position(d, k);
        assert(forall|j: int| 0 <= j < d.len() ==> d[j] == s[j]);
    }
}

/// The first place of a key determines its position.
pub proof fn lemma_position_is<A, B>(s: Seq<(A, B)>, k: A, i: int)
    requires
        0 <= i < s.len(),
        s[i].0 == k,
        forall|j: int| 0 <= j < i ==> (#[trigger] s[j]).0 != k,
    ensures
        position(s, k) == Some(i),
{
    lemma_position(s, k);
    assert(s[i].0 == k);
    match position(s, k) {
        Some(p) => {
            if p < i {
                assert(s[p].0 != k);
            }
        },
        None => {},
    }
}

/// A key that stands nowhere has no position.
pub proof fn lemma_position_none<A, B>(s: Seq<(A, B)>, k: A)
    requires
        forall|j: int| 0 <= j < s.len() ==> (#[trigger] s[j]).0 != k,
    ensures
        position(s, k) is None,
{
    lemma_position(s, k);
}

/// What was put under a key is found there, other keys are as before, and no
/// key comes to stand twice.
pub proof fn law_put<A, B>(s: Seq<(A, B)>, k: A, v: B, other: A)
    ensures
        lookup(put(s, k, v), k) == Some(v),
        other != k ==> lookup(put(s, k, v), other) == lookup(s, other),
        distinct(s) ==> distinct(put(s, k, v)),
{
    let t = put(s, k, v);
    lemma_position(s, k);
    lemma_position(s, other);
    match position(s, k) {
        Some(i) => {
            assert forall|j: int| 0 <= j < i implies (#[trigger] t[j]).0 != k by {
                assert(t[j] == s[j]);
            }
            lemma_position_is(t, k, i);
            if distinct(s) {
                assert forall|a: int, b: int| #![trigger t[a], t[b]] 0 <= a < b < t.len() implies t[a].0
                    != t[b].0 by {
                    assert(s[a].0 != s[b].0);
                }
            }
        },
        None => {
            assert forall|j: int| 0 <= j < s.len() implies (#[trigger] t[j]).0 != k by {
                assert(t[j] == s[j]);
            }
            lemma_position_is(t, k, s.len() as int);
            if distinct(s) {
                assert forall|a: int, b: int| #![trigger t[a], t[b]] 0 <= a < b < t.len() implies t[a].0
                    != t[b].0 by {
                    assert(t[a] == s[a]);
                    if b < s.len() {
                        assert(t[b] == s[b]);
                        assert(s[a].0 != s[b].0);
                    }
                }
            }
        },
    }
    if other != k {
        match position(s, other) {
            Some(p) => {
                assert forall|j: int| 0 <= j < p implies (#[trigger] t[j]).0 != other by {
                    assert(s[j].0 != other);
                }
                assert(t[p].0 == other);
                lemma_position_is(t, other, p);
            },
            None => {
                assert forall|j: int| 0 <= j < t.len() implies (#[trigger] t[j]).0 != other by {
                    if j < s.len() {
                        assert(s[j].0 != other);
                    }
                }
                lemma_position_none(t, other);
            },
        }
    }
}

/// A key that was taken out is gone, other keys are as before, and no key comes
/// to stand twice.
pub proof fn law_without<A, B>(s: Seq<(A, B)>, k: A, other: A)
    requires
        distinct(s),
    ensures
        lookup(without(s, k), k) is None,
        other != k ==> lookup(without(s, k), other) == lookup(s, other),
        distinct(without(s, k)),
{
    let t = without(s, k);
    lemma_position(s, k);
    lemma_position(s, other);
    match position(s, k) {
        Some(i) => {
            assert(forall|j: int| 0 <= j < i ==> t[j] == s[j]);
            assert(forall|j: int| i <= j < t.len() ==> t[j] == s[j + 1]);
            assert forall|a: int, b: int| #![trigger t[a], t[b]] 0 <= a < b < t.len() implies t[a].0
                != t[b].0 by {
                let a1 = if a < i { a } else { a + 1 };
                let b1 = if b < i { b } else { b + 1 };
                assert(s[a1].0 != s[b1].0);
            }
            assert forall|j: int| 0 <= j < t.len() implies (#[trigger] t[j]).0 != k by {
                let j1 = if j < i { j } else { j + 1 };
                if j1 < i {
                    assert(s[j1].0 != s[i].0);
                } else {
                    assert(s[i].0 != s[j1].0);
                }
            }
            lemma_position_none(t, k);
            if other != k {
                match position(s, other) {
                    Some(p) => {
                        let p1 = if p < i { p } else { p - 1 };
                        assert(t[p1] == s[p]);
                        assert forall|j: int| 0 <= j < p1 implies (#[trigger] t[j]).0 != other by {
                            let j1 = if j < i { j } else { j + 1 };
                            assert(s[j1].0 != other);
                        }
                        lemma_position_is(t, other, p1);
                    },
                    None => {
                        assert forall|j: int| 0 <= j < t.len() implies (#[trigger] t[j]).0
                            != other by {
                            let j1 = if j < i { j } else { j + 1 };
                            assert(s[j1].0 != other);
                        }
                        lemma_position_none(t, other);
                    },
                }
            }
        },
        None => {},
    }
}

/// Where no key stands twice, a value is found under a key exactly if it stands there.
pub proof fn law_lookup<A, B>(s: Seq<(A, B)>, k: A, v: B)
    requires
        distinct(s),
    ensures
        lookup(s, k) == Some(v) <==> s.contains((k, v)),
        has_key(s, k) <==> lookup(s, k) is Some,
        has_key(s, k) <==> exists|i: int| 0 <= i < s.len() && (#[trigger] s[i]).0 == k,
{
    lemma_position(s, k);
    if let Some(p) = position(s, k) {
        if s[p].1 == v {
            assert(s[p] == (k, v));
        }
        if s.contains((k, v)) {
            let i = choose|i: int| 0 <= i < s.len() && s[i] == (k, v);
            assert(s[i].0 == s[p].0);
        }
    } else if s.contains((k, v)) {
        let i = choose|i: int| 0 <= i < s.len() && s[i] == (k, v);
        assert(s[i].0 == k);
    }
}

/// A key that is new comes last; one that is there keeps its place, and so do the
/// others.
pub proof fn law_put_keeps_order<A, B>(s: Seq<(A, B)>, k: A, v: B)
    ensures
        has_key(s, k) ==> put(s, k, v).len() == s.len(),
        !has_key(s, k) ==> put(s, k, v).len() == s.len() + 1 && put(s, k, v).last() == (k, v),
        forall|i: int|
            0 <= i < s.len() ==> (#[trigger] put(s, k, v)[i]).0 == s[i].0 && (s[i].0 != k ==> put(
                s,
                k,
                v,
            )[i] == s[i]),
{
    lemma_position(s, k);
}

/// A map whose keys keep the order in which they came. No key stands twice.
pub struct Assoc<K: View, V: View> {
    keys: Vec<K>,
    values: Vec<V>,
}

/// The keys, each with its value.
spec fn entries<K: View, V: View>(keys: Seq<K>, values: Seq<V>) -> Seq<(K::V, V::V)> {
    Seq::new(keys.len(), |i: int| (keys[i]@, values[i]@))
}

impl<K: View, V: View> View for Assoc<K, V> {
    type V = Seq<(K::V, V::V)>;

    closed spec fn view(&self) -> Seq<(K::V, V::V)> {
        entries(self.keys@, self.values@)
    }
}

impl<K: View, V: View> Assoc<K, V> {
    #[verifier::type_invariant]
    spec fn keys_once(self) -> bool {
        &&& self.keys@.len() == self.values@.len()
        &&& once(self.keys@)
    }
}

/// No two keys are the same.
spec fn once<K: View>(keys: Seq<K>) -> bool {
    forall|i: int, j: int|
        #![trigger keys[i], keys[j]]
        0 <= i < j < keys.len() ==> keys[i]@ != keys[j]@
}

proof fn lemma_once<K: View, V: View>(keys: Seq<K>, values: Seq<V>)
    ensures
        once(keys) <==> distinct(entries(keys, values)),
{
    let all = entries(keys, values);
    if once(keys) {
        assert forall|i: int, j: int|
            #![trigger all[i], all[j]]
            0 <= i < j < all.len() implies all[i].0 != all[j].0 by {
            assert(keys[i]@ != keys[j]@);
        }
    }
    if distinct(all) {
        assert forall|i: int, j: int|
            #![trigger keys[i], keys[j]]
            0 <= i < j < keys.len() implies keys[i]@ != keys[j]@ by {
            assert(all[i].0 != all[j].0);
        }
    }
}

impl<K: Key, V: View> Assoc<K, V> {
    pub fn new() -> (r: Self)
        ensures
            r@ == Seq::<(K::V, V::V)>::empty(),
            distinct(r@),
    {
        let keys: Vec<K> = Vec::new();
        let values: Vec<V> = Vec::new();
        assert(entries(keys@, values@) =~= Seq::<(K::V, V::V)>::empty());
        Assoc { keys, values }
    }

    pub fn len(&self) -> (r: usize)
        ensures
            r == self@.len(),
            distinct(self@),
    {
        proof {
            use_type_invariant(self);
            lemma_once(self.keys@, self.values@);
        }
        self.keys.len()
    }

    /// The key at a place.
    pub fn key_at(&self, i: usize) -> (r: &K)
        requires
            i < self@.len(),
        ensures
            r@ == self@[i as int].0,
    {
        &self.keys[i]
    }

    /// The value at a place.
    pub fn value_at(&self, i: usize) -> (r: &V)
        requires
            i < self@.len(),
        ensures
            r@ == self@[i as int].1,
    {
        proof {
            use_type_invariant(self);
        }
        &self.values[i]
    }

    fn find(&self, k: &K) -> (r: Option<usize>)
        ensures
            match r {
                Some(i) => i < self@.len() && position(self@, k@) == Some(i as int),
                None => position(self@, k@) is None,
            },
    {
        let mut i: usize = 0;
        while i < self.keys.len()
            invariant
                i <= self@.len(),
                self@.len() == self.keys@.len(),
                forall|j: int| 0 <= j < i ==> (#[trigger] self@[j]).0 != k@,
            decreases self.keys.len() - i,
        {
            assert(self@[i as int].0 == self.keys@[i as int]@);
            if self.keys[i].same(k) {
                proof {
                    lemma_position_is(self@, k@, i as int);
                }
                return Some(i);
            }
            i = i + 1;
        }
        proof {
            lemma_position_none(self@, k@);
        }
        None
    }

    pub fn contains_key(&self, k: &K) -> (r: bool)
        ensures
            r == has_key(self@, k@),
    {
        self.find(k).is_some()
    }

    pub fn get(&self, k: &K) -> (r: Option<&V>)
        ensures
            match r {
                Some(v) => lookup(self@, k@) == Some(v@),
                None => lookup(self@, k@) is None,
            },
    {
        match self.find(k) {
            Some(i) => Some(self.value_at(i)),
            None => None,
        }
    }

    /// The value at a place, to be changed.
    pub fn value_at_mut(&mut self, i: usize) -> (r: &mut V)
        requires
            i < old(self)@.len(),
        ensures
            (*r)@ == old(self)@[i as int].1,
            final(self)@ == old(self)@.update(
                i as int,
                (old(self)@[i as int].0, (*final(r))@),
            ),
        no_unwind
    {
        proof {
            use_type_invariant(&*self);
        }
        &mut self.values[i]
    }

    /// The place of a key.
    pub fn place(&self, k: &K) -> (r: Option<usize>)
        ensures
            match r {
                Some(i) => {
                    &&& i < self@.len()
                    &&& position(self@, k@) == Some(i as int)
                    &&& self@[i as int].0 == k@
                },
                None => position(self@, k@) is None,
            },
    {
        proof {
            lemma_position(self@, k@);
        }
        self.find(k)
    }

    pub fn insert(&mut self, k: K, v: V)
        ensures
            final(self)@ == put(old(self)@, k@, v@),
            distinct(old(self)@),
            distinct(final(self)@),
    {
        let ghost kv = k@;
        let ghost vv = v@;
        proof {
            use_type_invariant(&*self);
            lemma_once(self.keys@, self.values@);
            law_put(self@, k@, v@, k@);
        }
        let found = self.find(&k);
        let mut whole: Self = Assoc::new();
        std::mem::swap(self, &mut whole);
        let (mut keys, mut values) = whole.into_parts();
        match found {
            Some(i) => {
                keys.set(i, k);
                values.set(i, v);
            },
            None => {
                keys.push(k);
                values.push(v);
            },
        }
        proof {
            assert(entries(keys@, values@) =~= put(old(self)@, kv, vv));
            lemma_once(keys@, values@);
        }
        *self = Assoc { keys, values };
    }

    pub fn remove(&mut self, k: &K) -> (r: Option<V>)
        ensures
            final(self)@ == without(old(self)@, k@),
            !has_key(final(self)@, k@),
            distinct(old(self)@),
            distinct(final(self)@),
            match r {
                Some(v) => lookup(old(self)@, k@) == Some(v@),
                None => lookup(old(self)@, k@) is None,
            },
    {
        proof {
            use_type_invariant(&*self);
            lemma_once(self.keys@, self.values@);
            law_without(self@, k@, k@);
        }
        match self.find(k) {
            Some(i) => {
                let mut whole: Self = Assoc::new();
                std::mem::swap(self, &mut whole);
                let (mut keys, mut values) = whole.into_parts();
                keys.remove(i);
                let v = values.remove(i);
                proof {
                    assert(entries(keys@, values@) =~= without(old(self)@, k@));
                    lemma_once(keys@, values@);
                }
                *self = Assoc { keys, values };
                Some(v)
            },
            None => None,
        }
    }

    fn into_parts(self) -> (r: (Vec<K>, Vec<V>))
        ensures
            r.0@.len() == r.1@.len(),
            entries(r.0@, r.1@) == self@,
    {
        proof {
            use_type_invariant(&self);
        }
        (self.keys, self.values)
    }
}

/// Where an element stands first, if it does.
pub open spec fn place_of<A>(s: Seq<A>, a: A) -> Option<int>
    decreases s.len(),
{
    if s.len() == 0 {
        None
    } else {
        match place_of(s.drop_last(), a) {
            Some(i) => Some(i),
            None => if s.last() == a {
                Some(s.len() - 1)
            } else {
                None
            },
        }
    }
}

/// The set with `a`: at the end if it was not there.
pub open spec fn with_element<A>(s: Seq<A>, a: A) -> Seq<A> {
    if s.contains(a) {
        s
    } else {
        s.push(a)
    }
}

/// The set without `a`.
pub open spec fn without_element<A>(s: Seq<A>, a: A) -> Seq<A> {
    match place_of(s, a) {
        Some(i) => s.remove(i),
        None => s,
    }
}

/// A place, where there is one, is that of the element, and the first.
pub proof fn lemma_place_of<A>(s: Seq<A>, a: A)
    ensures
        place_of(s, a) matches Some(i) ==> 0 <= i < s.len() && s[i] == a,
        place_of(s, a) matches Some(i) ==> forall|j: int| 0 <= j < i ==> s[j] != a,
        place_of(s, a) is None <==> !s.contains(a),
    decreases s.len(),
{
    if s.len() > 0 {
        let d = s.drop_last();
        lemma_place_of(d, a);
        assert(forall|j: int| 0 <= j < d.len() ==> d[j] == s[j]);
        if s.contains(a) {
            let w = choose|w: int| 0 <= w < s.len() && s[w] == a;
            if w < d.len() {
                assert(d[w] == a);
                assert(d.contains(a));
            }
        }
        if d.contains(a) {
            let w = choose|w: int| 0 <= w < d.len() && d[w] == a;
            assert(s[w] == a);
        }
        if s.last() == a {
            assert(s[s.len() - 1] == a);
        }
    }
}

/// After an element was put in it is there, the others are as before and where they
/// were, and none comes to stand twice.
pub proof fn law_with_element<A>(s: Seq<A>, a: A, other: A)
    ensures
        with_element(s, a).contains(a),
        other != a ==> with_element(s, a).contains(other) == s.contains(other),
        s.is_prefix_of(with_element(s, a)),
        s.no_duplicates() ==> with_element(s, a).no_duplicates(),
        s.contains(a) ==> with_element(s, a) == s,
        !s.contains(a) ==> with_element(s, a).last() == a && with_element(s, a).len() == s.len() + 1,
{
    let t = with_element(s, a);
    if !s.contains(a) {
        assert(t[s.len() as int] == a);
        if s.contains(other) {
            let i = choose|i: int| 0 <= i < s.len() && s[i] == other;
            assert(t[i] == other);
        }
        if t.contains(other) && other != a {
            let i = choose|i: int| 0 <= i < t.len() && t[i] == other;
            assert(s[i] == other);
        }
    }
}

/// After an element was taken out it is gone, the others stay, and none comes
/// to stand twice.
pub proof fn law_without_element<A>(s: Seq<A>, a: A, other: A)
    requires
        s.no_duplicates(),
    ensures
        !without_element(s, a).contains(a),
        other != a ==> without_element(s, a).contains(other) == s.contains(other),
        without_element(s, a).no_duplicates(),
{
    let t = without_element(s, a);
    lemma_place_of(s, a);
    match place_of(s, a) {
        Some(i) => {
            assert(forall|j: int| 0 <= j < i ==> t[j] == s[j]);
            assert(forall|j: int| i <= j < t.len() ==> t[j] == s[j + 1]);
            assert forall|j: int| 0 <= j < t.len() implies t[j] != a by {
                let j1 = if j < i { j } else { j + 1 };
                assert(s[j1] != s[i]);
            }
            assert forall|x: int, y: int| 0 <= x < t.len() && 0 <= y < t.len() && x != y implies t[x]
                != t[y] by {
                let x1 = if x < i { x } else { x + 1 };
                let y1 = if y < i { y } else { y + 1 };
                assert(s[x1] != s[y1]);
            }
            if other != a && s.contains(other) {
                let w = choose|w: int| 0 <= w < s.len() && s[w] == other;
                let w1 = if w < i { w } else { w - 1 };
                assert(t[w1] == other);
            }
            if t.contains(other) {
                let w = choose|w: int| 0 <= w < t.len() && t[w] == other;
                let w1 = if w < i { w } else { w + 1 };
                assert(s[w1] == other);
            }
        },
        None => {},
    }
}

/// A set whose elements keep the order in which they came. None stands twice.
pub struct KeySet<K: View> {
    elements: Vec<K>,
}

impl<K: View> View for KeySet<K> {
    type V = Seq<K::V>;

    closed spec fn view(&self) -> Seq<K::V> {
        self.elements@.map_values(|e: K| e@)
    }
}

impl<K: View> KeySet<K> {
    #[verifier::type_invariant]
    spec fn elements_once(self) -> bool {
        self@.no_duplicates()
    }
}

impl<K: Key> KeySet<K> {
    pub fn new() -> (r: Self)
        ensures
            r@ == Seq::<K::V>::empty(),
    {
        let elements: Vec<K> = Vec::new();
        assert(elements@.map_values(|e: K| e@) =~= Seq::<K::V>::empty());
        KeySet { elements }
    }

    pub fn len(&self) -> (r: usize)
        ensures
            r == self@.len(),
    {
        self.elements.len()
    }

    /// The element at a place.
    pub fn at(&self, i: usize) -> (r: &K)
        requires
            i < self@.len(),
        ensures
            r@ == self@[i as int],
    {
        &self.elements[i]
    }

    fn find(&self, k: &K) -> (r: Option<usize>)
        ensures
            match r {
                Some(i) => i < self@.len() && place_of(self@, k@) == Some(i as int) && self@.contains(
                    k@,
                ),
                None => place_of(self@, k@) is None && !self@.contains(k@),
            },
    {
        proof {
            lemma_place_of(self@, k@);
        }
        let mut i: usize = 0;
        while i < self.elements.len()
            invariant
                i <= self@.len(),
                self@.len() == self.elements@.len(),
                forall|j: int| 0 <= j < i ==> self@[j] != k@,
                place_of(self@, k@) matches Some(p) ==> 0 <= p < self@.len() && self@[p] == k@,
                place_of(self@, k@) matches Some(p) ==> forall|j: int|
                    0 <= j < p ==> self@[j] != k@,
                place_of(self@, k@) is None <==> !self@.contains(k@),
            decreases self.elements.len() - i,
        {
            assert(self@[i as int] == self.elements@[i as int]@);
            if self.elements[i].same(k) {
                assert(self@.contains(k@));
                assert(place_of(self@, k@)->0 == i);
                return Some(i);
            }
            i = i + 1;
        }
        None
    }

    pub fn contains(&self, k: &K) -> (r: bool)
        ensures
            r == self@.contains(k@),
    {
        self.find(k).is_some()
    }

    pub fn insert(&mut self, k: K)
        ensures
            final(self)@ == with_element(old(self)@, k@),
            old(self)@.no_duplicates(),
            final(self)@.no_duplicates(),
    {
        let ghost kv = k@;
        proof {
            use_type_invariant(&*self);
        }
        if self.find(&k).is_none() {
            let mut elements = self.take_elements();
            elements.push(k);
            assert(elements@.map_values(|e: K| e@) =~= old(self)@.push(kv));
            self.elements = elements;
        }
    }

    /// Takes the elements out.
    fn take_elements(&mut self) -> (r: Vec<K>)
        ensures
            r@ == old(self).elements@,
            final(self)@ == Seq::<K::V>::empty(),
    {
        let mut out = KeySet::new();
        std::mem::swap(self, &mut out);
        out.into_elements()
    }

    fn into_elements(self) -> (r: Vec<K>)
        ensures
            r@ == self.elements@,
    {
        self.elements
    }

    pub fn remove(&mut self, k: &K)
        ensures
            final(self)@ == without_element(old(self)@, k@),
            !final(self)@.contains(k@),
            old(self)@.no_duplicates(),
            final(self)@.no_duplicates(),
    {
        proof {
            use_type_invariant(&*self);
            law_without_element(self@, k@, k@);
        }
        match self.find(k) {
            Some(i) => {
                let mut elements = self.take_elements();
                elements.remove(i);
                assert(elements@.map_values(|e: K| e@) =~= without_element(old(self)@, k@));
                self.elements = elements;
            },
            None => {},
        }
    }

    pub fn clear(&mut self)
        ensures
            final(self)@ == Seq::<K::V>::empty(),
    {
        let _ = self.take_elements();
    }
}

} // verus!
