//! Map fields: associations from unique keys to values, whose text and bytes live in an
//! arena.
//!
//! Callers reach a map field through its view ([`MapView`]) or its mutator ([`MapMut`]);
//! [`ProtoMap`] owns the storage of a standalone one. Entries have no defined order.

use std::marker::PhantomData;

use vstd::prelude::*;

use crate::arena::{lemma_extends_trans, Arena};
use crate::bridge::{lemma_value_stable, FieldValue, ProtoStr, UpbCType, UpbTypeConversions};
use crate::repeated::{lemma_well_typed_grow, values_in, well_typed};
use crate::proxied::{MutProxy, Proxied, SettableValue, ViewProxy};
use crate::runtime::{InnerMapMut, RawMap};

verus! {

/// Types that can be the keys of a map field. Keys are scalars or text.
pub trait ProxiedInMapKey: UpbTypeConversions {

}

impl ProxiedInMapKey for bool {

}

impl ProxiedInMapKey for i32 {

}

impl ProxiedInMapKey for u32 {

}

impl ProxiedInMapKey for i64 {

}

impl ProxiedInMapKey for u64 {

}

impl ProxiedInMapKey for ProtoStr {

}

/// The association that keys `ks` and values `vs`, position by position, stand for.
pub open spec fn map_model(ks: Seq<FieldValue>, vs: Seq<FieldValue>) -> Map<FieldValue, FieldValue> {
    Map::new(|k: FieldValue| ks.contains(k), |k: FieldValue| vs[ks.index_of(k)])
}

/// `raw` holds one well-formed value of `vt` for each of its keys, which are well-formed,
/// distinct values of `kt`.
pub open spec fn map_wf(kt: UpbCType, vt: UpbCType, arena: Seq<Seq<u8>>, raw: RawMap) -> bool {
    &&& raw.keys@.len() == raw.values@.len()
    &&& well_typed(kt, arena, raw.keys@)
    &&& well_typed(vt, arena, raw.values@)
    &&& values_in(arena, raw.keys@).no_duplicates()
}

/// The association that `raw` stands for, read against `arena`.
pub open spec fn map_in(arena: Seq<Seq<u8>>, raw: RawMap) -> Map<FieldValue, FieldValue> {
    map_model(values_in(arena, raw.keys@), values_in(arena, raw.values@))
}

/// With distinct keys, the key at each position maps to the value at that position.
pub proof fn lemma_map_model_index(ks: Seq<FieldValue>, vs: Seq<FieldValue>, i: int)
    requires
        ks.no_duplicates(),
        ks.len() == vs.len(),
        0 <= i < ks.len(),
    ensures
        map_model(ks, vs).contains_key(ks[i]),
        map_model(ks, vs)[ks[i]] == vs[i],
{
    assert(ks.contains(ks[i]));
    let j = ks.index_of(ks[i]);
    assert(0 <= j < ks.len() && ks[j] == ks[i]);
}

/// Distinct keys have as many entries as positions.
pub proof fn lemma_map_model_len(ks: Seq<FieldValue>, vs: Seq<FieldValue>)
    requires
        ks.no_duplicates(),
    ensures
        map_model(ks, vs).dom() == ks.to_set(),
        map_model(ks, vs).dom().len() == ks.len(),
{
    assert(map_model(ks, vs).dom() =~= ks.to_set());
    ks.unique_seq_to_set();
}

/// Appending a new key and its value adds that entry.
pub proof fn lemma_map_model_push(ks: Seq<FieldValue>, vs: Seq<FieldValue>, k: FieldValue, v: FieldValue)
    requires
        ks.no_duplicates(),
        ks.len() == vs.len(),
        !ks.contains(k),
    ensures
        ks.push(k).no_duplicates(),
        map_model(ks.push(k), vs.push(v)) == map_model(ks, vs).insert(k, v),
{
    let ks2 = ks.push(k);
    let vs2 = vs.push(v);
    assert(ks2.no_duplicates()) by {
        assert forall|i: int, j: int| 0 <= i < ks2.len() && 0 <= j < ks2.len() && i != j
            implies ks2[i] != ks2[j] by {
            if i < ks.len() && j < ks.len() {
            } else if i < ks.len() {
                assert(ks.contains(ks[i]));
            } else {
                assert(ks.contains(ks[j]));
            }
        }
    }
    let m1 = map_model(ks2, vs2);
    let m2 = map_model(ks, vs).insert(k, v);
    assert forall|x: FieldValue| m1.contains_key(x) <==> m2.contains_key(x) by {
        if ks2.contains(x) {
            let i = choose|i: int| 0 <= i < ks2.len() && ks2[i] == x;
            if i < ks.len() {
                assert(ks.contains(x));
            }
        }
        if ks.contains(x) {
            let i = choose|i: int| 0 <= i < ks.len() && ks[i] == x;
            assert(ks2[i] == x);
        }
        if x == k {
            assert(ks2[ks.len() as int] == k);
        }
    }
    assert forall|x: FieldValue| #[trigger] m1.contains_key(x) implies m1[x] == m2[x] by {
        let i = choose|i: int| 0 <= i < ks2.len() && ks2[i] == x;
        lemma_map_model_index(ks2, vs2, i);
        if i < ks.len() {
            lemma_map_model_index(ks, vs, i);
        }
    }
    assert(m1 =~= m2);
}

/// Replacing the value at a position replaces the entry of the key there.
pub proof fn lemma_map_model_update(ks: Seq<FieldValue>, vs: Seq<FieldValue>, i: int, v: FieldValue)
    requires
        ks.no_duplicates(),
        ks.len() == vs.len(),
        0 <= i < ks.len(),
    ensures
        map_model(ks, vs.update(i, v)) == map_model(ks, vs).insert(ks[i], v),
{
    let vs2 = vs.update(i, v);
    let m1 = map_model(ks, vs2);
    let m2 = map_model(ks, vs).insert(ks[i], v);
    assert(ks.contains(ks[i]));
    assert forall|x: FieldValue| #[trigger] m1.contains_key(x) implies m1[x] == m2[x] by {
        let j = choose|j: int| 0 <= j < ks.len() && ks[j] == x;
        lemma_map_model_index(ks, vs2, j);
        lemma_map_model_index(ks, vs, j);
    }
    assert(m1 =~= m2);
}

/// Taking out the key at a position, and its value, takes out that entry.
pub proof fn lemma_map_model_remove(ks: Seq<FieldValue>, vs: Seq<FieldValue>, i: int)
    requires
        ks.no_duplicates(),
        ks.len() == vs.len(),
        0 <= i < ks.len(),
    ensures
        ks.remove(i).no_duplicates(),
        map_model(ks.remove(i), vs.remove(i)) == map_model(ks, vs).remove(ks[i]),
{
    let ks2 = ks.remove(i);
    let vs2 = vs.remove(i);
    // Position `j` of the shorter sequences is position `j` or `j + 1` of the longer ones.
    assert forall|j: int| 0 <= j < ks2.len() implies #[trigger] ks2[j] == ks[if j < i {
        j
    } else {
        j + 1
    }] && vs2[j] == vs[if j < i {
        j
    } else {
        j + 1
    }] by {}
    assert(ks2.no_duplicates()) by {
        assert forall|a: int, b: int| 0 <= a < ks2.len() && 0 <= b < ks2.len() && a != b
            implies ks2[a] != ks2[b] by {
            let a1 = if a < i { a } else { a + 1 };
            let b1 = if b < i { b } else { b + 1 };
            assert(ks2[a] == ks[a1] && ks2[b] == ks[b1]);
        }
    }
    let m1 = map_model(ks2, vs2);
    let m2 = map_model(ks, vs).remove(ks[i]);
    assert forall|x: FieldValue| m1.contains_key(x) <==> m2.contains_key(x) by {
        if ks2.contains(x) {
            let j = choose|j: int| 0 <= j < ks2.len() && ks2[j] == x;
            let j1 = if j < i { j } else { j + 1 };
            assert(ks[j1] == x);
            assert(ks.contains(x));
        }
        if ks.contains(x) && x != ks[i] {
            let j = choose|j: int| 0 <= j < ks.len() && ks[j] == x;
            if j < i {
                assert(ks2[j] == x);
            } else {
                assert(ks2[j - 1] == x);
            }
        }
    }
    assert forall|x: FieldValue| #[trigger] m1.contains_key(x) implies m1[x] == m2[x] by {
        let j = choose|j: int| 0 <= j < ks2.len() && ks2[j] == x;
        let j1 = if j < i { j } else { j + 1 };
        lemma_map_model_index(ks2, vs2, j);
        lemma_map_model_index(ks, vs, j1);
    }
    assert(m1 =~= m2);
}

/// Growing the arena keeps a well-formed map well formed, with the same entries.
pub proof fn lemma_map_grow(
    kt: UpbCType,
    vt: UpbCType,
    before: Seq<Seq<u8>>,
    after: Seq<Seq<u8>>,
    raw: RawMap,
)
    requires
        map_wf(kt, vt, before, raw),
        crate::arena::extends(before, after),
    ensures
        map_wf(kt, vt, after, raw),
        map_in(after, raw) == map_in(before, raw),
{
    lemma_well_typed_grow(kt, before, after, raw.keys@);
    lemma_well_typed_grow(vt, before, after, raw.values@);
}

/// The position of `key` among the keys of `raw`, if it is there.
fn find<K: ?Sized + ProxiedInMapKey>(raw: &RawMap, arena: &Arena, key: K::View<'_>) -> (r: Option<
    usize,
>)
    requires
        well_typed(K::ctype(), arena@, raw.keys@),
    ensures
        r matches Some(i) ==> i < raw.keys@.len() && values_in(arena@, raw.keys@)[i as int]
            == K::view_value(key),
        r is None ==> !values_in(arena@, raw.keys@).contains(K::view_value(key)),
{
    let ghost ks = values_in(arena@, raw.keys@);
    let mut i: usize = 0;
    while i < raw.keys.len()
        invariant
            well_typed(K::ctype(), arena@, raw.keys@),
            ks == values_in(arena@, raw.keys@),
            i <= raw.keys@.len(),
            forall|j: int| 0 <= j < i ==> ks[j] != K::view_value(key),
        decreases raw.keys@.len() - i,
    {
        if K::matches(arena, raw.keys[i], key) {
            return Some(i);
        }
        i = i + 1;
    }
    None
}

/// Shared access to the entries of a map field from `K` to `V`.
#[derive(Debug)]
pub struct MapView<'msg, K: ?Sized, V: ?Sized> {
    pub raw: &'msg RawMap,
    pub arena: &'msg Arena,
    pub key_type: PhantomData<K>,
    pub value_type: PhantomData<V>,
}

impl<'msg, K: ?Sized, V: ?Sized> Clone for MapView<'msg, K, V> {
    fn clone(&self) -> (r: Self)
        ensures
            r == *self,
    {
        *self
    }
}

impl<'msg, K: ?Sized, V: ?Sized> Copy for MapView<'msg, K, V> {

}

impl<'msg, K: ?Sized + ProxiedInMapKey, V: ?Sized + UpbTypeConversions> View for MapView<'msg, K, V> {
    type V = Map<FieldValue, FieldValue>;

    open spec fn view(&self) -> Map<FieldValue, FieldValue> {
        map_in(self.arena@, *self.raw)
    }
}

impl<'msg, K: ?Sized + ProxiedInMapKey, V: ?Sized + UpbTypeConversions> MapView<'msg, K, V> {
    /// Keys are distinct, and keys and values are well-formed values of `K` and `V`.
    pub open spec fn wf(&self) -> bool {
        map_wf(K::ctype(), V::ctype(), self.arena@, *self.raw)
    }

    /// A view of the entries `raw`, whose text and bytes live in `arena`.
    pub fn from_raw(raw: &'msg RawMap, arena: &'msg Arena) -> (r: Self)
        ensures
            r.raw == raw,
            r.arena == arena,
    {
        MapView { raw, arena, key_type: PhantomData, value_type: PhantomData }
    }

    /// The storage behind this view.
    pub fn as_raw(&self) -> (r: &'msg RawMap)
        ensures
            r == self.raw,
    {
        self.raw
    }

    /// The number of entries.
    pub fn len(&self) -> (r: usize)
        requires
            self.wf(),
        ensures
            r == self@.len(),
    {
        proof {
            lemma_map_model_len(values_in(self.arena@, self.raw.keys@), values_in(self.arena@, self.raw.values@));
        }
        self.raw.keys.len()
    }

    /// Whether there are no entries.
    pub fn is_empty(&self) -> (r: bool)
        requires
            self.wf(),
        ensures
            r == (self@.len() == 0),
    {
        self.len() == 0
    }

    /// The value for `key`, or `None` when there is none.
    pub fn get(self, key: K::View<'_>) -> (r: Option<V::View<'msg>>)
        requires
            self.wf(),
        ensures
            r is Some <==> self@.contains_key(K::view_value(key)),
            r matches Some(v) ==> V::view_value(v) == self@[K::view_value(key)],
    {
        let ghost ks = values_in(self.arena@, self.raw.keys@);
        let ghost vs = values_in(self.arena@, self.raw.values@);
        match find::<K>(self.raw, self.arena, key) {
            Some(i) => {
                proof {
                    lemma_map_model_index(ks, vs, i as int);
                }
                Some(V::from_message_value(self.arena, self.raw.values[i]))
            },
            None => None,
        }
    }
}

/// Exclusive access to the entries of a map field from `K` to `V`.
#[derive(Debug)]
pub struct MapMut<'msg, K: ?Sized, V: ?Sized> {
    pub inner: InnerMapMut<'msg>,
    pub key_type: PhantomData<K>,
    pub value_type: PhantomData<V>,
}

impl<'msg, K: ?Sized, V: ?Sized> MapMut<'msg, K, V> {
    /// The storage that the mutator sees now.
    pub open spec fn raw_map(&self) -> RawMap {
        *self.inner.raw
    }

    /// The blocks of the arena that the mutator sees now.
    pub open spec fn arena_blocks(&self) -> Seq<Seq<u8>> {
        (*self.inner.arena)@
    }
}

impl<'msg, K: ?Sized + ProxiedInMapKey, V: ?Sized + UpbTypeConversions> View for MapMut<'msg, K, V> {
    type V = Map<FieldValue, FieldValue>;

    open spec fn view(&self) -> Map<FieldValue, FieldValue> {
        map_in(self.arena_blocks(), self.raw_map())
    }
}

impl<'msg, K: ?Sized + ProxiedInMapKey, V: ?Sized + UpbTypeConversions> MapMut<'msg, K, V> {
    /// Keys are distinct, and keys and values are well-formed values of `K` and `V`.
    pub open spec fn wf(&self) -> bool {
        map_wf(K::ctype(), V::ctype(), self.arena_blocks(), self.raw_map())
    }

    /// A mutator over the storage that `inner` gives access to.
    pub fn from_inner(inner: InnerMapMut<'msg>) -> (r: Self)
        ensures
            r.inner == inner,
    {
        MapMut { inner, key_type: PhantomData, value_type: PhantomData }
    }

    fn view_of(&self) -> (r: MapView<'_, K, V>)
        ensures
            *r.raw == self.raw_map(),
            r.arena@ == self.arena_blocks(),
    {
        MapView::from_raw(&*self.inner.raw, &*self.inner.arena)
    }

    /// The number of entries.
    pub fn len(&self) -> (r: usize)
        requires
            self.wf(),
        ensures
            r == self@.len(),
    {
        self.view_of().len()
    }

    /// Whether there are no entries.
    pub fn is_empty(&self) -> (r: bool)
        requires
            self.wf(),
        ensures
            r == (self@.len() == 0),
    {
        self.len() == 0
    }

    /// The value for `key`, or `None` when there is none.
    pub fn get(&self, key: K::View<'_>) -> (r: Option<V::View<'_>>)
        requires
            self.wf(),
        ensures
            r is Some <==> self@.contains_key(K::view_value(key)),
            r matches Some(v) ==> V::view_value(v) == self@[K::view_value(key)],
    {
        self.view_of().get(key)
    }

    /// Sets the value for `key` to `value`, replacing any value it had. Returns whether
    /// `key` was newly added. Text and bytes, of the key and of the value, are copied into
    /// this field's arena.
    pub fn insert(&mut self, key: K::View<'_>, value: V::View<'_>) -> (r: bool)
        requires
            old(self).wf(),
        ensures
            final(self).wf(),
            final(self)@ == old(self)@.insert(K::view_value(key), V::view_value(value)),
            r == !old(self)@.contains_key(K::view_value(key)),
            *final(final(self).inner.raw) == *final(old(self).inner.raw),
            *final(final(self).inner.arena) == *final(old(self).inner.arena),
    {
        let ghost a0 = self.arena_blocks();
        let ghost raw0 = self.raw_map();
        let ghost ks = values_in(a0, raw0.keys@);
        let ghost vs = values_in(a0, raw0.values@);
        let found = find::<K>(&*self.inner.raw, &*self.inner.arena, key);
        proof {
            lemma_map_model_len(ks, vs);
        }
        match found {
            Some(i) => {
                let mv = V::to_message_value_copy_if_required(&mut *self.inner.arena, value);
                let ghost a1 = self.arena_blocks();
                proof {
                    lemma_map_grow(K::ctype(), V::ctype(), a0, a1, raw0);
                    lemma_map_model_update(ks, vs, i as int, V::view_value(value));
                }
                self.inner.raw.values.set(i, mv);
                assert(values_in(a1, self.raw_map().values@) =~= vs.update(i as int, V::view_value(value)));
                assert(values_in(a1, self.raw_map().keys@) == ks);
                false
            },
            None => {
                let kmv = K::to_message_value_copy_if_required(&mut *self.inner.arena, key);
                let ghost a1 = self.arena_blocks();
                let vmv = V::to_message_value_copy_if_required(&mut *self.inner.arena, value);
                let ghost a2 = self.arena_blocks();
                proof {
                    lemma_extends_trans(a0, a1, a2);
                    lemma_map_grow(K::ctype(), V::ctype(), a0, a2, raw0);
                    lemma_value_stable(a1, a2, kmv);
                    lemma_map_model_push(ks, vs, K::view_value(key), V::view_value(value));
                }
                self.inner.raw.keys.push(kmv);
                self.inner.raw.values.push(vmv);
                assert(values_in(a2, self.raw_map().keys@) =~= ks.push(K::view_value(key)));
                assert(values_in(a2, self.raw_map().values@) =~= vs.push(V::view_value(value)));
                true
            },
        }
    }

    /// Removes the entry for `key`. Returns whether there was one.
    pub fn remove(&mut self, key: K::View<'_>) -> (r: bool)
        requires
            old(self).wf(),
        ensures
            final(self).wf(),
            final(self)@ == old(self)@.remove(K::view_value(key)),
            r == old(self)@.contains_key(K::view_value(key)),
            *final(final(self).inner.raw) == *final(old(self).inner.raw),
            *final(final(self).inner.arena) == *final(old(self).inner.arena),
    {
        let ghost a0 = self.arena_blocks();
        let ghost raw0 = self.raw_map();
        let ghost ks = values_in(a0, raw0.keys@);
        let ghost vs = values_in(a0, raw0.values@);
        match find::<K>(&*self.inner.raw, &*self.inner.arena, key) {
            Some(i) => {
                proof {
                    lemma_map_model_index(ks, vs, i as int);
                    lemma_map_model_remove(ks, vs, i as int);
                }
                self.inner.raw.keys.remove(i);
                self.inner.raw.values.remove(i);
                assert(values_in(a0, self.raw_map().keys@) =~= ks.remove(i as int));
                assert(values_in(a0, self.raw_map().values@) =~= vs.remove(i as int));
                true
            },
            None => {
                assert(old(self)@ =~= old(self)@.remove(K::view_value(key)));
                false
            },
        }
    }

    /// Removes every entry. Arena space already used is not given back.
    pub fn clear(&mut self)
        ensures
            final(self).wf(),
            final(self)@ == Map::<FieldValue, FieldValue>::empty(),
            *final(final(self).inner.raw) == *final(old(self).inner.raw),
            *final(final(self).inner.arena) == *final(old(self).inner.arena),
    {
        self.inner.raw.keys.clear();
        self.inner.raw.values.clear();
        assert(values_in(self.arena_blocks(), self.raw_map().keys@) =~= Seq::<FieldValue>::empty());
        assert(self@ =~= Map::<FieldValue, FieldValue>::empty());
    }

    /// Replaces the entries with copies of those of `src`; text and bytes are copied into
    /// this field's arena.
    pub fn copy_from(&mut self, src: MapView<'_, K, V>)
        requires
            old(self).wf(),
            src.wf(),
        ensures
            final(self).wf(),
            final(self)@ == src@,
            *final(final(self).inner.raw) == *final(old(self).inner.raw),
            *final(final(self).inner.arena) == *final(old(self).inner.arena),
    {
        self.clear();
        let ghost ks = values_in(src.arena@, src.raw.keys@);
        let ghost vs = values_in(src.arena@, src.raw.values@);
        let mut i: usize = 0;
        while i < src.raw.keys.len()
            invariant
                src.wf(),
                self.wf(),
                ks == values_in(src.arena@, src.raw.keys@),
                vs == values_in(src.arena@, src.raw.values@),
                i <= ks.len(),
                self@ == map_model(ks.subrange(0, i as int), vs.subrange(0, i as int)),
                *final(self.inner.raw) == *final(old(self).inner.raw),
                *final(self.inner.arena) == *final(old(self).inner.arena),
            decreases ks.len() - i,
        {
            let k = K::from_message_value(src.arena, src.raw.keys[i]);
            let v = V::from_message_value(src.arena, src.raw.values[i]);
            proof {
                assert(ks.subrange(0, i + 1) =~= ks.subrange(0, i as int).push(ks[i as int]));
                assert(vs.subrange(0, i + 1) =~= vs.subrange(0, i as int).push(vs[i as int]));
                assert(!ks.subrange(0, i as int).contains(ks[i as int]));
                lemma_map_model_push(ks.subrange(0, i as int), vs.subrange(0, i as int), ks[i as int], vs[i as int]);
            }
            self.insert(k, v);
            i = i + 1;
        }
        assert(ks.subrange(0, i as int) =~= ks);
        assert(vs.subrange(0, i as int) =~= vs);
    }
}

/// An owned, standalone map field from `K` to `V`, with an arena of its own.
#[derive(Debug)]
pub struct ProtoMap<K: ?Sized, V: ?Sized> {
    pub raw: RawMap,
    pub arena: Arena,
    pub key_type: PhantomData<K>,
    pub value_type: PhantomData<V>,
}

impl<K: ?Sized + ProxiedInMapKey, V: ?Sized + UpbTypeConversions> View for ProtoMap<K, V> {
    type V = Map<FieldValue, FieldValue>;

    open spec fn view(&self) -> Map<FieldValue, FieldValue> {
        map_in(self.arena@, self.raw)
    }
}

impl<K: ?Sized + ProxiedInMapKey, V: ?Sized + UpbTypeConversions> ProtoMap<K, V> {
    /// Keys are distinct, and keys and values are well-formed values of `K` and `V`.
    pub open spec fn wf(&self) -> bool {
        map_wf(K::ctype(), V::ctype(), self.arena@, self.raw)
    }

    /// An empty map field with a fresh arena.
    pub fn new() -> (r: Self)
        ensures
            r.wf(),
            r@ == Map::<FieldValue, FieldValue>::empty(),
    {
        let r = ProtoMap {
            raw: RawMap::new(),
            arena: Arena::new(),
            key_type: PhantomData,
            value_type: PhantomData,
        };
        assert(values_in(r.arena@, r.raw.keys@) =~= Seq::<FieldValue>::empty());
        assert(r@ =~= Map::<FieldValue, FieldValue>::empty());
        r
    }

    /// A mutator of this field, borrowed for as long as `self` is.
    pub fn as_mut(&mut self) -> (r: MapMut<'_, K, V>)
        ensures
            *r.inner.raw == old(self).raw,
            *r.inner.arena == old(self).arena,
            r@ == old(self)@,
            old(self).wf() ==> r.wf(),
            final(self).raw == *final(r.inner.raw),
            final(self).arena == *final(r.inner.arena),
    {
        MapMut::from_inner(InnerMapMut::new(&mut self.raw, &mut self.arena))
    }

    /// A view of this field, borrowed for as long as `self` is.
    pub fn as_view(&self) -> (r: MapView<'_, K, V>)
        ensures
            *r.raw == self.raw,
            *r.arena == self.arena,
            r@ == self@,
            self.wf() ==> r.wf(),
    {
        MapView::from_raw(&self.raw, &self.arena)
    }
}

impl<K: ?Sized + ProxiedInMapKey, V: ?Sized + UpbTypeConversions> Proxied for ProtoMap<K, V> {
    type Model = Map<FieldValue, FieldValue>;

    type View<'msg> = MapView<'msg, K, V>;

    type Mut<'msg> = MapMut<'msg, K, V>;

    open spec fn view_model<'msg>(v: MapView<'msg, K, V>) -> Map<FieldValue, FieldValue> {
        v@
    }

    open spec fn mut_model<'msg>(m: MapMut<'msg, K, V>) -> Map<FieldValue, FieldValue> {
        m@
    }

    open spec fn view_valid<'msg>(v: MapView<'msg, K, V>) -> bool {
        v.wf()
    }

    open spec fn mut_valid<'msg>(m: MapMut<'msg, K, V>) -> bool {
        m.wf()
    }
}

impl<'msg, K: ?Sized + ProxiedInMapKey + 'msg, V: ?Sized + UpbTypeConversions + 'msg> ViewProxy<
    'msg,
> for MapView<'msg, K, V> {
    type Proxied = ProtoMap<K, V>;

    open spec fn model(&self) -> Map<FieldValue, FieldValue> {
        self@
    }

    open spec fn valid(&self) -> bool {
        self.wf()
    }

    fn as_view(&self) -> (r: MapView<'_, K, V>) {
        *self
    }

    fn into_view<'shorter>(self) -> (r: MapView<'shorter, K, V>) where 'msg: 'shorter {
        MapView::from_raw(self.raw, self.arena)
    }
}

impl<'msg, K: ?Sized + ProxiedInMapKey + 'msg, V: ?Sized + UpbTypeConversions + 'msg> ViewProxy<
    'msg,
> for MapMut<'msg, K, V> {
    type Proxied = ProtoMap<K, V>;

    open spec fn model(&self) -> Map<FieldValue, FieldValue> {
        self@
    }

    open spec fn valid(&self) -> bool {
        self.wf()
    }

    fn as_view(&self) -> (r: MapView<'_, K, V>) {
        self.view_of()
    }

    fn into_view<'shorter>(self) -> (r: MapView<'shorter, K, V>) where 'msg: 'shorter {
        MapView::from_raw(self.inner.raw, self.inner.arena)
    }
}

impl<'msg, K: ?Sized + ProxiedInMapKey + 'msg, V: ?Sized + UpbTypeConversions + 'msg> MutProxy<
    'msg,
> for MapMut<'msg, K, V> {
    fn set<S: SettableValue<ProtoMap<K, V>>>(&mut self, val: S) {
        val.set_on(self)
    }

    fn as_mut(&mut self) -> (r: MapMut<'_, K, V>) {
        MapMut::from_inner(InnerMapMut::new(&mut *self.inner.raw, &mut *self.inner.arena))
    }

    fn into_mut<'shorter>(self) -> (r: MapMut<'shorter, K, V>) where 'msg: 'shorter {
        MapMut::from_inner(self.inner)
    }
}

impl<'msg, K: ?Sized + ProxiedInMapKey + 'msg, V: ?Sized + UpbTypeConversions + 'msg> SettableValue<
    ProtoMap<K, V>,
> for MapView<'msg, K, V> {
    open spec fn value_model(&self) -> Map<FieldValue, FieldValue> {
        self@
    }

    open spec fn valid(&self) -> bool {
        self.wf()
    }

    fn set_on<'b>(self, mutator: &mut MapMut<'b, K, V>) where ProtoMap<K, V>: 'b {
        mutator.copy_from(self)
    }
}

/// After `k` is set to `v`, looking up `k` gives `v`, and every other key keeps its entry.
pub proof fn lemma_insert_then_get(
    before: Map<FieldValue, FieldValue>,
    k: FieldValue,
    v: FieldValue,
    after: Map<FieldValue, FieldValue>,
)
    requires
        after == before.insert(k, v),
    ensures
        after.contains_key(k),
        after[k] == v,
        forall|x: FieldValue| x != k ==> (#[trigger] after.contains_key(x) <==> before.contains_key(x)),
        forall|x: FieldValue| x != k && before.contains_key(x) ==> #[trigger] after[x] == before[x],
{
}

/// After `k` is removed, looking up `k` gives nothing, and every other key keeps its entry.
pub proof fn lemma_remove_then_get(
    before: Map<FieldValue, FieldValue>,
    k: FieldValue,
    after: Map<FieldValue, FieldValue>,
)
    requires
        after == before.remove(k),
    ensures
        !after.contains_key(k),
        forall|x: FieldValue| x != k ==> (#[trigger] after.contains_key(x) <==> before.contains_key(x)),
        forall|x: FieldValue| x != k && before.contains_key(x) ==> #[trigger] after[x] == before[x],
{
}

} // verus!
