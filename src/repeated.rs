//! Repeated fields: ordered sequences of values whose text and bytes live in an arena.
//!
//! Callers reach a repeated field only through its view ([`RepeatedView`]) or its mutator
//! ([`RepeatedMut`]); [`Repeated`] owns the storage of a standalone one.

use std::marker::PhantomData;

use vstd::prelude::*;

use crate::arena::{extends, lemma_extends_refl, Arena};
use crate::bridge::{
    has_type, lemma_value_stable, valid_in, value_in, FieldValue, MessageValue, ProtoStr,
    UpbCType, UpbTypeConversions,
};
use crate::proxied::{MutProxy, Proxied, SettableValue, ViewProxy};
use crate::runtime::InnerRepeatedMut;

verus! {

/// Types that can be the elements of a repeated field.
pub trait ProxiedInRepeated: UpbTypeConversions {

}

impl ProxiedInRepeated for bool {

}

impl ProxiedInRepeated for i32 {

}

impl ProxiedInRepeated for u32 {

}

impl ProxiedInRepeated for i64 {

}

impl ProxiedInRepeated for u64 {

}

impl ProxiedInRepeated for [u8] {

}

impl ProxiedInRepeated for ProtoStr {

}

/// The values that the tagged elements `array` stand for, read against `arena`.
pub open spec fn values_in(arena: Seq<Seq<u8>>, array: Seq<MessageValue>) -> Seq<FieldValue> {
    array.map_values(|mv: MessageValue| value_in(arena, mv))
}

/// Every element of `array` is tagged `t` and refers only to blocks of `arena`.
pub open spec fn well_typed(t: UpbCType, arena: Seq<Seq<u8>>, array: Seq<MessageValue>) -> bool {
    forall|i: int|
        0 <= i < array.len() ==> has_type(#[trigger] array[i], t) && valid_in(arena, array[i])
}

/// Growing the arena keeps the elements valid and their values unchanged.
pub proof fn lemma_well_typed_grow(
    t: UpbCType,
    before: Seq<Seq<u8>>,
    after: Seq<Seq<u8>>,
    array: Seq<MessageValue>,
)
    requires
        well_typed(t, before, array),
        extends(before, after),
    ensures
        well_typed(t, after, array),
        values_in(after, array) == values_in(before, array),
{
    assert forall|i: int| 0 <= i < array.len() implies has_type(#[trigger] array[i], t)
        && valid_in(after, array[i]) by {
        lemma_value_stable(before, after, array[i]);
    }
    assert forall|i: int| 0 <= i < array.len() implies #[trigger] values_in(after, array)[i]
        == values_in(before, array)[i] by {
        lemma_value_stable(before, after, array[i]);
    }
    assert(values_in(after, array) =~= values_in(before, array));
}

/// Shared access to the elements of a repeated field of `T`.
#[derive(Debug)]
pub struct RepeatedView<'msg, T: ?Sized> {
    pub raw: &'msg Vec<MessageValue>,
    pub arena: &'msg Arena,
    pub phantom: PhantomData<T>,
}

impl<'msg, T: ?Sized> Clone for RepeatedView<'msg, T> {
    fn clone(&self) -> (r: Self)
        ensures
            r == *self,
    {
        *self
    }
}

impl<'msg, T: ?Sized> Copy for RepeatedView<'msg, T> {

}

impl<'msg, T: ?Sized + ProxiedInRepeated> View for RepeatedView<'msg, T> {
    type V = Seq<FieldValue>;

    open spec fn view(&self) -> Seq<FieldValue> {
        values_in(self.arena@, self.raw@)
    }
}

impl<'msg, T: ?Sized + ProxiedInRepeated> RepeatedView<'msg, T> {
    /// Every element is a well-formed value of `T`.
    pub open spec fn wf(&self) -> bool {
        well_typed(T::ctype(), self.arena@, self.raw@)
    }

    /// A view of the elements `raw`, whose text and bytes live in `arena`.
    pub fn from_raw(raw: &'msg Vec<MessageValue>, arena: &'msg Arena) -> (r: Self)
        ensures
            r.raw == raw,
            r.arena == arena,
    {
        RepeatedView { raw, arena, phantom: PhantomData }
    }

    /// The tagged elements behind this view.
    pub fn as_raw(&self) -> (r: &'msg Vec<MessageValue>)
        ensures
            r == self.raw,
    {
        self.raw
    }

    /// The number of elements.
    pub fn len(&self) -> (r: usize)
        ensures
            r == self@.len(),
    {
        self.raw.len()
    }

    /// Whether there are no elements.
    pub fn is_empty(&self) -> (r: bool)
        ensures
            r == (self@.len() == 0),
    {
        self.len() == 0
    }

    /// The element at `index`, or `None` when `index` is not below the length.
    pub fn get(self, index: usize) -> (r: Option<T::View<'msg>>)
        requires
            self.wf(),
        ensures
            r is Some <==> index < self@.len(),
            r matches Some(v) ==> T::view_value(v) == self@[index as int],
    {
        if index >= self.len() {
            return None;
        }
        Some(self.get_unchecked(index))
    }

    /// The element at `index`, which must be below the length.
    pub fn get_unchecked(self, index: usize) -> (r: T::View<'msg>)
        requires
            self.wf(),
            index < self@.len(),
        ensures
            T::view_value(r) == self@[index as int],
    {
        T::from_message_value(self.arena, self.raw[index])
    }

    /// An iterator over the elements, from the first.
    pub fn iter(self) -> (r: RepeatedIter<'msg, T>)
        ensures
            r.view == self,
            r.current_index == 0,
    {
        RepeatedIter { view: self, current_index: 0 }
    }
}

/// Exclusive access to the elements of a repeated field of `T`.
#[derive(Debug)]
pub struct RepeatedMut<'msg, T: ?Sized> {
    pub inner: InnerRepeatedMut<'msg>,
    pub phantom: PhantomData<T>,
}

impl<'msg, T: ?Sized + ProxiedInRepeated> View for RepeatedMut<'msg, T> {
    type V = Seq<FieldValue>;

    open spec fn view(&self) -> Seq<FieldValue> {
        values_in(self.arena_blocks(), self.raw_elems())
    }
}

impl<'msg, T: ?Sized> RepeatedMut<'msg, T> {
    /// The tagged elements that the mutator sees now.
    pub open spec fn raw_elems(&self) -> Seq<MessageValue> {
        (*self.inner.raw)@
    }

    /// The blocks of the arena that the mutator sees now.
    pub open spec fn arena_blocks(&self) -> Seq<Seq<u8>> {
        (*self.inner.arena)@
    }
}

impl<'msg, T: ?Sized + ProxiedInRepeated> RepeatedMut<'msg, T> {
    /// Every element is a well-formed value of `T`.
    pub open spec fn wf(&self) -> bool {
        well_typed(T::ctype(), self.arena_blocks(), self.raw_elems())
    }

    /// A mutator over the storage that `inner` gives access to.
    pub fn from_inner(inner: InnerRepeatedMut<'msg>) -> (r: Self)
        ensures
            r.inner == inner,
    {
        RepeatedMut { inner, phantom: PhantomData }
    }

    /// The storage handle that this mutator holds.
    pub fn into_inner(self) -> (r: InnerRepeatedMut<'msg>)
        ensures
            r == self.inner,
    {
        self.inner
    }

    /// The tagged elements behind this mutator.
    pub fn as_raw(&self) -> (r: &Vec<MessageValue>)
        ensures
            r@ == self.raw_elems(),
    {
        &*self.inner.raw
    }

    /// The arena that holds the elements' text and bytes.
    pub fn raw_arena(&self) -> (r: &Arena)
        ensures
            r@ == self.arena_blocks(),
    {
        &*self.inner.arena
    }

    fn view_of(&self) -> (r: RepeatedView<'_, T>)
        ensures
            r.raw@ == self.raw_elems(),
            r.arena@ == self.arena_blocks(),
    {
        RepeatedView { raw: &*self.inner.raw, arena: &*self.inner.arena, phantom: PhantomData }
    }

    /// The number of elements.
    pub fn len(&self) -> (r: usize)
        ensures
            r == self@.len(),
    {
        self.inner.raw.len()
    }

    /// Whether there are no elements.
    pub fn is_empty(&self) -> (r: bool)
        ensures
            r == (self@.len() == 0),
    {
        self.len() == 0
    }

    /// The element at `index`, or `None` when `index` is not below the length.
    pub fn get(&self, index: usize) -> (r: Option<T::View<'_>>)
        requires
            self.wf(),
        ensures
            r is Some <==> index < self@.len(),
            r matches Some(v) ==> T::view_value(v) == self@[index as int],
    {
        self.view_of().get(index)
    }

    /// The element at `index`, which must be below the length.
    pub fn get_unchecked(&self, index: usize) -> (r: T::View<'_>)
        requires
            self.wf(),
            index < self@.len(),
        ensures
            T::view_value(r) == self@[index as int],
    {
        self.view_of().get_unchecked(index)
    }

    /// Appends `val`; text and bytes are copied into this field's arena.
    pub fn push(&mut self, val: T::View<'_>)
        requires
            old(self).wf(),
        ensures
            final(self).wf(),
            final(self)@ == old(self)@.push(T::view_value(val)),
            *final(final(self).inner.raw) == *final(old(self).inner.raw),
            *final(final(self).inner.arena) == *final(old(self).inner.arena),
    {
        let ghost before = self.arena_blocks();
        let mv = T::to_message_value_copy_if_required(&mut *self.inner.arena, val);
        proof {
            lemma_well_typed_grow(T::ctype(), before, self.arena_blocks(), self.raw_elems());
        }
        self.inner.raw.push(mv);
        assert(self@ =~= old(self)@.push(T::view_value(val)));
    }

    /// Replaces the element at `index`, which must be below the length, with `val`.
    pub fn set(&mut self, index: usize, val: T::View<'_>)
        requires
            old(self).wf(),
            index < old(self)@.len(),
        ensures
            final(self).wf(),
            final(self)@ == old(self)@.update(index as int, T::view_value(val)),
            *final(final(self).inner.raw) == *final(old(self).inner.raw),
            *final(final(self).inner.arena) == *final(old(self).inner.arena),
    {
        let ghost before = self.arena_blocks();
        let mv = T::to_message_value_copy_if_required(&mut *self.inner.arena, val);
        proof {
            lemma_well_typed_grow(T::ctype(), before, self.arena_blocks(), self.raw_elems());
        }
        self.inner.raw.set(index, mv);
        assert(self@ =~= old(self)@.update(index as int, T::view_value(val)));
    }

    /// An iterator over the elements, from the first.
    pub fn iter(&self) -> (r: RepeatedIter<'_, T>)
        ensures
            r.view.raw@ == self.raw_elems(),
            r.view.arena@ == self.arena_blocks(),
            r.current_index == 0,
    {
        self.view_of().iter()
    }

    /// Removes every element. Arena space already used is not given back.
    pub fn clear(&mut self)
        ensures
            final(self).wf(),
            final(self)@ == Seq::<FieldValue>::empty(),
            *final(final(self).inner.raw) == *final(old(self).inner.raw),
            *final(final(self).inner.arena) == *final(old(self).inner.arena),
    {
        self.inner.raw.clear();
        assert(self@ =~= Seq::<FieldValue>::empty());
    }

    /// Replaces the elements with copies of those of `src`; text and bytes are copied
    /// into this field's arena.
    pub fn copy_from(&mut self, src: RepeatedView<'_, T>)
        requires
            old(self).wf(),
            src.wf(),
        ensures
            final(self).wf(),
            final(self)@ == src@,
            *final(final(self).inner.raw) == *final(old(self).inner.raw),
            *final(final(self).inner.arena) == *final(old(self).inner.arena),
    {
        self.clear();
        let mut i: usize = 0;
        while i < src.len()
            invariant
                src.wf(),
                self.wf(),
                i <= src@.len(),
                self@ == src@.subrange(0, i as int),
                *final(self.inner.raw) == *final(old(self).inner.raw),
                *final(self.inner.arena) == *final(old(self).inner.arena),
            decreases src@.len() - i,
        {
            let v = src.get_unchecked(i);
            self.push(v);
            assert(src@.subrange(0, i + 1) =~= src@.subrange(0, i as int).push(src@[i as int]));
            i = i + 1;
        }
        assert(src@.subrange(0, i as int) =~= src@);
    }
}

/// An iterator over the elements of a repeated field.
#[derive(Debug)]
pub struct RepeatedIter<'msg, T: ?Sized> {
    pub view: RepeatedView<'msg, T>,
    pub current_index: usize,
}

impl<'msg, T: ?Sized + ProxiedInRepeated> RepeatedIter<'msg, T> {
    /// The element at the current position, if any, after which the position moves on.
    pub fn next(&mut self) -> (r: Option<T::View<'msg>>)
        requires
            old(self).view.wf(),
        ensures
            final(self).view == old(self).view,
            old(self).current_index < old(self).view@.len() ==> {
                &&& r matches Some(v) && T::view_value(v) == old(self).view@[old(
                    self,
                ).current_index as int]
                &&& final(self).current_index == old(self).current_index + 1
            },
            old(self).current_index >= old(self).view@.len() ==> {
                &&& r is None
                &&& final(self).current_index == old(self).current_index
            },
    {
        let n = self.view.len();
        let val = self.view.get(self.current_index);
        if val.is_some() {
            assert(self.current_index < n);
            self.current_index = self.current_index + 1;
        }
        val
    }

    /// The number of elements of the field being walked.
    pub fn len(&self) -> (r: usize)
        ensures
            r == self.view@.len(),
    {
        self.view.len()
    }
}

/// An iterator over the positions of a repeated field that it may change.
#[derive(Debug)]
pub struct RepeatedIterMut<'msg, T: ?Sized> {
    pub mutator: RepeatedMut<'msg, T>,
    pub current_index: usize,
}

/// An owned, standalone repeated field of `T`, with an arena of its own.
#[derive(Debug)]
pub struct Repeated<T: ?Sized + ProxiedInRepeated> {
    pub array: Vec<MessageValue>,
    pub arena: Arena,
    pub phantom: PhantomData<T>,
}

impl<T: ?Sized + ProxiedInRepeated> View for Repeated<T> {
    type V = Seq<FieldValue>;

    open spec fn view(&self) -> Seq<FieldValue> {
        values_in(self.arena@, self.array@)
    }
}

impl<T: ?Sized + ProxiedInRepeated> Repeated<T> {
    /// Every element is a well-formed value of `T`.
    pub open spec fn wf(&self) -> bool {
        well_typed(T::ctype(), self.arena@, self.array@)
    }

    /// An empty repeated field with a fresh arena.
    pub fn new() -> (r: Self)
        ensures
            r.wf(),
            r@ == Seq::<FieldValue>::empty(),
    {
        let r = Repeated { array: Vec::new(), arena: Arena::new(), phantom: PhantomData };
        assert(r@ =~= Seq::<FieldValue>::empty());
        r
    }

    /// The storage handle of this field, borrowed for as long as `self` is.
    pub fn inner(&mut self) -> (r: InnerRepeatedMut<'_>)
        ensures
            *r.raw == old(self).array,
            *r.arena == old(self).arena,
            final(self).array == *final(r.raw),
            final(self).arena == *final(r.arena),
    {
        InnerRepeatedMut::new(&mut self.array, &mut self.arena)
    }

    /// A mutator of this field, borrowed for as long as `self` is.
    pub fn as_mut(&mut self) -> (r: RepeatedMut<'_, T>)
        ensures
            *r.inner.raw == old(self).array,
            *r.inner.arena == old(self).arena,
            r@ == old(self)@,
            old(self).wf() ==> r.wf(),
            final(self).array == *final(r.inner.raw),
            final(self).arena == *final(r.inner.arena),
    {
        RepeatedMut::from_inner(self.inner())
    }

    /// A view of this field, borrowed for as long as `self` is.
    pub fn as_view(&self) -> (r: RepeatedView<'_, T>)
        ensures
            *r.raw == self.array,
            *r.arena == self.arena,
            r@ == self@,
            self.wf() ==> r.wf(),
    {
        RepeatedView::from_raw(&self.array, &self.arena)
    }
}

impl<T: ?Sized + ProxiedInRepeated> Proxied for Repeated<T> {
    type Model = Seq<FieldValue>;

    type View<'msg> = RepeatedView<'msg, T>;

    type Mut<'msg> = RepeatedMut<'msg, T>;

    open spec fn view_model<'msg>(v: RepeatedView<'msg, T>) -> Seq<FieldValue> {
        v@
    }

    open spec fn mut_model<'msg>(m: RepeatedMut<'msg, T>) -> Seq<FieldValue> {
        m@
    }

    open spec fn view_valid<'msg>(v: RepeatedView<'msg, T>) -> bool {
        v.wf()
    }

    open spec fn mut_valid<'msg>(m: RepeatedMut<'msg, T>) -> bool {
        m.wf()
    }
}

impl<'msg, T: ?Sized + ProxiedInRepeated + 'msg> ViewProxy<'msg> for RepeatedView<'msg, T> {
    type Proxied = Repeated<T>;

    open spec fn model(&self) -> Seq<FieldValue> {
        self@
    }

    open spec fn valid(&self) -> bool {
        self.wf()
    }

    fn as_view(&self) -> (r: RepeatedView<'_, T>) {
        *self
    }

    fn into_view<'shorter>(self) -> (r: RepeatedView<'shorter, T>) where 'msg: 'shorter {
        RepeatedView { raw: self.raw, arena: self.arena, phantom: PhantomData }
    }
}

impl<'msg, T: ?Sized + ProxiedInRepeated + 'msg> ViewProxy<'msg> for RepeatedMut<'msg, T> {
    type Proxied = Repeated<T>;

    open spec fn model(&self) -> Seq<FieldValue> {
        self@
    }

    open spec fn valid(&self) -> bool {
        self.wf()
    }

    fn as_view(&self) -> (r: RepeatedView<'_, T>) {
        self.view_of()
    }

    fn into_view<'shorter>(self) -> (r: RepeatedView<'shorter, T>) where 'msg: 'shorter {
        RepeatedView { raw: self.inner.raw, arena: self.inner.arena, phantom: PhantomData }
    }
}

impl<'msg, T: ?Sized + ProxiedInRepeated + 'msg> MutProxy<'msg> for RepeatedMut<'msg, T> {
    fn set<S: SettableValue<Repeated<T>>>(&mut self, val: S) {
        val.set_on(self)
    }

    fn as_mut(&mut self) -> (r: RepeatedMut<'_, T>) {
        RepeatedMut {
            inner: InnerRepeatedMut::new(&mut *self.inner.raw, &mut *self.inner.arena),
            phantom: PhantomData,
        }
    }

    fn into_mut<'shorter>(self) -> (r: RepeatedMut<'shorter, T>) where 'msg: 'shorter {
        RepeatedMut { inner: self.inner, phantom: PhantomData }
    }
}

impl<'msg, T: ?Sized + ProxiedInRepeated + 'msg> SettableValue<Repeated<T>> for RepeatedView<
    'msg,
    T,
> {
    open spec fn value_model(&self) -> Seq<FieldValue> {
        self@
    }

    open spec fn valid(&self) -> bool {
        self.wf()
    }

    fn set_on<'b>(self, mutator: &mut RepeatedMut<'b, T>) where Repeated<T>: 'b {
        mutator.copy_from(self)
    }
}

/// A new repeated field is empty: its length is zero, and an iterator over it, which starts
/// at the first position, yields nothing.
pub proof fn lemma_new_repeated_is_empty<T: ?Sized + ProxiedInRepeated>(
    r: Repeated<T>,
    it: RepeatedIter<'_, T>,
)
    requires
        r@ == Seq::<FieldValue>::empty(),
        it.view@ == r@,
        it.current_index == 0,
    ensures
        r@.len() == 0,
        it.current_index >= it.view@.len(),
{
}

/// Pushing `v` adds exactly one element; the element at the old length is `v`, and the
/// elements before it are unchanged.
pub proof fn lemma_push_then_get<T: ?Sized + ProxiedInRepeated>(
    before: Seq<FieldValue>,
    v: T::View<'_>,
    after: Seq<FieldValue>,
)
    requires
        after == before.push(T::view_value(v)),
    ensures
        after.len() == before.len() + 1,
        after[before.len() as int] == T::view_value(v),
        forall|i: int| 0 <= i < before.len() ==> #[trigger] after[i] == before[i],
{
}

/// Setting the element at a position below the length to `v` keeps the length, makes the
/// element there `v`, and leaves the others unchanged.
pub proof fn lemma_set_then_get<T: ?Sized + ProxiedInRepeated>(
    before: Seq<FieldValue>,
    index: int,
    v: T::View<'_>,
    after: Seq<FieldValue>,
)
    requires
        0 <= index < before.len(),
        after == before.update(index, T::view_value(v)),
    ensures
        after.len() == before.len(),
        after[index] == T::view_value(v),
        forall|i: int| 0 <= i < before.len() && i != index ==> #[trigger] after[i] == before[i],
{
}

/// After a repeated field is cleared, its length is zero and an iterator over it, which
/// starts at the first position, yields nothing.
pub proof fn lemma_clear_is_empty<T: ?Sized + ProxiedInRepeated>(
    m: RepeatedMut<'_, T>,
    it: RepeatedIter<'_, T>,
)
    requires
        m@ == Seq::<FieldValue>::empty(),
        it.view@ == m@,
        it.current_index == 0,
    ensures
        m@.len() == 0,
        it.current_index >= it.view@.len(),
{
}

} // verus!
