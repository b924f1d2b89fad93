//! Proxies: reference-like handles for reading and writing a field whose storage is laid
//! out and owned elsewhere.
//!
//! A field type `T` that can be reached through proxies implements [`Proxied`]. Shared,
//! read-only access goes through a [`View`], a small `Copy` handle; exclusive read-write
//! access goes through a [`Mut`], which cannot be duplicated. Both are tied to the borrow
//! of the owner that produced them.

use vstd::prelude::*;

verus! {

/// A type whose values are read and written through proxies.
pub trait Proxied {
    /// The mathematical value of a field of this type.
    type Model;

    /// The proxy for shared access, like a `&'msg T`.
    type View<'msg>: Copy;

    /// The proxy for exclusive access, like a `&'msg mut T`.
    type Mut<'msg>;

    /// The value that a view shows.
    spec fn view_model<'msg>(v: Self::View<'msg>) -> Self::Model;

    /// The value that a mutator shows now.
    spec fn mut_model<'msg>(m: Self::Mut<'msg>) -> Self::Model;

    /// The storage behind a view is well formed.
    spec fn view_valid<'msg>(v: Self::View<'msg>) -> bool;

    /// The storage behind a mutator is well formed.
    spec fn mut_valid<'msg>(m: Self::Mut<'msg>) -> bool;
}

/// Shared access to a `T`, like a `&'msg T`.
pub type View<'msg, T> = <T as Proxied>::View<'msg>;

/// Exclusive access to a `T`, like a `&'msg mut T`.
pub type Mut<'msg, T> = <T as Proxied>::Mut<'msg>;

/// Operations common to all proxies: producing a view.
pub trait ViewProxy<'msg>: Sized {
    type Proxied: Proxied + ?Sized + 'msg;

    /// The value that this proxy shows.
    spec fn model(&self) -> <Self::Proxied as Proxied>::Model;

    /// The storage behind this proxy is well formed.
    spec fn valid(&self) -> bool;

    /// A view for as long as this borrow of the proxy.
    fn as_view(&self) -> (r: View<'_, Self::Proxied>)
        ensures
            <Self::Proxied as Proxied>::view_model(r) == self.model(),
            self.valid() ==> <Self::Proxied as Proxied>::view_valid(r),
    ;

    /// A view for a scope no longer than the proxy's own.
    fn into_view<'shorter>(self) -> (r: View<'shorter, Self::Proxied>) where 'msg: 'shorter
        ensures
            <Self::Proxied as Proxied>::view_model(r) == self.model(),
            self.valid() ==> <Self::Proxied as Proxied>::view_valid(r),
    ;
}

/// Operations common to all mutators.
pub trait MutProxy<'msg>: ViewProxy<'msg> {
    /// A view of the field; shorthand for `as_view`.
    fn get(&self) -> (r: View<'_, Self::Proxied>)
        ensures
            <Self::Proxied as Proxied>::view_model(r) == self.model(),
            self.valid() ==> <Self::Proxied as Proxied>::view_valid(r),
    {
        self.as_view()
    }

    /// Sets the field to `val`; borrowed data in `val` is copied, not kept.
    fn set<S: SettableValue<Self::Proxied>>(&mut self, val: S)
        requires
            old(self).valid(),
            val.valid(),
        ensures
            final(self).valid(),
            final(self).model() == val.value_model(),
    ;

    /// A mutator for as long as this borrow of the proxy.
    fn as_mut(&mut self) -> (r: Mut<'_, Self::Proxied>)
        ensures
            <Self::Proxied as Proxied>::mut_model(r) == old(self).model(),
            old(self).valid() ==> <Self::Proxied as Proxied>::mut_valid(r),
    ;

    /// A mutator for a scope no longer than the proxy's own.
    fn into_mut<'shorter>(self) -> (r: Mut<'shorter, Self::Proxied>) where 'msg: 'shorter
        ensures
            <Self::Proxied as Proxied>::mut_model(r) == self.model(),
            self.valid() ==> <Self::Proxied as Proxied>::mut_valid(r),
    ;
}

/// Fields that may be explicitly present or absent, apart from holding a default value.
///
/// Scalar and message fields carry presence; repeated and map fields do not.
pub trait ProxiedWithPresence: Proxied {
    /// What a mutator of a present field holds.
    type PresentMutData<'msg>;

    /// What a mutator of an absent field holds.
    type AbsentMutData<'msg>;

    /// Clears a present field, which is then absent.
    fn clear_present_field<'msg>(present: Self::PresentMutData<'msg>) -> Self::AbsentMutData<
        'msg,
    >;

    /// Sets an absent field to its default value, which is then present.
    fn set_absent_to_default<'msg>(absent: Self::AbsentMutData<'msg>) -> Self::PresentMutData<
        'msg,
    >;
}

/// Values that a field of `T` can be set to.
pub trait SettableValue<T: Proxied + ?Sized>: Sized {
    /// The value that the field holds after it is set to `self`.
    spec fn value_model(&self) -> T::Model;

    /// The storage that `self` reads from is well formed.
    spec fn valid(&self) -> bool;

    /// Writes `self` through `mutator`, copying any borrowed data into the target's storage.
    fn set_on<'msg>(self, mutator: &mut Mut<'msg, T>) where T: 'msg
        requires
            self.valid(),
            T::mut_valid(*old(mutator)),
        ensures
            T::mut_valid(*final(mutator)),
            T::mut_model(*final(mutator)) == self.value_model(),
    ;
}

} // verus!
