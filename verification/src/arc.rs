//! Owned references: the accounting of retain counts.
use crate::cf::runtime::Type;
use crate::cf::runtime::TypeId;
use crate::foreign::Heap;
use crate::foreign::Runtime;
use vstd::prelude::*;

verus! {

/// A typed view of a handle whose object can give a retain count back.
pub trait Release: Sized {
    /// The handle behind this view.
    spec fn as_type(&self) -> Type;

    /// Whether an object with type tag `id` may be seen through this view.
    spec fn admits(id: TypeId) -> bool;

    fn as_type_ref(&self) -> (t: &Type)
        ensures
            *t == self.as_type(),
    ;

    /// Whether an object with type tag `id` may be seen through this view.
    fn admits_tag(id: TypeId) -> (yes: bool)
        ensures
            yes == Self::admits(id),
    ;

    /// Sees the object behind `t` through this view. The object has to be there
    /// and has to be of a type that the view admits.
    fn narrow(t: &Type, rt: &Runtime) -> (view: Self)
        requires
            rt@.live(t.addr()),
            Self::admits(rt@.type_id(t.addr())),
        ensures
            view.as_type() == *t,
    ;

    /// Gives back the one count that `owner` accounts for. After this the
    /// caller must not read through the handle for the sake of that count.
    fn release(&mut self, rt: &mut Runtime, owner: Ghost<nat>)
        requires
            old(rt).wf(),
            old(rt)@.holds(owner@, old(self).as_type().addr()),
        ensures
            final(rt).wf(),
            final(rt)@ == old(rt)@.release(old(self).as_type().addr(), owner@),
            *final(self) == *old(self),
    ;
}

/// A typed view whose object can be retained.
pub trait Retain: Release {
    /// Takes one more count on the object and hands it out as a new owned
    /// reference, independent of any other.
    fn retained(&self, rt: &mut Runtime) -> (r: R<Self>)
        requires
            old(rt).wf(),
            old(rt)@.live(self.as_type().addr()),
            Self::admits(old(rt)@.type_id(self.as_type().addr())),
            old(rt)@.retain_count(self.as_type().addr()) < u64::MAX,
        ensures
            final(rt).wf(),
            final(rt)@ == old(rt)@.retain(self.as_type().addr()),
            r.target().as_type() == self.as_type(),
            r.owner() == old(rt)@.next_owner,
            r.held_in(final(rt)@),
    ;
}

/// An owned reference: a typed view together with one retain count of its
/// object.
///
/// It comes from a retain or from a creation call that hands its count to the
/// caller, and it ends in [`R::release`], which takes it by value: a second
/// release of the same reference does not compile. It cannot be copied; a
/// second owner takes a count of its own with [`R::retained`].
///
/// Nothing is given back when a reference goes out of scope: the type has no
/// destructor, because a destructor can neither reach the runtime nor carry a
/// contract. A reference that is dropped without a call of [`R::release`]
/// stays outstanding in the ledger for good, and its object stays with it.
pub struct R<T: Release> {
    obj: T,
    owner: Ghost<nat>,
}

impl<T: Release> R<T> {
    /// The view that this reference owns a count for.
    pub closed spec fn target(&self) -> T {
        self.obj
    }

    /// The number under which the runtime's ledger keeps this reference.
    pub closed spec fn owner(&self) -> nat {
        self.owner@
    }

    /// The address of the object.
    pub open spec fn addr(&self) -> u64 {
        self.target().as_type().addr()
    }

    /// Whether this reference is outstanding in `heap`: the ledger shows its
    /// count, and the object is of a type that the view admits.
    pub open spec fn held_in(&self, heap: Heap) -> bool {
        &&& heap.holds(self.owner(), self.addr())
        &&& T::admits(heap.type_id(self.addr()))
    }

    /// Wraps a view with the count that `owner` accounts for.
    pub(crate) fn adopt(obj: T, owner: Ghost<nat>) -> (r: R<T>)
        ensures
            r.target() == obj,
            r.owner() == owner@,
    {
        R { obj, owner }
    }

    /// Ends the reference: its one count goes back to the runtime, and with
    /// the last count the object goes too.
    pub fn release(self, rt: &mut Runtime)
        requires
            old(rt).wf(),
            self.held_in(old(rt)@),
        ensures
            final(rt).wf(),
            final(rt)@ == old(rt)@.release(self.addr(), self.owner()),
            final(rt)@.released_from(old(rt)@, self.addr(), self.owner()),
            !final(rt)@.outstanding(self.owner()),
            final(rt)@.retain_count(self.addr()) == old(rt)@.retain_count(self.addr()) - 1,
    {
        proof {
            rt@.lemma_holds_live(self.owner(), self.addr());
            rt@.lemma_release_wf(self.addr(), self.owner());
        }
        let mut obj = self.obj;
        obj.release(rt, self.owner);
    }

    /// A second owned reference to the same object, with a count of its own.
    pub fn retained(&self, rt: &mut Runtime) -> (r: R<T>)
        requires
            old(rt).wf(),
            self.held_in(old(rt)@),
            old(rt)@.retain_count(self.addr()) < u64::MAX,
        ensures
            final(rt).wf(),
            final(rt)@ == old(rt)@.retain(self.addr()),
            r.addr() == self.addr(),
            r.owner() == old(rt)@.next_owner,
            r.held_in(final(rt)@),
            self.held_in(final(rt)@),
            final(rt)@.retain_count(self.addr()) == old(rt)@.retain_count(self.addr()) + 1,
    {
        proof {
            rt@.lemma_holds_live(self.owner(), self.addr());
            rt@.lemma_retain_wf(self.addr());
        }
        Type::retain(self.obj.as_type_ref(), rt)
    }
}

/// An object that was allocated and not yet initialised, with the one count
/// that its allocation made. Initialising it turns it into an owned reference
/// with the same count.
pub struct A<T: Release> {
    obj: T,
    owner: Ghost<nat>,
}

impl<T: Release> A<T> {
    /// The view of the allocated object.
    pub closed spec fn target(&self) -> T {
        self.obj
    }

    /// The number under which the runtime's ledger keeps the count.
    pub closed spec fn owner(&self) -> nat {
        self.owner@
    }

    /// The address of the object.
    pub open spec fn addr(&self) -> u64 {
        self.target().as_type().addr()
    }

    /// Whether the allocation's count is outstanding in `heap` and the object
    /// is of a type that the view admits.
    pub open spec fn held_in(&self, heap: Heap) -> bool {
        &&& heap.holds(self.owner(), self.addr())
        &&& T::admits(heap.type_id(self.addr()))
    }

    /// Wraps a freshly allocated object with its count.
    pub(crate) fn adopt(obj: T, owner: Ghost<nat>) -> (a: A<T>)
        ensures
            a.target() == obj,
            a.owner() == owner@,
    {
        A { obj, owner }
    }

    /// The object as an owned reference: the same view and the same count.
    pub(crate) fn initialized(self) -> (r: R<T>)
        ensures
            r.target() == self.target(),
            r.owner() == self.owner(),
    {
        R { obj: self.obj, owner: self.owner }
    }

    /// The view of the allocated object.
    pub(crate) fn target_ref(&self) -> (t: &T)
        ensures
            *t == self.target(),
    {
        &self.obj
    }
}

impl<T: Release> std::ops::Deref for R<T> {
    type Target = T;

    #[inline]
    fn deref(&self) -> (t: &T)
        ensures
            *t == self.target(),
    {
        &self.obj
    }
}

} // verus!
