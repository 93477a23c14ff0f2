use crate::arc::Release;
use crate::arc::Retain;
use crate::arc::R;
use crate::cf::runtime::Type;
use crate::cf::runtime::TypeId;
use crate::foreign::Heap;
use crate::foreign::Payload;
use crate::foreign::Runtime;
use crate::foreign::State;
use crate::foreign::NULL_TYPE_ID;
use vstd::prelude::*;

verus! {

/// A view of a null object: an object that stands for no value.
#[derive(Clone, Copy, Debug)]
pub struct Null(Type);

impl std::ops::Deref for Null {
    type Target = Type;

    #[inline]
    fn deref(&self) -> (t: &Type)
        ensures
            *t == self.as_type(),
    {
        &self.0
    }
}

impl Release for Null {
    closed spec fn as_type(&self) -> Type {
        self.0
    }

    open spec fn admits(id: TypeId) -> bool {
        id == NULL_TYPE_ID
    }

    #[inline]
    fn as_type_ref(&self) -> (t: &Type) {
        &self.0
    }

    #[inline]
    fn admits_tag(id: TypeId) -> (yes: bool) {
        id == NULL_TYPE_ID
    }

    #[inline]
    fn narrow(t: &Type, rt: &Runtime) -> (view: Null) {
        Null(*t)
    }

    #[inline]
    fn release(&mut self, rt: &mut Runtime, owner: Ghost<nat>) {
        self.0.release(rt, owner)
    }
}

impl Retain for Null {
    #[inline]
    fn retained(&self, rt: &mut Runtime) -> (r: R<Null>) {
        Null::retained(self, rt)
    }
}

impl Null {
    /// The tag of every null object.
    #[inline]
    pub fn type_id() -> (id: TypeId)
        ensures
            id == NULL_TYPE_ID,
    {
        NULL_TYPE_ID
    }

    /// The address of the object.
    pub open spec fn addr(&self) -> u64 {
        self.as_type().addr()
    }

    /// Whether this view has a live null object behind it in `heap`.
    pub open spec fn valid_in(&self, heap: Heap) -> bool {
        heap.live(self.addr()) && heap.type_id(self.addr()) == NULL_TYPE_ID
    }

    /// A second owned reference to the same null object.
    #[inline]
    pub fn retained(&self, rt: &mut Runtime) -> (r: R<Null>)
        requires
            old(rt).wf(),
            self.valid_in(old(rt)@),
            old(rt)@.retain_count(self.addr()) < u64::MAX,
        ensures
            final(rt).wf(),
            final(rt)@ == old(rt)@.retain(self.addr()),
            r.target().as_type() == self.as_type(),
            r.owner() == old(rt)@.next_owner,
            r.held_in(final(rt)@),
    {
        Type::retain(&self.0, rt)
    }

    /// A null object. The caller owns the one count of the object that it
    /// gets.
    pub fn value(rt: &mut Runtime) -> (r: R<Null>)
        requires
            old(rt).wf(),
            old(rt)@.has_room(),
        ensures
            final(rt).wf(),
            final(rt)@ == old(rt)@.create(State::Null),
            r.addr() == old(rt)@.next_addr(),
            r.owner() == old(rt)@.next_owner,
            r.held_in(final(rt)@),
    {
        let (t, owner) = rt.create(Payload::Null);
        R::adopt(Null(t), owner)
    }
}

} // verus!
