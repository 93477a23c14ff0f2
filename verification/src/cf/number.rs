use crate::arc::Release;
use crate::arc::Retain;
use crate::arc::R;
use crate::cf::runtime::Type;
use crate::cf::runtime::TypeId;
use crate::foreign::Heap;
use crate::foreign::Payload;
use crate::foreign::Runtime;
use crate::foreign::State;
use crate::foreign::NUMBER_TYPE_ID;
use vstd::prelude::*;

verus! {

/// A view of a boxed number.
#[derive(Clone, Copy, Debug)]
pub struct Number(Type);

impl std::ops::Deref for Number {
    type Target = Type;

    #[inline]
    fn deref(&self) -> (t: &Type)
        ensures
            *t == self.as_type(),
    {
        &self.0
    }
}

impl Release for Number {
    closed spec fn as_type(&self) -> Type {
        self.0
    }

    open spec fn admits(id: TypeId) -> bool {
        id == NUMBER_TYPE_ID
    }

    #[inline]
    fn as_type_ref(&self) -> (t: &Type) {
        &self.0
    }

    #[inline]
    fn admits_tag(id: TypeId) -> (yes: bool) {
        id == NUMBER_TYPE_ID
    }

    #[inline]
    fn narrow(t: &Type, rt: &Runtime) -> (view: Number) {
        Number(*t)
    }

    #[inline]
    fn release(&mut self, rt: &mut Runtime, owner: Ghost<nat>) {
        self.0.release(rt, owner)
    }
}

impl Retain for Number {
    #[inline]
    fn retained(&self, rt: &mut Runtime) -> (r: R<Number>) {
        Number::retained(self, rt)
    }
}

impl Number {
    /// The tag of every boxed number.
    #[inline]
    pub fn type_id() -> (id: TypeId)
        ensures
            id == NUMBER_TYPE_ID,
    {
        NUMBER_TYPE_ID
    }

    /// The address of the object.
    pub open spec fn addr(&self) -> u64 {
        self.as_type().addr()
    }

    /// Whether this view has a live number behind it in `heap`.
    pub open spec fn valid_in(&self, heap: Heap) -> bool {
        heap.live(self.addr()) && heap.type_id(self.addr()) == NUMBER_TYPE_ID
    }

    /// The value that the number at this view's address has in `heap`.
    pub open spec fn value_in(&self, heap: Heap) -> i64 {
        heap.state(self.addr())->Number_0
    }

    /// A second owned reference to the same number.
    #[inline]
    pub fn retained(&self, rt: &mut Runtime) -> (r: R<Number>)
        requires
            old(rt).wf(),
            self.valid_in(old(rt)@),
            old(rt)@.retain_count(self.addr()) < u64::MAX,
        ensures
            final(rt).wf(),
            final(rt)@ == old(rt)@.retain(self.addr()),
            r.target().as_type() == self.as_type(),
            r.owner() == old(rt)@.next_owner,
            r.held_in(final(rt)@),
    {
        Type::retain(&self.0, rt)
    }

    /// Boxes `value`. The caller owns the one count of the new object.
    pub fn from_i64(rt: &mut Runtime, value: i64) -> (r: R<Number>)
        requires
            old(rt).wf(),
            old(rt)@.has_room(),
        ensures
            final(rt).wf(),
            final(rt)@ == old(rt)@.create(State::Number(value)),
            r.addr() == old(rt)@.next_addr(),
            r.owner() == old(rt)@.next_owner,
            r.held_in(final(rt)@),
    {
        let (t, owner) = rt.create(Payload::Number(value));
        R::adopt(Number(t), owner)
    }

    /// Boxes `value`.
    #[inline]
    pub fn from_i16(rt: &mut Runtime, value: i16) -> (r: R<Number>)
        requires
            old(rt).wf(),
            old(rt)@.has_room(),
        ensures
            final(rt).wf(),
            final(rt)@ == old(rt)@.create(State::Number(value as i64)),
            r.addr() == old(rt)@.next_addr(),
            r.owner() == old(rt)@.next_owner,
            r.held_in(final(rt)@),
    {
        Number::from_i64(rt, value as i64)
    }

    /// The boxed value.
    pub fn to_i64(&self, rt: &Runtime) -> (value: i64)
        requires
            self.valid_in(rt@),
        ensures
            value == self.value_in(rt@),
    {
        match rt.payload(&self.0) {
            Payload::Number(n) => *n,
            _ => unreached(),
        }
    }
}

} // verus!
