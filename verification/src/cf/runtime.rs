use crate::arc::Release;
use crate::arc::Retain;
use crate::arc::R;
use crate::cf::array::Array;
use crate::cf::null::Null;
use crate::cf::number::Number;
use crate::cf::string::String;
use crate::cm::block_buffer::BlockBuf;
use crate::cm::sample_buffer::SampleBuf;
use crate::core_audio::tap_description::TapDesc;
use crate::foreign::Heap;
use crate::foreign::Runtime;
use crate::foreign::NUMBER_TYPE_ID;
use crate::foreign::STRING_TYPE_ID;
use vstd::prelude::*;

verus! {

/// The tag that identifies the concrete type of an object at run time.
pub type TypeId = usize;

/// A count or a place, as the runtime reports it.
pub type Index = isize;

/// The tag of a slot whose object is gone.
pub const NOT_A_TYPE_ID: TypeId = 0;

/// The first address of the range that denotes immediate values rather than
/// objects of the runtime's table.
pub const TAGGED_BASE: u64 = 0x8000_0000_0000_0000;

/// A handle to an object: its address and nothing else.
///
/// A handle owns nothing. It can be copied freely, and it says nothing about
/// whether its object is still there: every operation that reads through a
/// handle asks, in its precondition, that the object be live in the runtime it
/// is used with.
#[derive(Clone, Copy, Debug, PartialEq, Eq, Structural)]
pub struct Type {
    addr: u64,
}

impl Type {
    /// No handle has the address zero.
    #[verifier::type_invariant]
    closed spec fn non_null(&self) -> bool {
        self.addr != 0
    }

    /// The address of the object this handle refers to.
    pub closed spec fn addr(&self) -> u64 {
        self.addr
    }

    /// The handle for the object at `addr`.
    pub(crate) fn at(addr: u64) -> (t: Type)
        requires
            addr != 0,
        ensures
            t.addr() == addr,
    {
        Type { addr }
    }

    /// The raw address, for handing back to the runtime.
    #[inline]
    pub fn as_type_ptr(&self) -> (addr: u64)
        ensures
            addr == self.addr(),
            addr != 0,
    {
        proof {
            use_type_invariant(self);
        }
        self.addr
    }

    /// The handle itself.
    #[inline]
    pub fn as_type_ref(&self) -> (t: &Type)
        ensures
            *t == *self,
    {
        self
    }

    /// Whether the address is an immediate value rather than an object of the
    /// table: its top bit is set.
    #[inline]
    pub fn is_tagged_ptr(&self) -> (tagged: bool)
        ensures
            tagged == (self.addr() >= TAGGED_BASE),
    {
        let a: u64 = self.addr;
        assert((a >> 63) == 1 <==> a >= 0x8000_0000_0000_0000u64) by (bit_vector);
        (a >> 63) == 1
    }
}

impl Type {
    /// Takes one more count on the object behind `cf` and hands it out as an
    /// owned reference that sees the object as a `T`.
    #[inline]
    pub fn retain<T: Release>(cf: &Type, rt: &mut Runtime) -> (r: R<T>)
        requires
            old(rt).wf(),
            old(rt)@.live(cf.addr()),
            T::admits(old(rt)@.type_id(cf.addr())),
            old(rt)@.retain_count(cf.addr()) < u64::MAX,
        ensures
            final(rt).wf(),
            final(rt)@ == old(rt)@.retain(cf.addr()),
            r.target().as_type() == *cf,
            r.owner() == old(rt)@.next_owner,
            r.held_in(final(rt)@),
    {
        let owner = rt.retain(cf);
        R::adopt(T::narrow(cf, rt), owner)
    }

    /// Gives back the count that `owner` accounts for on the object behind
    /// `cf`.
    #[inline]
    pub fn release(cf: &mut Type, rt: &mut Runtime, owner: Ghost<nat>)
        requires
            old(rt).wf(),
            old(rt)@.holds(owner@, old(cf).addr()),
        ensures
            final(rt).wf(),
            final(rt)@ == old(rt)@.release(old(cf).addr(), owner@),
            *final(cf) == *old(cf),
    {
        rt.release(cf, owner);
    }

    /// The type tag of the object behind this handle.
    #[inline]
    pub fn get_type_id(&self, rt: &Runtime) -> (id: TypeId)
        ensures
            id == rt@.type_id(self.addr()),
    {
        rt.type_id(self)
    }
}

impl Type {
    /// Sees the object through the view `T` if it is there and of a type that
    /// `T` admits, and not otherwise.
    pub fn try_as<T: Release>(&self, rt: &Runtime) -> (view: Option<T>)
        ensures
            view is Some <==> rt@.live(self.addr()) && T::admits(rt@.type_id(self.addr())),
            view is Some ==> view->0.as_type() == *self,
    {
        if rt.is_live(self) && T::admits_tag(rt.type_id(self)) {
            Some(T::narrow(self, rt))
        } else {
            None
        }
    }

    /// Sees the object as a number if it is one, and not otherwise.
    pub fn try_as_number(&self, rt: &Runtime) -> (view: Option<Number>)
        requires
            rt.wf(),
        ensures
            view is Some <==> rt@.type_id(self.addr()) == NUMBER_TYPE_ID,
            view is Some ==> view->0.as_type() == *self && view->0.valid_in(rt@),
    {
        proof {
            rt@.lemma_typed_live(self.addr());
        }
        if self.get_type_id(rt) == Number::type_id() {
            Some(Number::narrow(self, rt))
        } else {
            None
        }
    }

    /// Sees the object as a string if it is one, and not otherwise.
    pub fn try_as_string(&self, rt: &Runtime) -> (view: Option<String>)
        requires
            rt.wf(),
        ensures
            view is Some <==> rt@.type_id(self.addr()) == STRING_TYPE_ID,
            view is Some ==> view->0.as_type() == *self && view->0.valid_in(rt@),
    {
        proof {
            rt@.lemma_typed_live(self.addr());
        }
        if self.get_type_id(rt) == String::type_id() {
            Some(String::narrow(self, rt))
        } else {
            None
        }
    }
}

/// No object can be seen through two of the typed views: each of them admits
/// one type tag, the tags are all different, and none of them is the tag of
/// what is gone.
pub proof fn lemma_narrowing_is_exclusive(id: TypeId)
    ensures
        (if Null::admits(id) {
            1int
        } else {
            0int
        }) + (if Array::admits(id) {
            1int
        } else {
            0int
        }) + (if Number::admits(id) {
            1int
        } else {
            0int
        }) + (if String::admits(id) {
            1int
        } else {
            0int
        }) + (if SampleBuf::admits(id) {
            1int
        } else {
            0int
        }) + (if TapDesc::admits(id) {
            1int
        } else {
            0int
        }) + (if BlockBuf::admits(id) {
            1int
        } else {
            0int
        }) <= 1,
        Null::admits(id) || Array::admits(id) || Number::admits(id) || String::admits(id)
            || SampleBuf::admits(id) || TapDesc::admits(id) || BlockBuf::admits(id) ==> id
            != NOT_A_TYPE_ID,
{
}

/// Narrowing is sound: wherever a handle can be seen through a typed view, the
/// object is there and has the state of that type.
pub proof fn lemma_narrowing_is_sound(heap: Heap, addr: u64)
    requires
        heap.wf(),
    ensures
        Null::admits(heap.type_id(addr)) <==> heap.live(addr) && heap.state(addr) is Null,
        Array::admits(heap.type_id(addr)) <==> heap.live(addr) && heap.state(addr) is Array,
        Number::admits(heap.type_id(addr)) <==> heap.live(addr) && heap.state(addr) is Number,
        String::admits(heap.type_id(addr)) <==> heap.live(addr) && heap.state(addr) is String,
        SampleBuf::admits(heap.type_id(addr)) <==> heap.live(addr) && heap.state(addr) is SampleBuf,
        TapDesc::admits(heap.type_id(addr)) <==> heap.live(addr) && heap.state(addr) is TapDesc,
        BlockBuf::admits(heap.type_id(addr)) <==> heap.live(addr) && heap.state(addr) is BlockBuf,
{
    heap.lemma_typed_live(addr);
}

impl Release for Type {
    open spec fn as_type(&self) -> Type {
        *self
    }

    /// Every object may be seen through a bare handle.
    open spec fn admits(id: TypeId) -> bool {
        true
    }

    #[inline]
    fn as_type_ref(&self) -> (t: &Type) {
        self
    }

    #[inline]
    fn admits_tag(id: TypeId) -> (yes: bool) {
        true
    }

    #[inline]
    fn narrow(t: &Type, rt: &Runtime) -> (view: Type) {
        *t
    }

    #[inline]
    fn release(&mut self, rt: &mut Runtime, owner: Ghost<nat>) {
        assert(self.as_type() == *self);
        assert(rt@.holds(owner@, self.addr()));
        Type::release(self, rt, owner)
    }
}

impl Retain for Type {
    #[inline]
    fn retained(&self, rt: &mut Runtime) -> (r: R<Type>) {
        Type::retain(self, rt)
    }
}

} // verus!
