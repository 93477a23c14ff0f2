use crate::arc::Release;
use crate::arc::Retain;
use crate::arc::R;
use crate::cf::runtime::Type;
use crate::cf::runtime::TypeId;
use crate::foreign::Heap;
use crate::foreign::Payload;
use crate::foreign::Runtime;
use crate::foreign::State;
use crate::foreign::payload::Elem;
use crate::foreign::ARRAY_TYPE_ID;
use vstd::prelude::*;

verus! {

/// The addresses of a list of handles.
pub open spec fn addrs_of(refs: Seq<Type>) -> Seq<u64> {
    Seq::new(refs.len(), |i: int| refs[i].addr())
}

/// The runtime after the array at `array` took the objects at `addrs`, one
/// after the other, as its next elements.
pub open spec fn keep_all(heap: Heap, array: u64, addrs: Seq<u64>) -> Heap
    decreases addrs.len(),
{
    if addrs.len() == 0 {
        heap
    } else {
        keep_all(heap, array, addrs.drop_last()).keep(array, addrs.last())
    }
}

/// Whether an array of the objects behind `refs` can be made in `heap`: there
/// is room for the array, every object is there, and every one of them can
/// take as many more counts as the array has elements.
pub open spec fn can_keep_all(heap: Heap, refs: Seq<Type>) -> bool {
    &&& heap.has_room()
    &&& forall|i: int|
        0 <= i < refs.len() ==> heap.live((#[trigger] refs[i]).addr()) && heap.retain_count(
            refs[i].addr(),
        ) + refs.len() <= u64::MAX
}

/// A view of an array: an object that keeps other objects, in order, for as
/// long as it is there.
#[derive(Clone, Copy, Debug)]
pub struct Array(Type);

impl std::ops::Deref for Array {
    type Target = Type;

    #[inline]
    fn deref(&self) -> (t: &Type)
        ensures
            *t == self.as_type(),
    {
        &self.0
    }
}

impl Release for Array {
    closed spec fn as_type(&self) -> Type {
        self.0
    }

    open spec fn admits(id: TypeId) -> bool {
        id == ARRAY_TYPE_ID
    }

    #[inline]
    fn as_type_ref(&self) -> (t: &Type) {
        &self.0
    }

    #[inline]
    fn admits_tag(id: TypeId) -> (yes: bool) {
        id == ARRAY_TYPE_ID
    }

    #[inline]
    fn narrow(t: &Type, rt: &Runtime) -> (view: Array) {
        Array(*t)
    }

    #[inline]
    fn release(&mut self, rt: &mut Runtime, owner: Ghost<nat>) {
        self.0.release(rt, owner)
    }
}

impl Retain for Array {
    #[inline]
    fn retained(&self, rt: &mut Runtime) -> (r: R<Array>) {
        Array::retained(self, rt)
    }
}

impl Array {
    /// The tag of every array.
    #[inline]
    pub fn type_id() -> (id: TypeId)
        ensures
            id == ARRAY_TYPE_ID,
    {
        ARRAY_TYPE_ID
    }

    /// The address of the object.
    pub open spec fn addr(&self) -> u64 {
        self.as_type().addr()
    }

    /// Whether this view has a live array behind it in `heap`.
    pub open spec fn valid_in(&self, heap: Heap) -> bool {
        heap.live(self.addr()) && heap.type_id(self.addr()) == ARRAY_TYPE_ID
    }

    /// The addresses of the objects that the array at this view's address
    /// keeps in `heap`, in order.
    pub open spec fn addrs_in(&self, heap: Heap) -> Seq<u64> {
        Seq::new(heap.elems(self.addr()).len(), |i: int| heap.elems(self.addr())[i].addr)
    }

    /// A second owned reference to the same array.
    #[inline]
    pub fn retained(&self, rt: &mut Runtime) -> (r: R<Array>)
        requires
            old(rt).wf(),
            self.valid_in(old(rt)@),
            old(rt)@.retain_count(self.addr()) < u64::MAX,
        ensures
            final(rt).wf(),
            final(rt)@ == old(rt)@.retain(self.addr()),
            r.target().as_type() == self.as_type(),
            r.owner() == old(rt)@.next_owner,
            r.held_in(final(rt)@),
    {
        Type::retain(&self.0, rt)
    }

    /// An array with no elements. The caller owns the one count of the new
    /// object.
    pub fn new(rt: &mut Runtime) -> (r: R<Array>)
        requires
            old(rt).wf(),
            old(rt)@.has_room(),
        ensures
            final(rt).wf(),
            final(rt)@ == old(rt)@.create(State::Array(Seq::empty())),
            r.addr() == old(rt)@.next_addr(),
            r.owner() == old(rt)@.next_owner,
            r.held_in(final(rt)@),
    {
        let list: Vec<crate::foreign::payload::Kept> = Vec::new();
        let payload = Payload::Array(list);
        assert(payload@.elems() =~= Seq::empty());
        assert(payload@ == State::Array(Seq::<Elem>::empty()));
        let (t, owner) = rt.create(payload);
        R::adopt(Array(t), owner)
    }

    /// An array of the objects behind `refs`, in that order. The array takes
    /// a count of its own on each of them and gives it back when it goes. No
    /// array is made where the runtime has no room for one, or where one of
    /// the objects is gone or has no counts to spare; nothing is changed then.
    pub fn from_type_refs(rt: &mut Runtime, refs: &[Type]) -> (r: Option<R<Array>>)
        requires
            old(rt).wf(),
        ensures
            final(rt).wf(),
            r is Some <==> can_keep_all(old(rt)@, refs@),
            r is None ==> final(rt)@ == old(rt)@,
            r matches Some(array) ==> {
                &&& final(rt)@ == keep_all(
                    old(rt)@.create(State::Array(Seq::empty())),
                    old(rt)@.next_addr(),
                    addrs_of(refs@),
                )
                &&& array.addr() == old(rt)@.next_addr()
                &&& array.owner() == old(rt)@.next_owner
                &&& array.held_in(final(rt)@)
                &&& array.target().addrs_in(final(rt)@) == addrs_of(refs@)
                &&& forall|o: nat, a: u64|
                    #![trigger old(rt)@.holder.contains_pair(o, a)]
                    old(rt)@.holds(o, a) ==> final(rt)@.holds(o, a) && final(rt)@.state(a) == old(
                        rt,
                    )@.state(a)
            },
    {
        let n: usize = refs.len();
        if !rt.has_room() {
            return None;
        }
        let mut k: usize = 0;
        while k < n
            invariant
                k <= n,
                n == refs@.len(),
                rt.wf(),
                rt@ == old(rt)@,
                rt@.has_room(),
                forall|i: int|
                    0 <= i < k ==> rt@.live((#[trigger] refs@[i]).addr()) && rt@.retain_count(
                        refs@[i].addr(),
                    ) + n <= u64::MAX,
            decreases n - k,
        {
            if !rt.is_live(&refs[k]) || rt.retain_count(&refs[k]) > u64::MAX - n as u64 {
                return None;
            }
            k = k + 1;
        }
        let ghost before = rt@;
        let made = Array::new(rt);
        let array: Type = *made.as_type_ref();
        let ghost created = rt@;
        let ghost addrs = addrs_of(refs@);
        k = 0;
        while k < n
            invariant
                k <= n,
                n == refs@.len(),
                addrs == addrs_of(refs@),
                rt.wf(),
                array.addr() == before.next_addr(),
                array == made.target().as_type(),
                before.wf(),
                created == before.create(State::Array(Seq::empty())),
                rt@ == keep_all(created, array.addr(), addrs.subrange(0, k as int)),
                rt@.live(array.addr()),
                rt@.state(array.addr()) is Array,
                rt@.elems(array.addr()).len() == k,
                made.held_in(rt@),
                forall|i: int| 0 <= i < k ==> (#[trigger] rt@.elems(array.addr())[i]).addr == addrs[i],
                forall|i: int|
                    0 <= i < n ==> before.live((#[trigger] refs@[i]).addr()) && rt@.live(
                        refs@[i].addr(),
                    ) && rt@.retain_count(refs@[i].addr()) + (n - k) <= u64::MAX,
                forall|o: nat, a: u64|
                    #![trigger before.holder.contains_pair(o, a)]
                    before.holds(o, a) ==> rt@.holds(o, a) && rt@.state(a) == before.state(a),
            decreases n - k,
        {
            let ghost cur = rt@;
            let elem: Type = refs[k];
            proof {
                assert(before.live(refs@[k as int].addr()));
                cur.lemma_keep_wf(array.addr(), elem.addr());
                assert(addrs.subrange(0, k + 1).drop_last() =~= addrs.subrange(0, k as int));
                assert(addrs.subrange(0, k + 1).last() == elem.addr());
            }
            rt.keep(&array, &elem);
            proof {
                assert forall|i: int| 0 <= i < n implies rt@.live((#[trigger] refs@[i]).addr())
                    && rt@.retain_count(refs@[i].addr()) + (n - (k + 1)) <= u64::MAX by {
                    let a = refs@[i].addr();
                    assert(cur.live(a));
                    assert(rt@.slot(a) == rt@.slot(a));
                }
                assert forall|o: nat, a: u64|
                    #![trigger before.holder.contains_pair(o, a)]
                    before.holds(o, a) implies rt@.holds(o, a) && rt@.state(a) == before.state(
                    a,
                ) by {
                    assert(cur.holds(o, a));
                    assert(cur.holder.contains_pair(o, a));
                    before.lemma_holds_live(o, a);
                    assert(rt@.slot(a) == rt@.slot(a));
                }
                assert(rt@.slot(array.addr()) == rt@.slot(array.addr()));
            }
            k = k + 1;
        }
        proof {
            assert(addrs.subrange(0, n as int) =~= addrs);
            assert(made.target().addrs_in(rt@) =~= addrs);
        }
        Some(made)
    }

    /// The number of elements.
    pub fn len(&self, rt: &Runtime) -> (n: usize)
        requires
            self.valid_in(rt@),
        ensures
            n == rt@.elems(self.addr()).len(),
    {
        match rt.payload(&self.0) {
            Payload::Array(list) => list.len(),
            _ => unreached(),
        }
    }

    /// Whether the array has no elements.
    pub fn is_empty(&self, rt: &Runtime) -> (empty: bool)
        requires
            self.valid_in(rt@),
        ensures
            empty == (rt@.elems(self.addr()).len() == 0),
    {
        self.len(rt) == 0
    }

    /// A handle to the element at place `i`. The object behind it stays there
    /// for as long as the array does.
    pub fn get(&self, rt: &Runtime, i: usize) -> (elem: Type)
        requires
            rt.wf(),
            self.valid_in(rt@),
            i < rt@.elems(self.addr()).len(),
        ensures
            elem.addr() == rt@.elems(self.addr())[i as int].addr,
            rt@.live(elem.addr()),
    {
        proof {
            rt@.lemma_elem_live(self.addr(), i as int);
        }
        match rt.payload(&self.0) {
            Payload::Array(list) => {
                assert(crate::foreign::payload::elems_of(list@)[i as int] == list@[i as int]@);
                Type::at(list[i].addr)
            },
            _ => unreached(),
        }
    }
}

} // verus!
