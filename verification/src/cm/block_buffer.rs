use crate::arc::Release;
use crate::arc::Retain;
use crate::arc::R;
use crate::cf::runtime::Type;
use crate::cf::runtime::TypeId;
use crate::foreign::Heap;
use crate::foreign::Payload;
use crate::foreign::Runtime;
use crate::foreign::State;
use crate::foreign::BLOCK_BUF_TYPE_ID;
use vstd::prelude::*;

verus! {

/// A view of a block of media data: an object that holds bytes.
#[derive(Clone, Copy, Debug)]
pub struct BlockBuf(Type);

impl std::ops::Deref for BlockBuf {
    type Target = Type;

    #[inline]
    fn deref(&self) -> (t: &Type)
        ensures
            *t == self.as_type(),
    {
        &self.0
    }
}

impl Release for BlockBuf {
    closed spec fn as_type(&self) -> Type {
        self.0
    }

    open spec fn admits(id: TypeId) -> bool {
        id == BLOCK_BUF_TYPE_ID
    }

    #[inline]
    fn as_type_ref(&self) -> (t: &Type) {
        &self.0
    }

    #[inline]
    fn admits_tag(id: TypeId) -> (yes: bool) {
        id == BLOCK_BUF_TYPE_ID
    }

    #[inline]
    fn narrow(t: &Type, rt: &Runtime) -> (view: BlockBuf) {
        BlockBuf(*t)
    }

    #[inline]
    fn release(&mut self, rt: &mut Runtime, owner: Ghost<nat>) {
        self.0.release(rt, owner)
    }
}

impl Retain for BlockBuf {
    #[inline]
    fn retained(&self, rt: &mut Runtime) -> (r: R<BlockBuf>) {
        BlockBuf::retained(self, rt)
    }
}

impl BlockBuf {
    /// The tag of every block.
    #[inline]
    pub fn type_id() -> (id: TypeId)
        ensures
            id == BLOCK_BUF_TYPE_ID,
    {
        BLOCK_BUF_TYPE_ID
    }

    /// The address of the object.
    pub open spec fn addr(&self) -> u64 {
        self.as_type().addr()
    }

    /// Whether this view has a live block behind it in `heap`.
    pub open spec fn valid_in(&self, heap: Heap) -> bool {
        heap.live(self.addr()) && heap.type_id(self.addr()) == BLOCK_BUF_TYPE_ID
    }

    /// The bytes that the block at this view's address holds in `heap`.
    pub open spec fn bytes_in(&self, heap: Heap) -> Seq<u8> {
        heap.state(self.addr())->BlockBuf_0
    }

    /// A second owned reference to the same block.
    #[inline]
    pub fn retained(&self, rt: &mut Runtime) -> (r: R<BlockBuf>)
        requires
            old(rt).wf(),
            self.valid_in(old(rt)@),
            old(rt)@.retain_count(self.addr()) < u64::MAX,
        ensures
            final(rt).wf(),
            final(rt)@ == old(rt)@.retain(self.addr()),
            r.target().as_type() == self.as_type(),
            r.owner() == old(rt)@.next_owner,
            r.held_in(final(rt)@),
    {
        Type::retain(&self.0, rt)
    }

    /// A block that holds a copy of `bytes`. The caller owns the one count of
    /// the new object.
    pub fn with_bytes(rt: &mut Runtime, bytes: &[u8]) -> (r: R<BlockBuf>)
        requires
            old(rt).wf(),
            old(rt)@.has_room(),
        ensures
            final(rt).wf(),
            final(rt)@ == old(rt)@.create(State::BlockBuf(bytes@)),
            r.addr() == old(rt)@.next_addr(),
            r.owner() == old(rt)@.next_owner,
            r.held_in(final(rt)@),
    {
        Self::from_vec(rt, vstd::slice::slice_to_vec(bytes))
    }

    /// A block that holds `bytes`.
    pub(crate) fn from_vec(rt: &mut Runtime, bytes: Vec<u8>) -> (r: R<BlockBuf>)
        requires
            old(rt).wf(),
            old(rt)@.has_room(),
        ensures
            final(rt).wf(),
            final(rt)@ == old(rt)@.create(State::BlockBuf(bytes@)),
            r.addr() == old(rt)@.next_addr(),
            r.owner() == old(rt)@.next_owner,
            r.held_in(final(rt)@),
    {
        let (t, owner) = rt.create(Payload::BlockBuf(bytes));
        R::adopt(BlockBuf(t), owner)
    }

    /// The number of bytes in the block.
    pub fn data_len(&self, rt: &Runtime) -> (n: usize)
        requires
            self.valid_in(rt@),
        ensures
            n == self.bytes_in(rt@).len(),
    {
        match rt.payload(&self.0) {
            Payload::BlockBuf(bytes) => bytes.len(),
            _ => unreached(),
        }
    }

    /// A copy of the bytes of the block.
    pub fn data(&self, rt: &Runtime) -> (bytes: Vec<u8>)
        requires
            self.valid_in(rt@),
        ensures
            bytes@ == self.bytes_in(rt@),
    {
        match rt.payload(&self.0) {
            Payload::BlockBuf(bytes) => vstd::slice::slice_to_vec(bytes.as_slice()),
            _ => unreached(),
        }
    }
}

} // verus!
