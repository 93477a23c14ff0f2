//! What objects hold.
use crate::cf::runtime::TypeId;
use crate::cf::runtime::NOT_A_TYPE_ID;
use crate::cm::sample_buffer::SampleBufState;
use crate::cm::sample_buffer::SampleBufView;
use crate::core_audio::tap_description::TapDescState;
use crate::core_audio::tap_description::TapDescView;
use vstd::prelude::*;

verus! {

/// The tag of a boxed string.
pub const STRING_TYPE_ID: TypeId = 7;

/// The tag of the null object.
pub const NULL_TYPE_ID: TypeId = 16;

/// The tag of an array.
pub const ARRAY_TYPE_ID: TypeId = 19;

/// The tag of a boxed number.
pub const NUMBER_TYPE_ID: TypeId = 22;

/// The tag of a sample buffer.
pub const SAMPLE_BUF_TYPE_ID: TypeId = 256;

/// The tag of a tap description.
pub const TAP_DESC_TYPE_ID: TypeId = 257;

/// The tag of a block of media data.
pub const BLOCK_BUF_TYPE_ID: TypeId = 258;

/// An element of an array: the address of an object, and the owned reference
/// through which the array keeps the object there.
pub struct Elem {
    pub addr: u64,
    pub owner: nat,
}

/// An element of an array, as the runtime stores it.
pub struct Kept {
    pub addr: u64,
    pub owner: Ghost<nat>,
}

impl View for Kept {
    type V = Elem;

    open spec fn view(&self) -> Elem {
        Elem { addr: self.addr, owner: self.owner@ }
    }
}

/// The views of a list of elements.
pub open spec fn elems_of(list: Seq<Kept>) -> Seq<Elem> {
    Seq::new(list.len(), |i: int| list[i]@)
}

/// What an object holds, as the runtime stores it.
pub enum Payload {
    /// Nothing: the object is gone.
    Freed,
    Null,
    Array(Vec<Kept>),
    Number(i64),
    String(String),
    SampleBuf(SampleBufState),
    TapDesc(TapDescState),
    BlockBuf(Vec<u8>),
}

/// What an object holds, as contracts speak of it.
pub enum State {
    Freed,
    Null,
    Array(Seq<Elem>),
    Number(i64),
    String(Seq<char>),
    SampleBuf(SampleBufView),
    TapDesc(TapDescView),
    BlockBuf(Seq<u8>),
}

impl State {
    /// The type tag of an object in this state.
    pub open spec fn type_id(self) -> TypeId {
        match self {
            State::Freed => NOT_A_TYPE_ID,
            State::Null => NULL_TYPE_ID,
            State::Array(_) => ARRAY_TYPE_ID,
            State::Number(_) => NUMBER_TYPE_ID,
            State::String(_) => STRING_TYPE_ID,
            State::SampleBuf(_) => SAMPLE_BUF_TYPE_ID,
            State::TapDesc(_) => TAP_DESC_TYPE_ID,
            State::BlockBuf(_) => BLOCK_BUF_TYPE_ID,
        }
    }

    /// Whether the state is in order, as far as its own type asks for more
    /// than its fields say.
    pub open spec fn wf(self) -> bool {
        match self {
            State::SampleBuf(buf) => buf.wf(),
            _ => true,
        }
    }

    /// The objects that an object in this state keeps: the elements of an
    /// array, the block of a sample buffer, and nothing for anything else.
    pub open spec fn elems(self) -> Seq<Elem> {
        match self {
            State::Array(elems) => elems,
            State::SampleBuf(buf) => buf.kept,
            _ => Seq::empty(),
        }
    }

    /// This state with `elems` as what the object keeps.
    pub open spec fn with_elems(self, elems: Seq<Elem>) -> State {
        match self {
            State::Array(_) => State::Array(elems),
            State::SampleBuf(buf) => State::SampleBuf(SampleBufView { kept: elems, ..buf }),
            _ => self,
        }
    }
}

impl View for Payload {
    type V = State;

    open spec fn view(&self) -> State {
        match self {
            Payload::Freed => State::Freed,
            Payload::Null => State::Null,
            Payload::Array(list) => State::Array(elems_of(list@)),
            Payload::Number(n) => State::Number(*n),
            Payload::String(s) => State::String(s@),
            Payload::SampleBuf(b) => State::SampleBuf(b@),
            Payload::TapDesc(d) => State::TapDesc(d@),
            Payload::BlockBuf(bytes) => State::BlockBuf(bytes@),
        }
    }
}

impl Payload {
    /// The type tag of an object with this payload.
    pub fn type_id(&self) -> (id: TypeId)
        ensures
            id == self@.type_id(),
    {
        match self {
            Payload::Freed => NOT_A_TYPE_ID,
            Payload::Null => NULL_TYPE_ID,
            Payload::Array(_) => ARRAY_TYPE_ID,
            Payload::Number(_) => NUMBER_TYPE_ID,
            Payload::String(_) => STRING_TYPE_ID,
            Payload::SampleBuf(_) => SAMPLE_BUF_TYPE_ID,
            Payload::TapDesc(_) => TAP_DESC_TYPE_ID,
            Payload::BlockBuf(_) => BLOCK_BUF_TYPE_ID,
        }
    }
}


} // verus!
