use crate::arc::Release;
use crate::arc::Retain;
use crate::arc::R;
use crate::cf::allocator::Allocator;
use crate::cf::runtime::Type;
use crate::cf::runtime::TypeId;
use crate::foreign::Heap;
use crate::foreign::Payload;
use crate::foreign::Runtime;
use crate::foreign::State;
use crate::foreign::STRING_TYPE_ID;
use vstd::prelude::*;
use vstd::string::StringSliceAdditionalSpecFns;
use vstd::utf8::decode_utf8;
use vstd::utf8::is_ascii_chars;
use vstd::utf8::valid_utf8;

verus! {

/// How the bytes of a text stand for its characters.
#[derive(Clone, Copy, Debug, PartialEq, Eq, Structural)]
pub enum StringEncoding {
    /// One byte for each character, none above 127.
    ASCII,
    UTF8,
}

/// `core::str::from_utf8`: the text that `bytes` encode where they are
/// well-formed UTF-8, and nothing where they are not. The text is the same
/// bytes, seen as characters.
#[verifier::external_body]
fn text_of(bytes: &[u8]) -> (text: Option<&str>)
    ensures
        text is Some <==> valid_utf8(bytes@),
        text is Some ==> text->0.spec_bytes() == bytes@,
{
    match core::str::from_utf8(bytes) {
        Ok(text) => Some(text),
        Err(_) => None,
    }
}

/// Whether `bytes` are a text in `encoding`.
pub open spec fn encodes_text(bytes: Seq<u8>, encoding: StringEncoding) -> bool {
    valid_utf8(bytes) && (encoding == StringEncoding::ASCII ==> is_ascii_chars(decode_utf8(bytes)))
}

/// A view of a boxed string.
#[derive(Clone, Copy, Debug)]
pub struct String(Type);

impl std::ops::Deref for String {
    type Target = Type;

    #[inline]
    fn deref(&self) -> (t: &Type)
        ensures
            *t == self.as_type(),
    {
        &self.0
    }
}

impl Release for String {
    closed spec fn as_type(&self) -> Type {
        self.0
    }

    open spec fn admits(id: TypeId) -> bool {
        id == STRING_TYPE_ID
    }

    #[inline]
    fn as_type_ref(&self) -> (t: &Type) {
        &self.0
    }

    #[inline]
    fn admits_tag(id: TypeId) -> (yes: bool) {
        id == STRING_TYPE_ID
    }

    #[inline]
    fn narrow(t: &Type, rt: &Runtime) -> (view: String) {
        String(*t)
    }

    #[inline]
    fn release(&mut self, rt: &mut Runtime, owner: Ghost<nat>) {
        self.0.release(rt, owner)
    }
}

impl Retain for String {
    #[inline]
    fn retained(&self, rt: &mut Runtime) -> (r: R<String>) {
        String::retained(self, rt)
    }
}

impl String {
    /// The tag of every boxed string.
    #[inline]
    pub fn type_id() -> (id: TypeId)
        ensures
            id == STRING_TYPE_ID,
    {
        STRING_TYPE_ID
    }

    /// The address of the object.
    pub open spec fn addr(&self) -> u64 {
        self.as_type().addr()
    }

    /// Whether this view has a live string behind it in `heap`.
    pub open spec fn valid_in(&self, heap: Heap) -> bool {
        heap.live(self.addr()) && heap.type_id(self.addr()) == STRING_TYPE_ID
    }

    /// The characters that the string at this view's address has in `heap`.
    pub open spec fn chars_in(&self, heap: Heap) -> Seq<char> {
        heap.state(self.addr())->String_0
    }

    /// A second owned reference to the same string.
    #[inline]
    pub fn retained(&self, rt: &mut Runtime) -> (r: R<String>)
        requires
            old(rt).wf(),
            self.valid_in(old(rt)@),
            old(rt)@.retain_count(self.addr()) < u64::MAX,
        ensures
            final(rt).wf(),
            final(rt)@ == old(rt)@.retain(self.addr()),
            r.target().as_type() == self.as_type(),
            r.owner() == old(rt)@.next_owner,
            r.held_in(final(rt)@),
    {
        Type::retain(&self.0, rt)
    }

    /// Boxes a copy of `s`. The caller owns the one count of the new object.
    pub fn from_str(rt: &mut Runtime, s: &str) -> (r: R<String>)
        requires
            old(rt).wf(),
            old(rt)@.has_room(),
        ensures
            final(rt).wf(),
            final(rt)@ == old(rt)@.create(State::String(s@)),
            r.addr() == old(rt)@.next_addr(),
            r.owner() == old(rt)@.next_owner,
            r.held_in(final(rt)@),
    {
        let (t, owner) = rt.create(Payload::String(s.to_owned()));
        R::adopt(String(t), owner)
    }

    /// Boxes the text that `bytes` are in `encoding`. The bytes are copied,
    /// so nothing is asked of the caller's bytes after the call, and
    /// `is_external_representation` and `contents_deallocator` change
    /// nothing. No string is made where the bytes are no text in the
    /// encoding, where the allocator gives no memory, or where the runtime
    /// has no room; nothing is changed then.
    pub fn create_with_bytes_no_copy_in(
        rt: &mut Runtime,
        bytes: &[u8],
        encoding: StringEncoding,
        is_external_representation: bool,
        contents_deallocator: Option<&Allocator>,
        allocator: Option<&Allocator>,
    ) -> (r: Option<R<String>>)
        requires
            old(rt).wf(),
        ensures
            final(rt).wf(),
            r is Some <==> encodes_text(bytes@, encoding) && Allocator::spec_gives_memory(allocator)
                && old(rt)@.has_room(),
            r is None ==> final(rt)@ == old(rt)@,
            r matches Some(s) ==> {
                &&& final(rt)@ == old(rt)@.create(State::String(decode_utf8(bytes@)))
                &&& s.addr() == old(rt)@.next_addr()
                &&& s.owner() == old(rt)@.next_owner
                &&& s.held_in(final(rt)@)
            },
    {
        broadcast use vstd::utf8::encode_utf8_decode_utf8;

        let text = match text_of(bytes) {
            Some(text) => text,
            None => {
                return None;
            },
        };
        assert(decode_utf8(bytes@) == text@);
        let plain = match encoding {
            StringEncoding::ASCII => text.is_ascii(),
            StringEncoding::UTF8 => true,
        };
        if !plain || !Allocator::gives_memory(allocator) || !rt.has_room() {
            return None;
        }
        Some(String::from_str(rt, text))
    }

    /// A copy of the boxed characters.
    pub fn to_string(&self, rt: &Runtime) -> (s: std::string::String)
        requires
            self.valid_in(rt@),
        ensures
            s@ == self.chars_in(rt@),
    {
        match rt.payload(&self.0) {
            Payload::String(s) => s.clone(),
            _ => unreached(),
        }
    }
}

} // verus!
