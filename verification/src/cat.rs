//! Lists of audio buffers.
use vstd::prelude::*;

verus! {

/// The size in bytes of a buffer list without its buffers.
pub const BUF_LIST_HEADER_SIZE: usize = 8;

/// The size in bytes that each buffer adds to a buffer list.
pub const BUF_SIZE: usize = 16;

/// One buffer of audio data: the bytes of one or more channels.
#[derive(Debug)]
pub struct Buf {
    /// The number of channels whose samples lie interleaved in `data`.
    pub number_channels: u32,
    pub data: Vec<u8>,
}

/// A buffer, as contracts speak of it.
pub struct BufView {
    pub number_channels: u32,
    pub data: Seq<u8>,
}

impl View for Buf {
    type V = BufView;

    open spec fn view(&self) -> BufView {
        BufView { number_channels: self.number_channels, data: self.data@ }
    }
}

impl Buf {
    /// A buffer with no channels and no data.
    pub fn empty() -> (b: Buf)
        ensures
            b@ == (BufView { number_channels: 0, data: Seq::empty() }),
    {
        Buf { number_channels: 0, data: Vec::new() }
    }

    /// The number of bytes in the buffer.
    #[inline]
    pub fn data_bytes_size(&self) -> (n: usize)
        ensures
            n == self@.data.len(),
    {
        self.data.len()
    }
}

/// The views of a list of buffers.
pub open spec fn bufs_of(list: Seq<Buf>) -> Seq<BufView> {
    Seq::new(list.len(), |i: int| list[i]@)
}

/// The number of buffers that a buffer list of `size` bytes has room for.
pub open spec fn spec_bufs_in(size: usize) -> nat {
    if size < BUF_LIST_HEADER_SIZE {
        0
    } else {
        ((size - BUF_LIST_HEADER_SIZE) / BUF_SIZE as int) as nat
    }
}

/// The number of buffers that a buffer list of `size` bytes has room for.
pub fn bufs_in(size: usize) -> (n: usize)
    ensures
        n == spec_bufs_in(size),
{
    if size < BUF_LIST_HEADER_SIZE {
        0
    } else {
        (size - BUF_LIST_HEADER_SIZE) / BUF_SIZE
    }
}

/// The size in bytes of a buffer list of `n` buffers.
pub open spec fn spec_size_of_bufs(n: nat) -> nat {
    BUF_LIST_HEADER_SIZE as nat + n * BUF_SIZE as nat
}

/// The size in bytes of a buffer list of `n` buffers, if it is a size at all.
pub fn size_of_bufs(n: usize) -> (size: Option<usize>)
    ensures
        size is Some <==> spec_size_of_bufs(n as nat) <= usize::MAX,
        size is Some ==> size->0 == spec_size_of_bufs(n as nat) && spec_bufs_in(size->0) == n,
{
    match n.checked_mul(BUF_SIZE) {
        Some(bytes) => match bytes.checked_add(BUF_LIST_HEADER_SIZE) {
            Some(size) => {
                assert((n * 16) / 16 == n);
                Some(size)
            },
            None => None,
        },
        None => None,
    }
}

/// A list of audio buffers with room for `N` of them.
#[derive(Debug)]
pub struct BufList<const N: usize> {
    buffers: Vec<Buf>,
}

impl<const N: usize> View for BufList<N> {
    type V = Seq<BufView>;

    closed spec fn view(&self) -> Seq<BufView> {
        bufs_of(self.buffers@)
    }
}

impl<const N: usize> BufList<N> {
    /// No more buffers than there is room for.
    #[verifier::type_invariant]
    closed spec fn within_room(&self) -> bool {
        self.buffers@.len() <= N
    }

    /// A list with nothing in it.
    pub fn new() -> (list: BufList<N>)
        ensures
            list@ == Seq::<BufView>::empty(),
    {
        let list = BufList { buffers: Vec::new() };
        assert(list@ =~= Seq::empty());
        list
    }

    /// A list of the buffers `buffers`, if there is room for them.
    pub fn with_buffers(buffers: Vec<Buf>) -> (list: Option<BufList<N>>)
        ensures
            list is Some <==> buffers@.len() <= N,
            list is Some ==> list->0@ == bufs_of(buffers@),
    {
        if buffers.len() <= N {
            Some(BufList { buffers })
        } else {
            None
        }
    }

    /// The number of buffers in use.
    pub fn number_buffers(&self) -> (n: usize)
        ensures
            n == self@.len(),
            n <= N,
    {
        proof {
            use_type_invariant(self);
        }
        self.buffers.len()
    }

    /// The buffers in use.
    pub fn buffers(&self) -> (bufs: &Vec<Buf>)
        ensures
            bufs_of(bufs@) == self@,
    {
        &self.buffers
    }

    /// Gives the buffer at place `i` the bytes `data` in place of its own.
    pub fn replace_data(&mut self, i: usize, data: Vec<u8>)
        requires
            i < old(self)@.len(),
        ensures
            final(self)@ == old(self)@.update(
                i as int,
                BufView { number_channels: old(self)@[i as int].number_channels, data: data@ },
            ),
    {
        proof {
            use_type_invariant(&*self);
        }
        let mut buffers: Vec<Buf> = Vec::new();
        std::mem::swap(&mut self.buffers, &mut buffers);
        buffers[i].data = data;
        std::mem::swap(&mut self.buffers, &mut buffers);
        assert(self@ =~= old(self)@.update(
            i as int,
            BufView { number_channels: old(self)@[i as int].number_channels, data: data@ },
        ));
    }
}

/// A list of audio buffers whose room is set at run time.
#[derive(Debug)]
pub struct AudioBufListN {
    room: usize,
    buffers: Vec<Buf>,
}

impl View for AudioBufListN {
    type V = Seq<BufView>;

    closed spec fn view(&self) -> Seq<BufView> {
        bufs_of(self.buffers@)
    }
}

impl AudioBufListN {
    /// No more buffers than there is room for.
    #[verifier::type_invariant]
    closed spec fn within_room(&self) -> bool {
        self.buffers@.len() <= self.room
    }

    /// The number of buffers that the list has room for.
    pub closed spec fn spec_room(&self) -> nat {
        self.room as nat
    }

    /// A list with no room.
    pub fn new() -> (list: AudioBufListN)
        ensures
            list@ == Seq::<BufView>::empty(),
            list.spec_room() == 0,
    {
        let list = AudioBufListN { room: 0, buffers: Vec::new() };
        assert(list@ =~= Seq::empty());
        list
    }

    /// The number of buffers that the list has room for.
    pub fn room(&self) -> (n: usize)
        ensures
            n == self.spec_room(),
            self@.len() <= n,
    {
        proof {
            use_type_invariant(self);
        }
        self.room
    }

    /// Gives the list the room of a buffer list of `size` bytes and empties
    /// it.
    pub fn resize(&mut self, size: usize)
        ensures
            final(self).spec_room() == spec_bufs_in(size),
            final(self)@ == Seq::<BufView>::empty(),
    {
        *self = AudioBufListN { room: bufs_in(size), buffers: Vec::new() };
        assert(self@ =~= Seq::empty());
    }

    /// Puts `buffers` in the list in place of what it held, if the list has
    /// room for them; if it has not, the list stays as it is.
    pub fn fill(&mut self, buffers: Vec<Buf>) -> (done: bool)
        ensures
            done == (buffers@.len() <= old(self).spec_room()),
            final(self).spec_room() == old(self).spec_room(),
            final(self)@ == if done {
                bufs_of(buffers@)
            } else {
                old(self)@
            },
    {
        if buffers.len() <= self.room {
            *self = AudioBufListN { room: self.room, buffers };
            true
        } else {
            false
        }
    }

    /// The buffers in use.
    pub fn buffers(&self) -> (bufs: &Vec<Buf>)
        ensures
            bufs_of(bufs@) == self@,
    {
        &self.buffers
    }
}

/// Where one packet of audio data lies in its buffer.
#[derive(Clone, Copy, Debug, PartialEq, Eq, Structural)]
pub struct StreamPacketDesc {
    pub start_offset: i64,
    pub variable_frames_in_packet: u32,
    pub data_byte_size: u32,
}

} // verus!
