use crate::arc::Release;
use crate::arc::Retain;
use crate::arc::A;
use crate::arc::R;
use crate::cf::runtime::Type;
use crate::cf::runtime::TypeId;
use crate::foreign::Heap;
use crate::foreign::Payload;
use crate::foreign::Runtime;
use crate::foreign::State;
use crate::foreign::TAP_DESC_TYPE_ID;
use crate::ns::chars_of;
use crate::ns::strings_of;
use crate::ns::Uuid;
use vstd::prelude::*;
use vstd::slice::slice_to_vec;

verus! {

/// What a tap does to the audio that the tapped processes send to the hardware.
#[derive(Debug, Copy, Clone, Eq, PartialEq, Structural)]
pub enum TapMuteBehavior {
    /// Audio is captured by the tap and also sent to the audio hardware.
    Unmuted,
    /// Audio is captured by the tap but no audio is sent from the process to
    /// the audio hardware.
    Muted,
    /// Audio is captured by the tap and also sent to the audio hardware until
    /// the tap is read by another audio client. For the duration of the read
    /// activity on the tap no audio is sent to the audio hardware.
    MuttedWhenTapped,
}

impl Default for TapMuteBehavior {
    fn default() -> (b: TapMuteBehavior)
        ensures
            b == TapMuteBehavior::Unmuted,
    {
        TapMuteBehavior::Unmuted
    }
}

impl TapMuteBehavior {
    /// The number that stands for the behaviour.
    pub open spec fn spec_raw(self) -> isize {
        match self {
            TapMuteBehavior::Unmuted => 0,
            TapMuteBehavior::Muted => 1,
            TapMuteBehavior::MuttedWhenTapped => 2,
        }
    }

    /// The number that stands for the behaviour.
    #[inline]
    pub fn raw(self) -> (n: isize)
        ensures
            n == self.spec_raw(),
    {
        match self {
            TapMuteBehavior::Unmuted => 0,
            TapMuteBehavior::Muted => 1,
            TapMuteBehavior::MuttedWhenTapped => 2,
        }
    }

    /// The behaviour that `n` stands for, if it stands for one.
    #[inline]
    pub fn from_raw(n: isize) -> (b: Option<TapMuteBehavior>)
        ensures
            b is Some <==> 0 <= n <= 2,
            b is Some ==> b->0.spec_raw() == n,
    {
        if n == 0 {
            Some(TapMuteBehavior::Unmuted)
        } else if n == 1 {
            Some(TapMuteBehavior::Muted)
        } else if n == 2 {
            Some(TapMuteBehavior::MuttedWhenTapped)
        } else {
            None
        }
    }
}

/// What a tap description holds, as the runtime stores it.
pub struct TapDescState {
    name: Option<String>,
    uuid: Uuid,
    processes: Vec<i64>,
    bundle_ids: Vec<String>,
    mono: bool,
    exclusive: bool,
    mixdown: bool,
    private: bool,
    process_restore_enabled: bool,
    mute_behavior: TapMuteBehavior,
    device_uid: Option<String>,
    stream: Option<i64>,
}

/// What a tap description holds, as contracts speak of it.
pub struct TapDescView {
    /// Human readable name of the tap.
    pub name: Option<Seq<char>>,
    pub uuid: Uuid,
    /// The object ids of the processes to tap or to exclude.
    pub processes: Seq<i64>,
    pub bundle_ids: Seq<Seq<char>>,
    pub mono: bool,
    pub exclusive: bool,
    pub mixdown: bool,
    pub private: bool,
    pub process_restore_enabled: bool,
    pub mute_behavior: TapMuteBehavior,
    /// The device that the tap is limited to, if it is limited to one.
    pub device_uid: Option<Seq<char>>,
    /// The index of the hardware stream that the tap is limited to, if it is
    /// limited to one.
    pub stream: Option<i64>,
}

impl View for TapDescState {
    type V = TapDescView;

    closed spec fn view(&self) -> TapDescView {
        TapDescView {
            name: chars_of(self.name),
            uuid: self.uuid,
            processes: self.processes@,
            bundle_ids: strings_of(self.bundle_ids@),
            mono: self.mono,
            exclusive: self.exclusive,
            mixdown: self.mixdown,
            private: self.private,
            process_restore_enabled: self.process_restore_enabled,
            mute_behavior: self.mute_behavior,
            device_uid: chars_of(self.device_uid),
            stream: self.stream,
        }
    }
}

impl TapDescView {
    /// The description that an allocation makes at `addr`, before any
    /// initialiser ran: nothing named, nothing tapped, every switch off, and an
    /// identifier that no other object of the runtime has.
    pub open spec fn allocated(addr: u64) -> TapDescView {
        TapDescView {
            name: None,
            uuid: Uuid { bits: addr as u128 },
            processes: Seq::empty(),
            bundle_ids: Seq::empty(),
            mono: false,
            exclusive: false,
            mixdown: false,
            private: false,
            process_restore_enabled: false,
            mute_behavior: TapMuteBehavior::Unmuted,
            device_uid: None,
            stream: None,
        }
    }

    /// This description turned into a mix of `processes`, or of every process
    /// but them where `exclusive` is set, down to one channel (`mono`) or two.
    pub open spec fn mixdown_of(self, processes: Seq<i64>, mono: bool, exclusive: bool)
        -> TapDescView {
        TapDescView { processes, mono, exclusive, mixdown: true, ..self }
    }

    /// This description turned into a tap of what `processes`, or every process
    /// but them where `exclusive` is set, send to stream `stream` of the device
    /// `device_uid`.
    pub open spec fn device_tap_of(
        self,
        processes: Seq<i64>,
        device_uid: Seq<char>,
        stream: isize,
        exclusive: bool,
    ) -> TapDescView {
        TapDescView {
            processes,
            exclusive,
            mono: false,
            mixdown: false,
            device_uid: Some(device_uid),
            stream: Some(stream as i64),
            ..self
        }
    }
}

/// A view of a tap description: an object that says which processes a tap
/// listens to and how it mixes what it hears.
#[derive(Clone, Copy, Debug)]
pub struct TapDesc(Type);

impl std::ops::Deref for TapDesc {
    type Target = Type;

    #[inline]
    fn deref(&self) -> (t: &Type)
        ensures
            *t == self.as_type(),
    {
        &self.0
    }
}

impl Release for TapDesc {
    closed spec fn as_type(&self) -> Type {
        self.0
    }

    open spec fn admits(id: TypeId) -> bool {
        id == TAP_DESC_TYPE_ID
    }

    #[inline]
    fn as_type_ref(&self) -> (t: &Type) {
        &self.0
    }

    #[inline]
    fn admits_tag(id: TypeId) -> (yes: bool) {
        id == TAP_DESC_TYPE_ID
    }

    #[inline]
    fn narrow(t: &Type, rt: &Runtime) -> (view: TapDesc) {
        TapDesc(*t)
    }

    #[inline]
    fn release(&mut self, rt: &mut Runtime, owner: Ghost<nat>) {
        self.0.release(rt, owner)
    }
}

impl Retain for TapDesc {
    #[inline]
    fn retained(&self, rt: &mut Runtime) -> (r: R<TapDesc>) {
        TapDesc::retained(self, rt)
    }
}

impl A<TapDesc> {
    /// Initialises the description with nothing but what its allocation gave
    /// it.
    pub fn init(self, rt: &mut Runtime) -> (r: R<TapDesc>)
        requires
            old(rt).wf(),
            self.held_in(old(rt)@),
        ensures
            final(rt)@ == old(rt)@,
            r.addr() == self.addr(),
            r.owner() == self.owner(),
            r.held_in(final(rt)@),
    {
        self.initialized()
    }

    /// Mix all given process audio streams down to stereo.
    pub fn init_stereo_mixdown_of_processes(
        self,
        rt: &mut Runtime,
        processes_obj_ids_to_include: &[i64],
    ) -> (r: R<TapDesc>)
        requires
            old(rt).wf(),
            self.held_in(old(rt)@),
        ensures
            final(rt).wf(),
            final(rt)@ == old(rt)@.put(
                self.addr(),
                State::TapDesc(
                    self.target().desc_in(old(rt)@).mixdown_of(
                        processes_obj_ids_to_include@,
                        false,
                        false,
                    ),
                ),
            ),
            r.addr() == self.addr(),
            r.owner() == self.owner(),
            r.held_in(final(rt)@),
    {
        self.init_mixdown(rt, processes_obj_ids_to_include, false, false)
    }

    /// Mix all processes to a stereo stream except the given processes.
    pub fn init_stereo_global_tap_but_exclude_processes(
        self,
        rt: &mut Runtime,
        processes_obj_ids_to_exclude: &[i64],
    ) -> (r: R<TapDesc>)
        requires
            old(rt).wf(),
            self.held_in(old(rt)@),
        ensures
            final(rt).wf(),
            final(rt)@ == old(rt)@.put(
                self.addr(),
                State::TapDesc(
                    self.target().desc_in(old(rt)@).mixdown_of(
                        processes_obj_ids_to_exclude@,
                        false,
                        true,
                    ),
                ),
            ),
            r.addr() == self.addr(),
            r.owner() == self.owner(),
            r.held_in(final(rt)@),
    {
        self.init_mixdown(rt, processes_obj_ids_to_exclude, false, true)
    }

    /// Mix all given process audio streams down to mono.
    pub fn init_mono_mixdown_of_processes(
        self,
        rt: &mut Runtime,
        processes_obj_ids_to_include: &[i64],
    ) -> (r: R<TapDesc>)
        requires
            old(rt).wf(),
            self.held_in(old(rt)@),
        ensures
            final(rt).wf(),
            final(rt)@ == old(rt)@.put(
                self.addr(),
                State::TapDesc(
                    self.target().desc_in(old(rt)@).mixdown_of(
                        processes_obj_ids_to_include@,
                        true,
                        false,
                    ),
                ),
            ),
            r.addr() == self.addr(),
            r.owner() == self.owner(),
            r.held_in(final(rt)@),
    {
        self.init_mixdown(rt, processes_obj_ids_to_include, true, false)
    }

    /// Mix all processes to a mono stream except the given processes.
    pub fn init_mono_global_tap_but_exclude_processes(
        self,
        rt: &mut Runtime,
        processes_obj_ids_to_exclude: &[i64],
    ) -> (r: R<TapDesc>)
        requires
            old(rt).wf(),
            self.held_in(old(rt)@),
        ensures
            final(rt).wf(),
            final(rt)@ == old(rt)@.put(
                self.addr(),
                State::TapDesc(
                    self.target().desc_in(old(rt)@).mixdown_of(
                        processes_obj_ids_to_exclude@,
                        true,
                        true,
                    ),
                ),
            ),
            r.addr() == self.addr(),
            r.owner() == self.owner(),
            r.held_in(final(rt)@),
    {
        self.init_mixdown(rt, processes_obj_ids_to_exclude, true, true)
    }

    /// Tap what the given processes send to one stream of one device.
    pub fn init_with_processes_and_device(
        self,
        rt: &mut Runtime,
        processes_obj_ids_to_include: &[i64],
        device_uid: &str,
        stream: isize,
    ) -> (r: R<TapDesc>)
        requires
            old(rt).wf(),
            self.held_in(old(rt)@),
        ensures
            final(rt).wf(),
            final(rt)@ == old(rt)@.put(
                self.addr(),
                State::TapDesc(
                    self.target().desc_in(old(rt)@).device_tap_of(
                        processes_obj_ids_to_include@,
                        device_uid@,
                        stream,
                        false,
                    ),
                ),
            ),
            r.addr() == self.addr(),
            r.owner() == self.owner(),
            r.held_in(final(rt)@),
    {
        self.init_device_tap(rt, processes_obj_ids_to_include, device_uid, stream, false)
    }

    /// Tap what every process but the given ones sends to one stream of one
    /// device.
    pub fn init_excluding_processes_and_device(
        self,
        rt: &mut Runtime,
        processes_obj_ids_to_exclude: &[i64],
        device_uid: &str,
        stream: isize,
    ) -> (r: R<TapDesc>)
        requires
            old(rt).wf(),
            self.held_in(old(rt)@),
        ensures
            final(rt).wf(),
            final(rt)@ == old(rt)@.put(
                self.addr(),
                State::TapDesc(
                    self.target().desc_in(old(rt)@).device_tap_of(
                        processes_obj_ids_to_exclude@,
                        device_uid@,
                        stream,
                        true,
                    ),
                ),
            ),
            r.addr() == self.addr(),
            r.owner() == self.owner(),
            r.held_in(final(rt)@),
    {
        self.init_device_tap(rt, processes_obj_ids_to_exclude, device_uid, stream, true)
    }

    fn init_mixdown(self, rt: &mut Runtime, processes: &[i64], mono: bool, exclusive: bool) -> (r:
        R<TapDesc>)
        requires
            old(rt).wf(),
            self.held_in(old(rt)@),
        ensures
            final(rt).wf(),
            final(rt)@ == old(rt)@.put(
                self.addr(),
                State::TapDesc(
                    self.target().desc_in(old(rt)@).mixdown_of(processes@, mono, exclusive),
                ),
            ),
            r.addr() == self.addr(),
            r.owner() == self.owner(),
            r.held_in(final(rt)@),
    {
        proof {
            rt@.lemma_holds_live(self.owner(), self.addr());
        }
        let d = self.target_ref().state_mut(rt);
        d.processes = slice_to_vec(processes);
        d.mono = mono;
        d.exclusive = exclusive;
        d.mixdown = true;
        self.initialized()
    }

    fn init_device_tap(
        self,
        rt: &mut Runtime,
        processes: &[i64],
        device_uid: &str,
        stream: isize,
        exclusive: bool,
    ) -> (r: R<TapDesc>)
        requires
            old(rt).wf(),
            self.held_in(old(rt)@),
        ensures
            final(rt).wf(),
            final(rt)@ == old(rt)@.put(
                self.addr(),
                State::TapDesc(
                    self.target().desc_in(old(rt)@).device_tap_of(
                        processes@,
                        device_uid@,
                        stream,
                        exclusive,
                    ),
                ),
            ),
            r.addr() == self.addr(),
            r.owner() == self.owner(),
            r.held_in(final(rt)@),
    {
        proof {
            rt@.lemma_holds_live(self.owner(), self.addr());
        }
        let d = self.target_ref().state_mut(rt);
        d.processes = slice_to_vec(processes);
        d.exclusive = exclusive;
        d.mono = false;
        d.mixdown = false;
        d.device_uid = Some(device_uid.to_owned());
        d.stream = Some(stream as i64);
        self.initialized()
    }
}

impl TapDesc {
    /// The tag of every tap description.
    #[inline]
    pub fn type_id() -> (id: TypeId)
        ensures
            id == TAP_DESC_TYPE_ID,
    {
        TAP_DESC_TYPE_ID
    }

    /// The address of the object.
    pub open spec fn addr(&self) -> u64 {
        self.as_type().addr()
    }

    /// Whether this view has a live tap description behind it in `heap`.
    pub open spec fn valid_in(&self, heap: Heap) -> bool {
        heap.live(self.addr()) && heap.type_id(self.addr()) == TAP_DESC_TYPE_ID
    }

    /// What the description at this view's address holds in `heap`.
    pub open spec fn desc_in(&self, heap: Heap) -> TapDescView {
        heap.state(self.addr())->TapDesc_0
    }

    /// `heap` with this description changed to `desc`.
    pub open spec fn put_in(&self, heap: Heap, desc: TapDescView) -> Heap {
        heap.put(self.addr(), State::TapDesc(desc))
    }

    fn state<'a>(&self, rt: &'a Runtime) -> (d: &'a TapDescState)
        requires
            self.valid_in(rt@),
        ensures
            d@ == self.desc_in(rt@),
    {
        match rt.payload(&self.0) {
            Payload::TapDesc(d) => d,
            _ => unreached(),
        }
    }

    fn state_mut<'a>(&self, rt: &'a mut Runtime) -> (d: &'a mut TapDescState)
        requires
            old(rt).wf(),
            self.valid_in(old(rt)@),
        ensures
            d@ == self.desc_in(old(rt)@),
            final(rt)@ == self.put_in(old(rt)@, final(d)@),
            final(rt).wf(),
    {
        proof {
            let h = rt@;
            let addr = self.addr();
            assert forall|state: State| state is TapDesc implies (#[trigger] h.put(
                addr,
                state,
            )).wf() by {
                h.lemma_put_wf(addr, state);
            }
        }
        match rt.payload_mut(&self.0) {
            Payload::TapDesc(d) => d,
            _ => unreached(),
        }
    }

    /// A second owned reference to the same description.
    #[inline]
    pub fn retained(&self, rt: &mut Runtime) -> (r: R<TapDesc>)
        requires
            old(rt).wf(),
            self.valid_in(old(rt)@),
            old(rt)@.retain_count(self.addr()) < u64::MAX,
        ensures
            final(rt).wf(),
            final(rt)@ == old(rt)@.retain(self.addr()),
            r.target().as_type() == self.as_type(),
            r.owner() == old(rt)@.next_owner,
            r.held_in(final(rt)@),
    {
        Type::retain(&self.0, rt)
    }

    /// Allocates a description. The caller owns its one count and has yet to
    /// initialise it.
    pub fn allocate(rt: &mut Runtime) -> (a: A<TapDesc>)
        requires
            old(rt).wf(),
            old(rt)@.has_room(),
        ensures
            final(rt).wf(),
            final(rt)@ == old(rt)@.create(
                State::TapDesc(TapDescView::allocated(old(rt)@.next_addr())),
            ),
            a.addr() == old(rt)@.next_addr(),
            a.owner() == old(rt)@.next_owner,
            a.held_in(final(rt)@),
    {
        let n: u64 = rt.next_addr();
        let d = TapDescState {
            name: None,
            uuid: Uuid { bits: n as u128 },
            processes: Vec::new(),
            bundle_ids: Vec::new(),
            mono: false,
            exclusive: false,
            mixdown: false,
            private: false,
            process_restore_enabled: false,
            mute_behavior: TapMuteBehavior::Unmuted,
            device_uid: None,
            stream: None,
        };
        assert(d@.bundle_ids =~= Seq::empty());
        assert(d@ == TapDescView::allocated(n));
        let (t, owner) = rt.create(Payload::TapDesc(d));
        A::adopt(TapDesc(t), owner)
    }

    /// A description with nothing but what its allocation gave it.
    pub fn new(rt: &mut Runtime) -> (r: R<TapDesc>)
        requires
            old(rt).wf(),
            old(rt)@.has_room(),
        ensures
            final(rt).wf(),
            final(rt)@ == old(rt)@.create(
                State::TapDesc(TapDescView::allocated(old(rt)@.next_addr())),
            ),
            r.addr() == old(rt)@.next_addr(),
            r.owner() == old(rt)@.next_owner,
            r.held_in(final(rt)@),
    {
        Self::allocate(rt).init(rt)
    }

    /// Mix all given process audio streams down to stereo.
    ///
    /// Mono sources will be duplicated in both right and left channels.
    pub fn with_stereo_mixdown_of_processes(
        rt: &mut Runtime,
        processes_obj_ids_to_include: &[i64],
    ) -> (r: R<TapDesc>)
        requires
            old(rt).wf(),
            old(rt)@.has_room(),
        ensures
            final(rt).wf(),
            final(rt)@ == old(rt)@.create(
                State::TapDesc(
                    TapDescView::allocated(old(rt)@.next_addr()).mixdown_of(
                        processes_obj_ids_to_include@,
                        false,
                        false,
                    ),
                ),
            ),
            r.addr() == old(rt)@.next_addr(),
            r.owner() == old(rt)@.next_owner,
            r.held_in(final(rt)@),
    {
        let ghost before = rt@;
        let r = Self::allocate(rt).init_stereo_mixdown_of_processes(
            rt,
            processes_obj_ids_to_include,
        );
        assert(rt@.slots =~= before.create(
            State::TapDesc(
                TapDescView::allocated(before.next_addr()).mixdown_of(
                    processes_obj_ids_to_include@,
                    false,
                    false,
                ),
            ),
        ).slots);
        r
    }

    /// Mix all processes to a stereo stream except the given processes.
    ///
    /// Mono sources will be duplicated in both right and left channels.
    pub fn with_stereo_global_tap_excluding_processes(
        rt: &mut Runtime,
        processes_obj_ids_to_exclude: &[i64],
    ) -> (r: R<TapDesc>)
        requires
            old(rt).wf(),
            old(rt)@.has_room(),
        ensures
            final(rt).wf(),
            final(rt)@ == old(rt)@.create(
                State::TapDesc(
                    TapDescView::allocated(old(rt)@.next_addr()).mixdown_of(
                        processes_obj_ids_to_exclude@,
                        false,
                        true,
                    ),
                ),
            ),
            r.addr() == old(rt)@.next_addr(),
            r.owner() == old(rt)@.next_owner,
            r.held_in(final(rt)@),
    {
        let ghost before = rt@;
        let r = Self::allocate(rt).init_stereo_global_tap_but_exclude_processes(
            rt,
            processes_obj_ids_to_exclude,
        );
        assert(rt@.slots =~= before.create(
            State::TapDesc(
                TapDescView::allocated(before.next_addr()).mixdown_of(
                    processes_obj_ids_to_exclude@,
                    false,
                    true,
                ),
            ),
        ).slots);
        r
    }

    /// Mix all given process audio streams down to mono.
    pub fn with_mono_mixdown_of_processes(
        rt: &mut Runtime,
        processes_obj_ids_to_include: &[i64],
    ) -> (r: R<TapDesc>)
        requires
            old(rt).wf(),
            old(rt)@.has_room(),
        ensures
            final(rt).wf(),
            final(rt)@ == old(rt)@.create(
                State::TapDesc(
                    TapDescView::allocated(old(rt)@.next_addr()).mixdown_of(
                        processes_obj_ids_to_include@,
                        true,
                        false,
                    ),
                ),
            ),
            r.addr() == old(rt)@.next_addr(),
            r.owner() == old(rt)@.next_owner,
            r.held_in(final(rt)@),
    {
        let ghost before = rt@;
        let r = Self::allocate(rt).init_mono_mixdown_of_processes(
            rt,
            processes_obj_ids_to_include,
        );
        assert(rt@.slots =~= before.create(
            State::TapDesc(
                TapDescView::allocated(before.next_addr()).mixdown_of(
                    processes_obj_ids_to_include@,
                    true,
                    false,
                ),
            ),
        ).slots);
        r
    }

    /// Mix all processes to a mono stream except the given processes.
    pub fn with_mono_global_tap_excluding_processes(
        rt: &mut Runtime,
        processes_obj_ids_to_exclude: &[i64],
    ) -> (r: R<TapDesc>)
        requires
            old(rt).wf(),
            old(rt)@.has_room(),
        ensures
            final(rt).wf(),
            final(rt)@ == old(rt)@.create(
                State::TapDesc(
                    TapDescView::allocated(old(rt)@.next_addr()).mixdown_of(
                        processes_obj_ids_to_exclude@,
                        true,
                        true,
                    ),
                ),
            ),
            r.addr() == old(rt)@.next_addr(),
            r.owner() == old(rt)@.next_owner,
            r.held_in(final(rt)@),
    {
        let ghost before = rt@;
        let r = Self::allocate(rt).init_mono_global_tap_but_exclude_processes(
            rt,
            processes_obj_ids_to_exclude,
        );
        assert(rt@.slots =~= before.create(
            State::TapDesc(
                TapDescView::allocated(before.next_addr()).mixdown_of(
                    processes_obj_ids_to_exclude@,
                    true,
                    true,
                ),
            ),
        ).slots);
        r
    }

    /// Tap what the given processes send to stream `stream` of the device
    /// `device_uid`.
    pub fn with_processes_and_device(
        rt: &mut Runtime,
        processes_obj_ids_to_include: &[i64],
        device_uid: &str,
        stream: isize,
    ) -> (r: R<TapDesc>)
        requires
            old(rt).wf(),
            old(rt)@.has_room(),
        ensures
            final(rt).wf(),
            final(rt)@ == old(rt)@.create(
                State::TapDesc(
                    TapDescView::allocated(old(rt)@.next_addr()).device_tap_of(
                        processes_obj_ids_to_include@,
                        device_uid@,
                        stream,
                        false,
                    ),
                ),
            ),
            r.addr() == old(rt)@.next_addr(),
            r.owner() == old(rt)@.next_owner,
            r.held_in(final(rt)@),
    {
        let ghost before = rt@;
        let r = Self::allocate(rt).init_with_processes_and_device(
            rt,
            processes_obj_ids_to_include,
            device_uid,
            stream,
        );
        assert(rt@.slots =~= before.create(
            State::TapDesc(
                TapDescView::allocated(before.next_addr()).device_tap_of(
                    processes_obj_ids_to_include@,
                    device_uid@,
                    stream,
                    false,
                ),
            ),
        ).slots);
        r
    }

    /// Human readable name of this tap.
    pub fn name(&self, rt: &Runtime) -> (val: Option<String>)
        requires
            self.valid_in(rt@),
        ensures
            chars_of(val) == self.desc_in(rt@).name,
    {
        match &self.state(rt).name {
            Some(s) => Some(s.clone()),
            None => None,
        }
    }

    pub fn set_name(&self, rt: &mut Runtime, val: Option<&str>)
        requires
            old(rt).wf(),
            self.valid_in(old(rt)@),
        ensures
            final(rt).wf(),
            final(rt)@ == self.put_in(
                old(rt)@,
                TapDescView {
                    name: match val {
                        Some(s) => Some(s@),
                        None => None,
                    },
                    ..self.desc_in(old(rt)@)
                },
            ),
    {
        let d = self.state_mut(rt);
        d.name = match val {
            Some(s) => Some(s.to_owned()),
            None => None,
        };
    }

    /// The identifier of this tap.
    pub fn uuid(&self, rt: &Runtime) -> (val: Uuid)
        requires
            self.valid_in(rt@),
        ensures
            val == self.desc_in(rt@).uuid,
    {
        self.state(rt).uuid
    }

    /// Gives the tap the identifier `val`, or the nil identifier for `None`.
    pub fn set_uuid(&self, rt: &mut Runtime, val: Option<&Uuid>)
        requires
            old(rt).wf(),
            self.valid_in(old(rt)@),
        ensures
            final(rt).wf(),
            final(rt)@ == self.put_in(
                old(rt)@,
                TapDescView {
                    uuid: match val {
                        Some(id) => *id,
                        None => Uuid { bits: 0 },
                    },
                    ..self.desc_in(old(rt)@)
                },
            ),
    {
        let d = self.state_mut(rt);
        d.uuid = match val {
            Some(id) => *id,
            None => Uuid::nil(),
        };
    }

    /// The object ids of the processes to tap or to exclude.
    pub fn processes(&self, rt: &Runtime) -> (val: Vec<i64>)
        requires
            self.valid_in(rt@),
        ensures
            val@ == self.desc_in(rt@).processes,
    {
        slice_to_vec(self.state(rt).processes.as_slice())
    }

    pub fn set_processes(&self, rt: &mut Runtime, val: &[i64])
        requires
            old(rt).wf(),
            self.valid_in(old(rt)@),
        ensures
            final(rt).wf(),
            final(rt)@ == self.put_in(
                old(rt)@,
                TapDescView { processes: val@, ..self.desc_in(old(rt)@) },
            ),
    {
        let d = self.state_mut(rt);
        d.processes = slice_to_vec(val);
    }

    /// The bundle ids of the processes to tap or to exclude.
    pub fn bundle_ids(&self, rt: &Runtime) -> (val: Vec<String>)
        requires
            self.valid_in(rt@),
        ensures
            strings_of(val@) == self.desc_in(rt@).bundle_ids,
    {
        let val = self.state(rt).bundle_ids.clone();
        assert(strings_of(val@) =~= self.desc_in(rt@).bundle_ids);
        val
    }

    pub fn set_bundle_ids(&self, rt: &mut Runtime, val: &Vec<String>)
        requires
            old(rt).wf(),
            self.valid_in(old(rt)@),
        ensures
            final(rt).wf(),
            final(rt)@ == self.put_in(
                old(rt)@,
                TapDescView { bundle_ids: strings_of(val@), ..self.desc_in(old(rt)@) },
            ),
    {
        let copy = val.clone();
        assert(strings_of(copy@) =~= strings_of(val@));
        let d = self.state_mut(rt);
        d.bundle_ids = copy;
    }

    /// True if this description is a mono mixdown of channels.
    pub fn is_mono(&self, rt: &Runtime) -> (val: bool)
        requires
            self.valid_in(rt@),
        ensures
            val == self.desc_in(rt@).mono,
    {
        self.state(rt).mono
    }

    pub fn set_mono(&self, rt: &mut Runtime, val: bool)
        requires
            old(rt).wf(),
            self.valid_in(old(rt)@),
        ensures
            final(rt).wf(),
            final(rt)@ == self.put_in(
                old(rt)@,
                TapDescView { mono: val, ..self.desc_in(old(rt)@) },
            ),
    {
        let d = self.state_mut(rt);
        d.mono = val;
    }

    /// True if this description taps all processes except those listed in `processes`.
    pub fn is_exclusive(&self, rt: &Runtime) -> (val: bool)
        requires
            self.valid_in(rt@),
        ensures
            val == self.desc_in(rt@).exclusive,
    {
        self.state(rt).exclusive
    }

    pub fn set_exclusive(&self, rt: &mut Runtime, val: bool)
        requires
            old(rt).wf(),
            self.valid_in(old(rt)@),
        ensures
            final(rt).wf(),
            final(rt)@ == self.put_in(
                old(rt)@,
                TapDescView { exclusive: val, ..self.desc_in(old(rt)@) },
            ),
    {
        let d = self.state_mut(rt);
        d.exclusive = val;
    }

    /// True if this description is a mono or stereo mix of the tapped device's channels.
    pub fn is_mixdown(&self, rt: &Runtime) -> (val: bool)
        requires
            self.valid_in(rt@),
        ensures
            val == self.desc_in(rt@).mixdown,
    {
        self.state(rt).mixdown
    }

    pub fn set_mixdown(&self, rt: &mut Runtime, val: bool)
        requires
            old(rt).wf(),
            self.valid_in(old(rt)@),
        ensures
            final(rt).wf(),
            final(rt)@ == self.put_in(
                old(rt)@,
                TapDescView { mixdown: val, ..self.desc_in(old(rt)@) },
            ),
    {
        let d = self.state_mut(rt);
        d.mixdown = val;
    }

    /// True if this tap is only visible to the client process that created it.
    pub fn is_private(&self, rt: &Runtime) -> (val: bool)
        requires
            self.valid_in(rt@),
        ensures
            val == self.desc_in(rt@).private,
    {
        self.state(rt).private
    }

    pub fn set_private(&self, rt: &mut Runtime, val: bool)
        requires
            old(rt).wf(),
            self.valid_in(old(rt)@),
        ensures
            final(rt).wf(),
            final(rt)@ == self.put_in(
                old(rt)@,
                TapDescView { private: val, ..self.desc_in(old(rt)@) },
            ),
    {
        let d = self.state_mut(rt);
        d.private = val;
    }

    /// True if this tap saves tapped processes by bundle ID when they exit and
    /// restores them when they start up again.
    pub fn is_process_restore_enabled(&self, rt: &Runtime) -> (val: bool)
        requires
            self.valid_in(rt@),
        ensures
            val == self.desc_in(rt@).process_restore_enabled,
    {
        self.state(rt).process_restore_enabled
    }

    pub fn set_process_restore_enabled(&self, rt: &mut Runtime, val: bool)
        requires
            old(rt).wf(),
            self.valid_in(old(rt)@),
        ensures
            final(rt).wf(),
            final(rt)@ == self.put_in(
                old(rt)@,
                TapDescView { process_restore_enabled: val, ..self.desc_in(old(rt)@) },
            ),
    {
        let d = self.state_mut(rt);
        d.process_restore_enabled = val;
    }

    /// What the tap does to the audio that goes to the hardware.
    pub fn mute_behavior(&self, rt: &Runtime) -> (val: TapMuteBehavior)
        requires
            self.valid_in(rt@),
        ensures
            val == self.desc_in(rt@).mute_behavior,
    {
        self.state(rt).mute_behavior
    }

    pub fn set_mute_behavior(&self, rt: &mut Runtime, val: TapMuteBehavior)
        requires
            old(rt).wf(),
            self.valid_in(old(rt)@),
        ensures
            final(rt).wf(),
            final(rt)@ == self.put_in(
                old(rt)@,
                TapDescView { mute_behavior: val, ..self.desc_in(old(rt)@) },
            ),
    {
        let d = self.state_mut(rt);
        d.mute_behavior = val;
    }

    /// An optional device UID that has a value if this tap only taps a specific
    /// hardware device.
    pub fn device_uid(&self, rt: &Runtime) -> (val: Option<String>)
        requires
            self.valid_in(rt@),
        ensures
            chars_of(val) == self.desc_in(rt@).device_uid,
    {
        match &self.state(rt).device_uid {
            Some(s) => Some(s.clone()),
            None => None,
        }
    }

    pub fn set_device_uid(&self, rt: &mut Runtime, val: Option<&str>)
        requires
            old(rt).wf(),
            self.valid_in(old(rt)@),
        ensures
            final(rt).wf(),
            final(rt)@ == self.put_in(
                old(rt)@,
                TapDescView {
                    device_uid: match val {
                        Some(s) => Some(s@),
                        None => None,
                    },
                    ..self.desc_in(old(rt)@)
                },
            ),
    {
        let d = self.state_mut(rt);
        d.device_uid = match val {
            Some(s) => Some(s.to_owned()),
            None => None,
        };
    }

    /// An optional number that has a value if this tap taps a specific device
    /// stream. The value is the index of the hardware stream.
    pub fn stream(&self, rt: &Runtime) -> (val: Option<i64>)
        requires
            self.valid_in(rt@),
        ensures
            val == self.desc_in(rt@).stream,
    {
        self.state(rt).stream
    }

    pub fn set_stream(&self, rt: &mut Runtime, val: Option<i64>)
        requires
            old(rt).wf(),
            self.valid_in(old(rt)@),
        ensures
            final(rt).wf(),
            final(rt)@ == self.put_in(
                old(rt)@,
                TapDescView { stream: val, ..self.desc_in(old(rt)@) },
            ),
    {
        let d = self.state_mut(rt);
        d.stream = val;
    }
}

} // verus!
