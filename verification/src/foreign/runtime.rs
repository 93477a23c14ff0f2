//! The object table itself.
use crate::cf::runtime::Type;
use crate::cf::runtime::TypeId;
use crate::cf::runtime::NOT_A_TYPE_ID;
use crate::cf::runtime::TAGGED_BASE;
use crate::foreign::heap::Call;
use crate::foreign::heap::Event;
use crate::foreign::heap::Heap;
use crate::foreign::heap::Slot;
use crate::foreign::payload::elems_of;
use crate::foreign::payload::Elem;
use crate::foreign::payload::Kept;
use crate::foreign::payload::Payload;
use vstd::prelude::*;

verus! {

/// One object of the table.
pub struct Object {
    count: u64,
    payload: Payload,
    owners: Ghost<Set<nat>>,
}

impl View for Object {
    type V = Slot;

    closed spec fn view(&self) -> Slot {
        Slot { count: self.count as nat, owners: self.owners@, state: self.payload@ }
    }
}

/// The object table.
///
/// Every function that reads or changes an object takes the runtime it lives
/// in. A handle or an owned reference means something only together with the
/// runtime that handed it out.
pub struct Runtime {
    objects: Vec<Object>,
    holder: Ghost<Map<nat, u64>>,
    keeper: Ghost<Map<nat, (u64, int)>>,
    next_owner: Ghost<nat>,
    log: Ghost<Seq<Event>>,
}

impl View for Runtime {
    type V = Heap;

    closed spec fn view(&self) -> Heap {
        Heap {
            slots: Seq::new(self.objects@.len(), |i: int| self.objects@[i]@),
            holder: self.holder@,
            keeper: self.keeper@,
            next_owner: self.next_owner@,
            log: self.log@,
        }
    }
}

impl Runtime {
    /// Whether the table is in order.
    pub open spec fn wf(&self) -> bool {
        self@.wf()
    }

    /// A runtime with no objects.
    pub fn new() -> (rt: Runtime)
        ensures
            rt.wf(),
            rt@ == Heap::empty(),
    {
        let rt = Runtime {
            objects: Vec::new(),
            holder: Ghost(Map::empty()),
            keeper: Ghost(Map::empty()),
            next_owner: Ghost(0),
            log: Ghost(Seq::empty()),
        };
        proof {
            assert(rt@.slots =~= Seq::empty());
            Heap::lemma_empty_wf();
        }
        rt
    }

    /// The index of the object at `addr`, where there is one.
    fn index_of(&self, addr: u64) -> (i: Option<usize>)
        ensures
            i is Some <==> self@.has(addr),
            i is Some ==> i->0 == addr - 1 && i->0 < self.objects@.len(),
    {
        let n: usize = self.objects.len();
        if addr == 0 || addr - 1 >= n as u64 {
            None
        } else {
            Some((addr - 1) as usize)
        }
    }

    /// The index of the object at `addr`.
    fn slot_index(&self, addr: u64) -> (i: usize)
        requires
            self@.has(addr),
        ensures
            i == addr - 1,
            i < self.objects@.len(),
            self.objects@[i as int]@ == self@.slot(addr),
    {
        let n: usize = self.objects.len();
        assert(addr - 1 < n);
        (addr - 1) as usize
    }

    /// The address that the next object will get.
    pub fn next_addr(&self) -> (addr: u64)
        requires
            self@.has_room(),
        ensures
            addr == self@.next_addr(),
    {
        let n: usize = self.objects.len();
        n as u64 + 1
    }

    /// Whether one more object can be created.
    pub fn has_room(&self) -> (room: bool)
        ensures
            room == self@.has_room(),
    {
        let n: usize = self.objects.len();
        (n as u64) < TAGGED_BASE - 1
    }

    /// Whether the object behind `t` is there.
    pub fn is_live(&self, t: &Type) -> (live: bool)
        ensures
            live == self@.live(t.addr()),
    {
        match self.index_of(t.as_type_ptr()) {
            Some(i) => self.objects[i].count > 0,
            None => false,
        }
    }

    /// The retain count of the object behind `t`; zero where there is none.
    pub fn retain_count(&self, t: &Type) -> (count: u64)
        ensures
            count == self@.retain_count(t.addr()),
    {
        match self.index_of(t.as_type_ptr()) {
            Some(i) => self.objects[i].count,
            None => 0,
        }
    }

    /// The type tag of the object behind `t`.
    pub fn type_id(&self, t: &Type) -> (id: TypeId)
        ensures
            id == self@.type_id(t.addr()),
    {
        match self.index_of(t.as_type_ptr()) {
            Some(i) => self.objects[i].payload.type_id(),
            None => NOT_A_TYPE_ID,
        }
    }

    /// Makes an object and hands its one count to a new owned reference.
    pub(crate) fn create(&mut self, payload: Payload) -> (made: (Type, Ghost<nat>))
        requires
            old(self).wf(),
            old(self)@.has_room(),
            !(payload is Freed),
            payload@.wf(),
            payload@.elems().len() == 0,
        ensures
            final(self).wf(),
            final(self)@ == old(self)@.create(payload@),
            made.0.addr() == old(self)@.next_addr(),
            made.1@ == old(self)@.next_owner,
            final(self)@.holds(made.1@, made.0.addr()),
    {
        let ghost before = self@;
        let ghost owner = self.next_owner@;
        let n: usize = self.objects.len();
        let addr: u64 = n as u64 + 1;
        let ghost owners = set![owner];
        self.objects.push(Object { count: 1, payload, owners: Ghost(owners) });
        proof {
            self.holder@ = self.holder@.insert(owner, addr);
            self.next_owner@ = owner + 1;
            self.log@ = self.log@.push(Event { call: Call::Create, owner, addr });
            assert(self@.slots =~= before.create(payload@).slots);
            before.lemma_create_wf(payload@);
        }
        (Type::at(addr), Ghost(owner))
    }

    /// Takes one more count on a live object, for a new owned reference.
    pub(crate) fn retain(&mut self, t: &Type) -> (owner: Ghost<nat>)
        requires
            old(self).wf(),
            old(self)@.live(t.addr()),
            old(self)@.retain_count(t.addr()) < u64::MAX,
        ensures
            final(self).wf(),
            final(self)@ == old(self)@.retain(t.addr()),
            owner@ == old(self)@.next_owner,
            final(self)@.holds(owner@, t.addr()),
    {
        let ghost before = self@;
        let ghost owner = self.next_owner@;
        let addr: u64 = t.as_type_ptr();
        let i: usize = self.slot_index(addr);
        let ghost owners = self.objects@[i as int].owners@;
        self.objects[i].count = self.objects[i].count + 1;
        self.objects[i].owners = Ghost(owners.insert(owner));
        proof {
            self.holder@ = self.holder@.insert(owner, addr);
            self.next_owner@ = owner + 1;
            self.log@ = self.log@.push(Event { call: Call::Retain, owner, addr });
            assert(self@.slots =~= before.retain(addr).slots);
            before.lemma_retain_wf(addr);
        }
        Ghost(owner)
    }

    /// Gives back the count that `owner` accounts for. With its last count the
    /// object goes, after it has given back the counts that it kept.
    pub(crate) fn release(&mut self, t: &Type, Ghost(owner): Ghost<nat>)
        requires
            old(self).wf(),
            old(self)@.holds(owner, t.addr()),
        ensures
            final(self).wf(),
            final(self)@ == old(self)@.release(t.addr(), owner),
            final(self)@.released_from(old(self)@, t.addr(), owner),
            !final(self)@.outstanding(owner),
            final(self)@.retain_count(t.addr()) == old(self)@.retain_count(t.addr()) - 1,
        decreases t.addr(), 1int,
    {
        let ghost before = self@;
        let addr: u64 = t.as_type_ptr();
        proof {
            before.lemma_holds_live(owner, addr);
            before.lemma_release_wf(addr, owner);
        }
        let i: usize = self.slot_index(addr);
        if self.objects[i].count == 1 {
            self.drop_elems(t, Ghost(owner));
        }
        self.release_one(t, Ghost(owner));
    }

    /// Has the object behind `t`, which is down to the one count of `owner`,
    /// give back the counts that it keeps, the last one first.
    fn drop_elems(&mut self, t: &Type, Ghost(owner): Ghost<nat>)
        requires
            old(self).wf(),
            old(self)@.holds(owner, t.addr()),
            old(self)@.retain_count(t.addr()) == 1,
        ensures
            final(self).wf(),
            final(self)@ == old(self)@.drop_elems(t.addr(), old(self)@.elems(t.addr()).len()),
            final(self)@.holds(owner, t.addr()),
            final(self)@.dropped_from(old(self)@, t.addr()),
        decreases t.addr(), 0int,
    {
        let ghost before = self@;
        let addr: u64 = t.as_type_ptr();
        proof {
            before.lemma_holds_live(owner, addr);
            before.lemma_drop_elems_wf(addr, owner, before.elems(addr).len());
        }
        while self.kept_count(t) > 0
            invariant
                self.wf(),
                addr == t.addr(),
                self@.holds(owner, addr),
                self@.retain_count(addr) == 1,
                self@.drop_elems(addr, self@.elems(addr).len()) == before.drop_elems(
                    addr,
                    before.elems(addr).len(),
                ),
            decreases self@.elems(addr).len(),
        {
            let ghost cur = self@;
            proof {
                cur.lemma_holds_live(owner, addr);
                cur.lemma_unkeep_wf(addr);
                cur.lemma_elem_live(addr, cur.elems(addr).len() - 1);
                assert(cur.elem_wf(addr, cur.elems(addr).len() - 1));
            }
            let kept = self.unkeep(t);
            let ghost mid = self@;
            proof {
                assert(cur.keeper.contains_key(kept.owner@));
                assert(mid.holds(owner, addr)) by {
                    assert(cur.holder.contains_pair(owner, addr));
                }
            }
            let elem = Type::at(kept.addr);
            proof {
                assert(mid.slot(kept.addr) == cur.slot(kept.addr));
            }
            if self.is_array(t) {
                self.release(&elem, kept.owner);
            } else {
                proof {
                    mid.lemma_release_one_wf(kept.addr, kept.owner@);
                    mid.lemma_holds_live(kept.owner@, kept.addr);
                }
                self.release_one(&elem, kept.owner);
            }
            proof {
                assert(self@.slot(addr) == mid.slot(addr));
                assert(self@.holds(owner, addr)) by {
                    assert(mid.holder.contains_pair(owner, addr));
                }
                assert(self@.elems(addr) == cur.elems(addr).drop_last());
            }
        }
    }

    /// The number of objects that the object behind `t` keeps.
    fn kept_count(&self, t: &Type) -> (n: usize)
        requires
            self@.has(t.addr()),
        ensures
            n == self@.elems(t.addr()).len(),
    {
        let i: usize = self.slot_index(t.as_type_ptr());
        match &self.objects[i].payload {
            Payload::Array(list) => list.len(),
            Payload::SampleBuf(buf) => buf.kept().len(),
            _ => 0,
        }
    }

    /// Whether the object behind `t` is an array.
    fn is_array(&self, t: &Type) -> (yes: bool)
        requires
            self@.has(t.addr()),
        ensures
            yes == (self@.state(t.addr()) is Array),
    {
        let i: usize = self.slot_index(t.as_type_ptr());
        match &self.objects[i].payload {
            Payload::Array(_) => true,
            _ => false,
        }
    }

    /// Takes the last thing that the object behind `t` keeps from it, with the
    /// reference that kept it.
    fn unkeep(&mut self, t: &Type) -> (kept: Kept)
        requires
            old(self)@.has(t.addr()),
            old(self)@.elems(t.addr()).len() > 0,
        ensures
            final(self)@ == old(self)@.unkeep(t.addr()),
            kept@ == old(self)@.elems(t.addr()).last(),
    {
        let ghost before = self@;
        let addr: u64 = t.as_type_ptr();
        let i: usize = self.slot_index(addr);
        let kept = match &mut self.objects[i].payload {
            Payload::Array(list) => {
                let ghost items = list@;
                let last = list.pop();
                assert(elems_of(list@) =~= elems_of(items).drop_last());
                match last {
                    Some(kept) => kept,
                    None => unreached(),
                }
            },
            Payload::SampleBuf(buf) => {
                let list = buf.kept_mut();
                let ghost items = list@;
                let last = list.pop();
                assert(elems_of(list@) =~= elems_of(items).drop_last());
                match last {
                    Some(kept) => kept,
                    None => unreached(),
                }
            },
            _ => unreached(),
        };
        proof {
            self.keeper@ = self.keeper@.remove(kept.owner@);
            assert(self@.slots =~= before.unkeep(addr).slots);
        }
        kept
    }

    /// Has the object behind `array` take the object behind `elem` as the next
    /// thing that it keeps, with a count of its own.
    pub(crate) fn keep(&mut self, array: &Type, elem: &Type)
        requires
            old(self).wf(),
            old(self)@.can_keep(array.addr(), elem.addr()),
            old(self)@.retain_count(elem.addr()) < u64::MAX,
        ensures
            final(self).wf(),
            final(self)@ == old(self)@.keep(array.addr(), elem.addr()),
            final(self)@.type_id(array.addr()) == old(self)@.type_id(array.addr()),
            forall|o: nat, a: u64|
                #![trigger old(self)@.holder.contains_pair(o, a)]
                old(self)@.holds(o, a) ==> final(self)@.holds(o, a),
    {
        let ghost before = self@;
        let ghost owner = self.next_owner@;
        let ghost place = before.elems(array.addr()).len() as int;
        let to: u64 = array.as_type_ptr();
        let addr: u64 = elem.as_type_ptr();
        let j: usize = self.slot_index(addr);
        let ghost owners = self.objects@[j as int].owners@;
        self.objects[j].count = self.objects[j].count + 1;
        self.objects[j].owners = Ghost(owners.insert(owner));
        let i: usize = self.slot_index(to);
        proof {
            before.lemma_keep_wf(to, addr);
        }
        match &mut self.objects[i].payload {
            Payload::Array(list) => {
                let ghost items = list@;
                list.push(Kept { addr, owner: Ghost(owner) });
                assert(elems_of(list@) =~= elems_of(items).push(Elem { addr, owner }));
            },
            Payload::SampleBuf(buf) => {
                let list = buf.kept_mut();
                let ghost items = list@;
                list.push(Kept { addr, owner: Ghost(owner) });
                assert(elems_of(list@) =~= elems_of(items).push(Elem { addr, owner }));
            },
            _ => unreached(),
        }
        proof {
            self.holder@ = self.holder@.insert(owner, addr);
            self.keeper@ = self.keeper@.insert(owner, (to, place));
            self.next_owner@ = owner + 1;
            self.log@ = self.log@.push(Event { call: Call::Retain, owner, addr });
            assert(self@.slots =~= before.keep(to, addr).slots);
            before.lemma_keep_wf(to, addr);
        }
    }

    /// Gives back the count that `owner` accounts for on an object that keeps
    /// nothing or has counts to spare.
    fn release_one(&mut self, t: &Type, Ghost(owner): Ghost<nat>)
        requires
            old(self).wf(),
            old(self)@.holds(owner, t.addr()),
            old(self)@.retain_count(t.addr()) == 1 ==> old(self)@.elems(t.addr()).len() == 0,
        ensures
            final(self)@ == old(self)@.release_one(t.addr(), owner),
    {
        let ghost before = self@;
        let addr: u64 = t.as_type_ptr();
        proof {
            before.lemma_holds_live(owner, addr);
        }
        let i: usize = self.slot_index(addr);
        let ghost owners = self.objects@[i as int].owners@;
        let count: u64 = self.objects[i].count;
        self.objects[i].count = count - 1;
        if count == 1 {
            self.objects[i].payload = Payload::Freed;
        }
        self.objects[i].owners = Ghost(owners.remove(owner));
        proof {
            self.holder@ = self.holder@.remove(owner);
            self.log@ = self.log@.push(Event { call: Call::Release, owner, addr });
            assert(self@.slots =~= before.release_one(addr, owner).slots);
        }
    }

    /// What the object behind `t` holds.
    pub(crate) fn payload(&self, t: &Type) -> (p: &Payload)
        requires
            self@.has(t.addr()),
        ensures
            p@ == self@.state(t.addr()),
    {
        let addr: u64 = t.as_type_ptr();
        let i: usize = self.slot_index(addr);
        &self.objects[i].payload
    }

    /// What the object behind `t` holds, for the caller to change. The caller
    /// keeps the payload of the same kind: the type of an object never
    /// changes.
    pub(crate) fn payload_mut(&mut self, t: &Type) -> (p: &mut Payload)
        requires
            old(self)@.has(t.addr()),
        ensures
            p@ == old(self)@.state(t.addr()),
            final(self)@.slots =~= old(self)@.put(t.addr(), final(p)@).slots,
            final(self)@.holder == old(self)@.holder,
            final(self)@.keeper == old(self)@.keeper,
            final(self)@.next_owner == old(self)@.next_owner,
            final(self)@.log == old(self)@.log,
            final(self)@ == old(self)@.put(t.addr(), final(p)@),
    {
        let addr: u64 = t.as_type_ptr();
        let i: usize = self.slot_index(addr);
        &mut self.objects[i].payload
    }
}


} // verus!
