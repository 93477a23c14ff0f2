//! The runtime as contracts see it: the table, the ledger, and the steps that
//! change them.
use crate::cf::runtime::TypeId;
use crate::cf::runtime::NOT_A_TYPE_ID;
use crate::cf::runtime::TAGGED_BASE;
use crate::foreign::payload::Elem;
use crate::foreign::payload::State;
use vstd::prelude::*;

verus! {

/// The calls that change a retain count.
pub enum Call {
    /// A creation call: the object appears with one count, which the caller owns.
    Create,
    /// One more count on an object that is there.
    Retain,
    /// One count fewer.
    Release,
}

/// One call that the runtime has seen, with the owned reference it was made for.
pub struct Event {
    pub call: Call,
    pub owner: nat,
    pub addr: u64,
}

/// How many releases `log` shows for the owned reference `owner`.
pub open spec fn releases(log: Seq<Event>, owner: nat) -> nat
    decreases log.len(),
{
    if log.len() == 0 {
        0
    } else {
        let before = releases(log.drop_last(), owner);
        if log.last().call is Release && log.last().owner == owner {
            before + 1
        } else {
            before
        }
    }
}

/// How many counts `log` shows as taken on the object at `addr`, by creation
/// or by retain.
pub open spec fn acquisitions_at(log: Seq<Event>, addr: u64) -> nat
    decreases log.len(),
{
    if log.len() == 0 {
        0
    } else {
        let before = acquisitions_at(log.drop_last(), addr);
        if !(log.last().call is Release) && log.last().addr == addr {
            before + 1
        } else {
            before
        }
    }
}

/// How many counts `log` shows as given back on the object at `addr`.
pub open spec fn releases_at(log: Seq<Event>, addr: u64) -> nat
    decreases log.len(),
{
    if log.len() == 0 {
        0
    } else {
        let before = releases_at(log.drop_last(), addr);
        if log.last().call is Release && log.last().addr == addr {
            before + 1
        } else {
            before
        }
    }
}

/// What one more event adds to the three tallies of a log.
pub proof fn lemma_log_push(log: Seq<Event>, e: Event)
    ensures
        forall|o: nat| #[trigger]
            releases(log.push(e), o) == releases(log, o) + if e.call is Release && e.owner == o {
                1nat
            } else {
                0nat
            },
        forall|a: u64| #[trigger]
            releases_at(log.push(e), a) == releases_at(log, a) + if e.call is Release && e.addr
                == a {
                1nat
            } else {
                0nat
            },
        forall|a: u64| #[trigger]
            acquisitions_at(log.push(e), a) == acquisitions_at(log, a) + if !(e.call is Release)
                && e.addr == a {
                1nat
            } else {
                0nat
            },
{
    assert(log.push(e).drop_last() =~= log);
    assert(log.push(e).last() == e);
}

/// One entry of the object table.
pub struct Slot {
    /// The retain count; zero once the object is gone.
    pub count: nat,
    /// The owned references that each account for one of the counts.
    pub owners: Set<nat>,
    pub state: State,
}

/// The runtime as contracts see it.
///
/// Addresses start at one and are never used twice: the object at address `a`
/// is entry `a - 1` of `slots`, for good.
pub struct Heap {
    pub slots: Seq<Slot>,
    /// For each owned reference that has not been released, the address of its
    /// object.
    pub holder: Map<nat, u64>,
    /// For each owned reference through which an object keeps another, the
    /// address of the object that keeps and the place of what is kept among
    /// the things that it keeps.
    pub keeper: Map<nat, (u64, int)>,
    /// The number that the next owned reference will get.
    pub next_owner: nat,
    /// Every count-changing call so far, oldest first.
    pub log: Seq<Event>,
}

/// One step of the runtime.
pub enum Step {
    /// A creation call that makes an object in the given state.
    Create(State),
    /// A retain of the object at the given address.
    Retain(u64),
    /// A release of the object at the given address by the given reference.
    Release(u64, nat),
    /// A change of state of the object at the given address.
    Put(u64, State),
    /// The object at the first address takes the object at the second as the
    /// next thing that it keeps.
    Keep(u64, u64),
}

impl Heap {
    /// The runtime before anything was created.
    pub open spec fn empty() -> Heap {
        Heap {
            slots: Seq::empty(),
            holder: Map::empty(),
            keeper: Map::empty(),
            next_owner: 0,
            log: Seq::empty(),
        }
    }

    /// Whether an object was ever created at `addr`.
    pub open spec fn has(self, addr: u64) -> bool {
        1 <= addr <= self.slots.len()
    }

    pub open spec fn slot(self, addr: u64) -> Slot {
        self.slots[addr - 1]
    }

    /// Whether the object at `addr` is there: created and not yet gone.
    pub open spec fn live(self, addr: u64) -> bool {
        self.has(addr) && self.slot(addr).count > 0
    }

    /// The retain count of the object at `addr`; zero where there is none.
    pub open spec fn retain_count(self, addr: u64) -> nat {
        if self.has(addr) {
            self.slot(addr).count
        } else {
            0
        }
    }

    /// The state of the object at `addr`.
    pub open spec fn state(self, addr: u64) -> State {
        if self.has(addr) {
            self.slot(addr).state
        } else {
            State::Freed
        }
    }

    /// The type tag of the object at `addr`.
    pub open spec fn type_id(self, addr: u64) -> TypeId {
        self.state(addr).type_id()
    }

    /// The objects that the object at `addr` keeps.
    pub open spec fn elems(self, addr: u64) -> Seq<Elem> {
        self.state(addr).elems()
    }

    /// Whether `owner` is an owned reference that some code holds, as
    /// opposed to an object that keeps another, and accounts for a count of
    /// the object at `addr`.
    pub open spec fn holds(self, owner: nat, addr: u64) -> bool {
        self.holder.contains_pair(owner, addr) && !self.keeper.contains_key(owner)
    }

    /// Whether the owned reference `owner` was handed out and not yet released.
    pub open spec fn outstanding(self, owner: nat) -> bool {
        self.holder.contains_key(owner)
    }

    /// Whether the owned reference `owner` was ever handed out.
    pub open spec fn issued(self, owner: nat) -> bool {
        owner < self.next_owner
    }

    /// The address that the next object will get.
    pub open spec fn next_addr(self) -> u64 {
        (self.slots.len() + 1) as u64
    }

    /// Whether the table has an address left for one more object.
    pub open spec fn has_room(self) -> bool {
        self.slots.len() + 1 < TAGGED_BASE
    }

    pub open spec fn slot_wf(self, addr: u64) -> bool {
        let s = self.slot(addr);
        &&& s.owners.finite()
        &&& s.owners.len() == s.count
        &&& (s.count == 0 <==> s.state is Freed)
        &&& s.state.wf()
    }

    /// The reference `owner`, through which an object keeps another, belongs
    /// to one of the things that the object keeps.
    pub open spec fn kept_wf(self, owner: nat) -> bool {
        let at = self.keeper[owner];
        &&& self.has(at.0)
        &&& 0 <= at.1 < self.elems(at.0).len()
        &&& self.elems(at.0)[at.1].owner == owner
    }

    /// Whether the object at `keeper` may keep the object at `elem`: an array
    /// keeps what is older than it, a sample buffer keeps a block, and nothing
    /// else keeps anything.
    pub open spec fn may_keep(self, keeper: u64, elem: u64) -> bool {
        match self.state(keeper) {
            State::Array(_) => elem < keeper,
            State::SampleBuf(_) => self.state(elem) is BlockBuf,
            _ => false,
        }
    }

    /// Whether the object at `keeper` can take the object at `elem` as the
    /// next thing that it keeps: both are there, `keeper` may keep `elem`, and
    /// a sample buffer keeps nothing yet.
    pub open spec fn can_keep(self, keeper: u64, elem: u64) -> bool {
        &&& self.live(keeper)
        &&& self.live(elem)
        &&& self.may_keep(keeper, elem)
        &&& (self.state(keeper) is SampleBuf ==> self.elems(keeper).len() == 0)
    }

    /// Element `i` of what the object at `addr` keeps is kept there by the
    /// object's own reference to it, and is something that the object may
    /// keep.
    pub open spec fn elem_wf(self, addr: u64, i: int) -> bool {
        let e = self.elems(addr)[i];
        &&& self.keeper.contains_pair(e.owner, (addr, i))
        &&& self.holder.contains_pair(e.owner, e.addr)
        &&& self.may_keep(addr, e.addr)
    }

    /// The part of the invariant that speaks of counts, references and the
    /// log.
    pub open spec fn ledger_wf(self) -> bool {
        &&& self.slots.len() < TAGGED_BASE
        &&& forall|a: u64| #![trigger self.slot(a)] self.has(a) ==> self.slot_wf(a)
        &&& forall|o: nat| #[trigger]
            self.holder.contains_key(o) ==> o < self.next_owner && self.has(self.holder[o])
        &&& forall|o: nat, a: u64|
            #![trigger self.slot(a).owners.contains(o)]
            #![trigger self.holder.contains_pair(o, a)]
            self.has(a) ==> (self.slot(a).owners.contains(o) <==> self.holder.contains_pair(o, a))
        &&& forall|o: nat| #[trigger]
            releases(self.log, o) == if self.issued(o) && !self.outstanding(o) {
                1nat
            } else {
                0nat
            }
        &&& forall|a: u64| #[trigger]
            acquisitions_at(self.log, a) == self.retain_count(a) + releases_at(self.log, a)
    }

    /// The part of the invariant that speaks of what objects keep.
    pub open spec fn keeping_wf(self) -> bool {
        &&& forall|o: nat| #[trigger] self.keeper.contains_key(o) ==> self.kept_wf(o)
        &&& forall|a: u64, i: int|
            #![trigger self.elems(a)[i]]
            self.has(a) && 0 <= i < self.elems(a).len() ==> self.elem_wf(a, i)
    }

    /// The invariant of the runtime: every count is accounted for by exactly
    /// one outstanding owned reference, everything that an object keeps is
    /// kept by a reference of that object, and the log agrees with the ledger.
    pub open spec fn wf(self) -> bool {
        self.ledger_wf() && self.keeping_wf()
    }

    /// The runtime after a creation call that made an object in `state`.
    pub open spec fn create(self, state: State) -> Heap {
        let owner = self.next_owner;
        let addr = self.next_addr();
        Heap {
            slots: self.slots.push(Slot { count: 1, owners: set![owner], state }),
            holder: self.holder.insert(owner, addr),
            keeper: self.keeper,
            next_owner: owner + 1,
            log: self.log.push(Event { call: Call::Create, owner, addr }),
        }
    }

    /// The runtime after one more count was taken on the object at `addr`.
    pub open spec fn retain(self, addr: u64) -> Heap {
        let owner = self.next_owner;
        let s = self.slot(addr);
        Heap {
            slots: self.slots.update(
                addr - 1,
                Slot { count: s.count + 1, owners: s.owners.insert(owner), state: s.state },
            ),
            holder: self.holder.insert(owner, addr),
            keeper: self.keeper,
            next_owner: owner + 1,
            log: self.log.push(Event { call: Call::Retain, owner, addr }),
        }
    }

    /// The runtime after the object at `array` took the object at `elem` as
    /// the next thing that it keeps: it takes a count of its own on the object.
    pub open spec fn keep(self, array: u64, elem: u64) -> Heap {
        let owner = self.next_owner;
        let taken = self.retain(elem);
        Heap {
            slots: taken.slots.update(
                array - 1,
                Slot {
                    state: self.state(array).with_elems(
                        self.elems(array).push(Elem { addr: elem, owner }),
                    ),
                    ..taken.slot(array)
                },
            ),
            keeper: self.keeper.insert(owner, (array, self.elems(array).len() as int)),
            ..taken
        }
    }

    /// The runtime after the object at `array` let go of the last thing that
    /// it keeps without giving the count back yet: the reference is no longer
    /// the object's.
    pub open spec fn unkeep(self, array: u64) -> Heap {
        let last = self.elems(array).last();
        Heap {
            slots: self.slots.update(
                array - 1,
                Slot {
                    state: self.state(array).with_elems(self.elems(array).drop_last()),
                    ..self.slot(array)
                },
            ),
            keeper: self.keeper.remove(last.owner),
            ..self
        }
    }

    /// The runtime after `owner` gave back its count on the object at `addr`,
    /// where the object keeps nothing. With the last count the object goes.
    pub open spec fn release_one(self, addr: u64, owner: nat) -> Heap {
        let s = self.slot(addr);
        Heap {
            slots: self.slots.update(
                addr - 1,
                Slot {
                    count: (s.count - 1) as nat,
                    owners: s.owners.remove(owner),
                    state: if s.count == 1 {
                        State::Freed
                    } else {
                        s.state
                    },
                },
            ),
            holder: self.holder.remove(owner),
            keeper: self.keeper,
            next_owner: self.next_owner,
            log: self.log.push(Event { call: Call::Release, owner, addr }),
        }
    }

    /// The runtime after `owner` gave back its count on the object at `addr`.
    /// With its last count the object goes, and before it goes it gives back
    /// the counts that it kept, the last one first.
    pub open spec fn release(self, addr: u64, owner: nat) -> Heap
        decreases addr, self.elems(addr).len() + 1,
    {
        if self.retain_count(addr) == 1 {
            self.drop_elems(addr, self.elems(addr).len()).release_one(addr, owner)
        } else {
            self.release_one(addr, owner)
        }
    }

    /// The runtime after the object at `addr` gave back the counts of the last
    /// `n` things that it keeps, the last one first. What an array gives back
    /// may go in turn, with all that it keeps; what a sample buffer gives back
    /// is a block, which keeps nothing.
    pub open spec fn drop_elems(self, addr: u64, n: nat) -> Heap
        decreases addr, n,
    {
        if n == 0 || self.elems(addr).len() == 0 {
            self
        } else {
            let last = self.elems(addr).last();
            if !(self.state(addr) is Array) {
                self.unkeep(addr).release_one(last.addr, last.owner).drop_elems(
                    addr,
                    (n - 1) as nat,
                )
            } else if last.addr < addr {
                self.unkeep(addr).release(last.addr, last.owner).drop_elems(addr, (n - 1) as nat)
            } else {
                self
            }
        }
    }

    /// The runtime after the object at `addr` changed its state to `state`.
    pub open spec fn put(self, addr: u64, state: State) -> Heap {
        Heap {
            slots: self.slots.update(addr - 1, Slot { state, ..self.slot(addr) }),
            ..self
        }
    }

    /// What a release leaves alone: no object appears, no reference appears or
    /// comes back, every held reference but the released one is held as
    /// before, every object that is still there is in the state it was in, and
    /// arrays with an address above `addr` are not touched at all.
    pub open spec fn released_from(self, before: Heap, addr: u64, owner: nat) -> bool {
        &&& self.slots.len() == before.slots.len()
        &&& self.next_owner == before.next_owner
        &&& forall|o: nat| #[trigger]
            self.holder.contains_key(o) ==> before.holder.contains_key(o)
        &&& forall|o: nat, a: u64|
            #![trigger before.holder.contains_pair(o, a)]
            before.holds(o, a) && o != owner ==> self.holds(o, a)
        &&& forall|a: u64|
            #![trigger self.slot(a)]
            self.live(a) ==> before.live(a) && self.state(a) == before.state(a)
        &&& forall|a: u64|
            #![trigger self.slot(a)]
            before.has(a) && a > addr && before.state(a) is Array ==> self.slot(a) == before.slot(
                a,
            )
    }

    /// What an object that gives back all that it keeps leaves alone: every
    /// held reference, every other object that is still there, and of the
    /// object itself its count and its references.
    pub open spec fn dropped_from(self, before: Heap, addr: u64) -> bool {
        &&& self.slots.len() == before.slots.len()
        &&& self.next_owner == before.next_owner
        &&& forall|o: nat| #[trigger]
            self.holder.contains_key(o) ==> before.holder.contains_key(o)
        &&& forall|o: nat, a: u64|
            #![trigger before.holder.contains_pair(o, a)]
            before.holds(o, a) ==> self.holds(o, a)
        &&& forall|a: u64|
            #![trigger self.slot(a)]
            self.live(a) && a != addr ==> before.live(a) && self.state(a) == before.state(a)
        &&& forall|a: u64|
            #![trigger self.slot(a)]
            before.has(a) && a > addr && before.state(a) is Array ==> self.slot(a) == before.slot(
                a,
            )
        &&& self.slot(addr).count == before.slot(addr).count
        &&& self.slot(addr).owners == before.slot(addr).owners
        &&& self.elems(addr).len() == 0
    }
}

impl Heap {
    /// An outstanding owned reference keeps its object there.
    pub proof fn lemma_holds_live(self, owner: nat, addr: u64)
        requires
            self.wf(),
            self.holder.contains_pair(owner, addr),
        ensures
            self.live(addr),
            self.issued(owner),
            self.outstanding(owner),
    {
        assert(self.holder.contains_key(owner));
        assert(self.has(addr));
        let s = self.slot(addr);
        assert(s.owners.contains(owner));
        assert(self.slot_wf(addr));
        assert(s.owners.remove(owner).len() + 1 == s.owners.len());
    }

    /// No object of the table has an address in the range of the immediate
    /// values.
    pub proof fn lemma_objects_are_not_tagged(self, addr: u64)
        requires
            self.wf(),
            self.has(addr),
        ensures
            addr < TAGGED_BASE,
    {
    }

    /// An address with a type tag has a live object: what is gone has no type.
    pub proof fn lemma_typed_live(self, addr: u64)
        requires
            self.wf(),
        ensures
            self.live(addr) <==> self.type_id(addr) != NOT_A_TYPE_ID,
    {
        if self.has(addr) {
            assert(self.slot_wf(addr));
        }
    }

    /// An object that keeps something is there, and what it keeps is there
    /// too, and older than it.
    pub proof fn lemma_elem_live(self, addr: u64, i: int)
        requires
            self.wf(),
            0 <= i < self.elems(addr).len(),
        ensures
            self.live(addr),
            self.live(self.elems(addr)[i].addr),
            self.may_keep(addr, self.elems(addr)[i].addr),
            self.elems(addr)[i].addr != addr,
    {
        assert(self.has(addr));
        assert(self.slot_wf(addr));
        assert(self.elem_wf(addr, i));
        let e = self.elems(addr)[i];
        self.lemma_holds_live(e.owner, e.addr);
    }

    pub proof fn lemma_empty_wf()
        ensures
            Heap::empty().wf(),
    {
        let h = Heap::empty();
        assert forall|o: nat| #[trigger] releases(h.log, o) == 0 by {}
        assert forall|a: u64|
            #[trigger] acquisitions_at(h.log, a) == h.retain_count(a) + releases_at(h.log, a) by {}
    }

    /// A step that leaves every count, every reference and the log alone, and
    /// every state in order, leaves the ledger in order.
    proof fn lemma_ledger_carried(self, after: Heap)
        requires
            self.ledger_wf(),
            after.holder == self.holder,
            after.log == self.log,
            after.next_owner == self.next_owner,
            after.slots.len() == self.slots.len(),
            forall|a: u64|
                #![trigger after.slot(a)]
                self.has(a) ==> {
                    &&& after.slot(a).count == self.slot(a).count
                    &&& after.slot(a).owners == self.slot(a).owners
                    &&& (after.slot(a).state is Freed <==> self.slot(a).state is Freed)
                    &&& after.slot(a).state.wf()
                },
        ensures
            after.ledger_wf(),
    {
        assert forall|a: u64| #![trigger after.slot(a)] after.has(a) implies after.slot_wf(a) by {
            assert(self.has(a));
            assert(self.slot_wf(a));
        }
        assert forall|o: nat| #[trigger] after.holder.contains_key(o) implies o < after.next_owner
            && after.has(after.holder[o]) by {
            assert(self.holder.contains_key(o));
        }
        assert forall|o: nat, a: u64|
            #![trigger after.slot(a).owners.contains(o)]
            #![trigger after.holder.contains_pair(o, a)]
            after.has(a) implies (after.slot(a).owners.contains(o) <==> after.holder.contains_pair(
            o,
            a,
        )) by {
            assert(self.has(a));
            assert(self.slot(a).owners.contains(o) <==> self.holder.contains_pair(o, a));
        }
        assert forall|a: u64| #[trigger]
            acquisitions_at(after.log, a) == after.retain_count(a) + releases_at(after.log, a) by {
            assert(acquisitions_at(self.log, a) == self.retain_count(a) + releases_at(self.log, a));
            if after.has(a) {
                assert(after.slot(a).count == self.slot(a).count);
            }
        }
    }

    /// No object keeps the reference that will be handed out next.
    proof fn lemma_next_owner_is_new(self)
        requires
            self.wf(),
        ensures
            !self.holder.contains_key(self.next_owner),
            !self.keeper.contains_key(self.next_owner),
    {
        if self.keeper.contains_key(self.next_owner) {
            assert(self.kept_wf(self.next_owner));
            let at = self.keeper[self.next_owner];
            assert(self.elem_wf(at.0, at.1));
        }
    }

    /// No object keeps a count on the object at `addr` where `addr` is no
    /// address of an object, or where the object there has one count and a
    /// held reference accounts for it.
    proof fn lemma_kept_targets(self, addr: u64)
        requires
            self.wf(),
            !self.has(addr) || (self.retain_count(addr) == 1 && exists|o: nat|
                self.holds(o, addr)),
        ensures
            forall|o: nat| #[trigger] self.keeper.contains_key(o) ==> self.holder[o] != addr,
    {
        assert forall|o: nat| #[trigger] self.keeper.contains_key(o) implies self.holder[o]
            != addr by {
            assert(self.kept_wf(o));
            let at = self.keeper[o];
            assert(self.elem_wf(at.0, at.1));
            assert(self.holder.contains_pair(o, self.holder[o]));
            if self.holder[o] == addr {
                let by = choose|by: nat| self.holds(by, addr);
                assert(self.holder.contains_pair(by, addr));
                assert(self.slot_wf(addr));
                let owners = self.slot(addr).owners;
                assert(owners.contains(o) && owners.contains(by) && o != by);
                assert(owners.remove(o).remove(by).len() + 2 == owners.len());
            }
        }
    }

    /// A step that leaves every object with what it keeps and every kept
    /// reference in place leaves what objects keep in order.
    ///
    /// The step may take the reference `gone`, which no object keeps, out of
    /// the ledger, and may change the type of the object at `freed`, which no
    /// object keeps either; everything else it leaves with its holder and its
    /// type.
    proof fn lemma_keeping_unchanged(self, after: Heap, gone: nat, freed: u64)
        requires
            self.wf(),
            after.keeper == self.keeper,
            after.slots.len() >= self.slots.len(),
            !self.keeper.contains_key(gone),
            self.elems(freed).len() == 0,
            forall|o: nat| #[trigger] self.keeper.contains_key(o) ==> self.holder[o] != freed,
            forall|a: u64| #![trigger after.slot(a)] self.has(a) ==> after.elems(a) == self.elems(a),
            forall|a: u64|
                #![trigger after.slot(a)]
                self.has(a) && a != freed ==> after.state(a).type_id() == self.state(a).type_id(),
            forall|a: u64|
                #![trigger after.slot(a)]
                after.has(a) && !self.has(a) ==> after.elems(a).len() == 0,
            forall|o: nat|
                self.holder.contains_key(o) && o != gone ==> #[trigger] after.holder.contains_pair(
                    o,
                    self.holder[o],
                ),
        ensures
            after.keeping_wf(),
    {
        assert forall|o: nat| #[trigger] after.keeper.contains_key(o) implies after.kept_wf(o) by {
            assert(self.keeper.contains_key(o));
            assert(self.kept_wf(o));
            let at = self.keeper[o];
            assert(after.slot(at.0) == after.slot(at.0));
        }
        assert forall|a: u64, i: int|
            #![trigger after.elems(a)[i]]
            after.has(a) && 0 <= i < after.elems(a).len() implies after.elem_wf(a, i) by {
            assert(after.slot(a) == after.slot(a));
            assert(self.has(a));
            assert(self.elem_wf(a, i));
            let e = self.elems(a)[i];
            assert(self.keeper.contains_key(e.owner));
            assert(self.holder.contains_key(e.owner));
            assert(after.holder.contains_pair(e.owner, self.holder[e.owner]));
            assert(self.has(e.addr));
            assert(after.slot(e.addr) == after.slot(e.addr));
            assert(e.addr != freed);
        }
    }

    /// A creation call keeps the runtime in order.
    pub proof fn lemma_create_wf(self, state: State)
        requires
            self.wf(),
            self.has_room(),
            !(state is Freed),
            state.wf(),
            state.elems().len() == 0,
        ensures
            self.create(state).wf(),
            self.create(state).holds(self.next_owner, self.next_addr()),
            self.create(state).live(self.next_addr()),
            !self.has(self.next_addr()),
    {
        let h = self.create(state);
        let owner = self.next_owner;
        let addr = self.next_addr();
        lemma_log_push(self.log, Event { call: Call::Create, owner, addr });
        self.lemma_next_owner_is_new();
        assert forall|a: u64| #![trigger h.slot(a)] h.has(a) implies h.slot_wf(a) by {
            if a == addr {
                assert(h.slot(a).owners =~= set![owner]);
            } else {
                assert(self.has(a));
                assert(h.slot(a) == self.slot(a));
                assert(self.slot_wf(a));
            }
        }
        assert forall|o: nat| #[trigger] h.holder.contains_key(o) implies o < h.next_owner
            && h.has(h.holder[o]) by {
            if o != owner {
                assert(self.holder.contains_key(o));
            }
        }
        assert forall|o: nat, a: u64|
            #![trigger h.slot(a).owners.contains(o)]
            #![trigger h.holder.contains_pair(o, a)]
            h.has(a) implies (h.slot(a).owners.contains(o) <==> h.holder.contains_pair(o, a)) by {
            if a == addr {
                if self.holder.contains_pair(o, a) {
                    assert(self.holder.contains_key(o));
                }
            } else {
                assert(h.slot(a) == self.slot(a));
                assert(self.slot(a).owners.contains(o) <==> self.holder.contains_pair(o, a));
            }
        }
        assert forall|o: nat| #[trigger]
            releases(h.log, o) == if h.issued(o) && !h.outstanding(o) {
                1nat
            } else {
                0nat
            } by {
            assert(releases(self.log, o) == if self.issued(o) && !self.outstanding(o) {
                1nat
            } else {
                0nat
            });
            if self.holder.contains_key(o) {
                assert(o < self.next_owner);
            }
        }
        assert forall|a: u64| #[trigger]
            acquisitions_at(h.log, a) == h.retain_count(a) + releases_at(h.log, a) by {
            assert(acquisitions_at(self.log, a) == self.retain_count(a) + releases_at(self.log, a));
        }
        self.lemma_kept_targets(0);
        self.lemma_keeping_unchanged(h, owner, 0);
    }

    /// A retain keeps the runtime in order.
    pub proof fn lemma_retain_wf(self, addr: u64)
        requires
            self.wf(),
            self.live(addr),
        ensures
            self.retain(addr).wf(),
            self.retain(addr).holds(self.next_owner, addr),
    {
        let h = self.retain(addr);
        self.lemma_retain_ledger(addr);
        self.lemma_kept_targets(0);
        self.lemma_keeping_unchanged(h, self.next_owner, 0);
    }

    /// A retain keeps the counts, the references and the log in order, and
    /// its reference is a new one.
    proof fn lemma_retain_ledger(self, addr: u64)
        requires
            self.wf(),
            self.live(addr),
        ensures
            self.retain(addr).ledger_wf(),
            !self.holder.contains_key(self.next_owner),
            !self.keeper.contains_key(self.next_owner),
    {
        let h = self.retain(addr);
        let owner = self.next_owner;
        lemma_log_push(self.log, Event { call: Call::Retain, owner, addr });
        self.lemma_next_owner_is_new();
        assert(self.slot_wf(addr));
        assert(!self.slot(addr).owners.contains(owner)) by {
            if self.slot(addr).owners.contains(owner) {
                assert(self.holder.contains_pair(owner, addr));
            }
        }
        assert forall|a: u64| #![trigger h.slot(a)] h.has(a) implies h.slot_wf(a) by {
            assert(self.has(a));
            assert(self.slot_wf(a));
        }
        assert forall|o: nat| #[trigger] h.holder.contains_key(o) implies o < h.next_owner
            && h.has(h.holder[o]) by {
            if o != owner {
                assert(self.holder.contains_key(o));
            }
        }
        assert forall|o: nat, a: u64|
            #![trigger h.slot(a).owners.contains(o)]
            #![trigger h.holder.contains_pair(o, a)]
            h.has(a) implies (h.slot(a).owners.contains(o) <==> h.holder.contains_pair(o, a)) by {
            assert(self.has(a));
            assert(self.slot(a).owners.contains(o) <==> self.holder.contains_pair(o, a));
        }
        assert forall|o: nat| #[trigger]
            releases(h.log, o) == if h.issued(o) && !h.outstanding(o) {
                1nat
            } else {
                0nat
            } by {
            assert(releases(self.log, o) == if self.issued(o) && !self.outstanding(o) {
                1nat
            } else {
                0nat
            });
            if self.holder.contains_key(o) {
                assert(o < self.next_owner);
            }
        }
        assert forall|a: u64| #[trigger]
            acquisitions_at(h.log, a) == h.retain_count(a) + releases_at(h.log, a) by {
            assert(acquisitions_at(self.log, a) == self.retain_count(a) + releases_at(self.log, a));
        }
    }

    /// A change of state of a live object that leaves the object its type and
    /// what it keeps leaves the runtime in order.
    pub proof fn lemma_put_wf(self, addr: u64, state: State)
        requires
            self.wf(),
            self.live(addr),
            state.type_id() == self.type_id(addr),
            state.wf(),
            state.elems() == self.elems(addr),
        ensures
            self.put(addr, state).wf(),
    {
        let h = self.put(addr, state);
        self.lemma_typed_live(addr);
        assert forall|a: u64| #![trigger h.slot(a)] self.has(a) implies h.slot(a).state.wf() by {
            assert(self.slot_wf(a));
        }
        self.lemma_ledger_carried(h);
        self.lemma_kept_targets(0);
        self.lemma_next_owner_is_new();
        self.lemma_keeping_unchanged(h, self.next_owner, 0);
    }

    /// Of two changes of state of one object, the second one stands.
    pub proof fn lemma_put_put(self, addr: u64, first: State, second: State)
        requires
            self.has(addr),
        ensures
            self.put(addr, first).put(addr, second) == self.put(addr, second),
    {
        assert(self.put(addr, first).put(addr, second).slots =~= self.put(addr, second).slots);
    }

    /// A change of state to the state that is there changes nothing.
    pub proof fn lemma_put_same(self, addr: u64)
        requires
            self.has(addr),
        ensures
            self.put(addr, self.state(addr)) == self,
    {
        assert(self.put(addr, self.state(addr)).slots =~= self.slots);
    }

    /// A release by a held reference of an object that keeps nothing, or
    /// that has counts to spare, keeps the runtime in order.
    pub proof fn lemma_release_one_wf(self, addr: u64, owner: nat)
        requires
            self.wf(),
            self.holds(owner, addr),
            self.retain_count(addr) == 1 ==> self.elems(addr).len() == 0,
        ensures
            self.release_one(addr, owner).wf(),
            self.release_one(addr, owner).released_from(self, addr, owner),
            !self.release_one(addr, owner).outstanding(owner),
            self.release_one(addr, owner).retain_count(addr) == self.retain_count(addr) - 1,
            forall|a: u64|
                #![trigger self.release_one(addr, owner).slot(a)]
                self.has(a) && a != addr ==> self.release_one(addr, owner).slot(a) == self.slot(a),
    {
        let h = self.release_one(addr, owner);
        self.lemma_holds_live(owner, addr);
        lemma_log_push(self.log, Event { call: Call::Release, owner, addr });
        assert(self.slot_wf(addr));
        assert(self.slot(addr).owners.contains(owner));
        assert forall|a: u64| #![trigger h.slot(a)] h.has(a) implies h.slot_wf(a) by {
            assert(self.has(a));
            assert(self.slot_wf(a));
        }
        assert forall|o: nat| #[trigger] h.holder.contains_key(o) implies o < h.next_owner
            && h.has(h.holder[o]) by {
            assert(self.holder.contains_key(o));
        }
        assert forall|o: nat, a: u64|
            #![trigger h.slot(a).owners.contains(o)]
            #![trigger h.holder.contains_pair(o, a)]
            h.has(a) implies (h.slot(a).owners.contains(o) <==> h.holder.contains_pair(o, a)) by {
            assert(self.has(a));
            assert(self.slot(a).owners.contains(o) <==> self.holder.contains_pair(o, a));
        }
        assert forall|o: nat| #[trigger]
            releases(h.log, o) == if h.issued(o) && !h.outstanding(o) {
                1nat
            } else {
                0nat
            } by {
            assert(releases(self.log, o) == if self.issued(o) && !self.outstanding(o) {
                1nat
            } else {
                0nat
            });
        }
        assert forall|a: u64| #[trigger]
            acquisitions_at(h.log, a) == h.retain_count(a) + releases_at(h.log, a) by {
            assert(acquisitions_at(self.log, a) == self.retain_count(a) + releases_at(self.log, a));
        }
        assert forall|a: u64| #![trigger h.slot(a)] self.has(a) implies h.elems(a) == self.elems(
            a,
        ) by {
            if a == addr && self.retain_count(addr) == 1 {
                assert(h.elems(a) =~= self.elems(a));
            }
        }
        let freed = if self.retain_count(addr) == 1 {
            addr
        } else {
            0
        };
        self.lemma_kept_targets(freed);
        assert forall|a: u64| #![trigger h.slot(a)] self.has(a) && a != addr implies h.slot(a)
            == self.slot(a) by {}
        self.lemma_keeping_unchanged(h, owner, freed);
        assert forall|a: u64| #![trigger h.slot(a)] h.live(a) implies self.live(a) && h.state(a)
            == self.state(a) by {
            assert(self.has(a));
        }
    }

    /// An object that takes another, which it can keep, as the next thing
    /// that it keeps leaves the runtime in order.
    pub proof fn lemma_keep_wf(self, array: u64, elem: u64)
        requires
            self.wf(),
            self.can_keep(array, elem),
        ensures
            self.keep(array, elem).wf(),
            self.keep(array, elem).elems(array) == self.elems(array).push(
                Elem { addr: elem, owner: self.next_owner },
            ),
            self.keep(array, elem).live(array),
            self.keep(array, elem).state(array) == self.state(array).with_elems(
                self.elems(array).push(Elem { addr: elem, owner: self.next_owner }),
            ),
            self.keep(array, elem).type_id(array) == self.type_id(array),
            self.keep(array, elem).retain_count(elem) == self.retain_count(elem) + 1,
            elem != array,
            forall|o: nat, a: u64|
                #![trigger self.holder.contains_pair(o, a)]
                self.holds(o, a) ==> self.keep(array, elem).holds(o, a),
            forall|a: u64|
                #![trigger self.keep(array, elem).slot(a)]
                self.has(a) && a != array ==> self.keep(array, elem).state(a) == self.state(a),
            forall|a: u64|
                #![trigger self.keep(array, elem).slot(a)]
                self.has(a) && a != elem ==> self.keep(array, elem).retain_count(a)
                    == self.retain_count(a),
    {
        let h = self.keep(array, elem);
        let taken = self.retain(elem);
        let owner = self.next_owner;
        let place = self.elems(array).len() as int;
        assert(elem != array);
        assert(self.slot_wf(array));
        assert(self.slot_wf(elem));
        self.lemma_retain_ledger(elem);
        assert forall|a: u64| #![trigger h.slot(a)] taken.has(a) implies h.slot(a).state.wf() && (
        h.slot(a).state is Freed <==> taken.slot(a).state is Freed) by {
            assert(taken.slot_wf(a));
        }
        taken.lemma_ledger_carried(h);
        assert(h.elems(array) == self.elems(array).push(Elem { addr: elem, owner }));
        assert forall|o: nat| #[trigger] h.keeper.contains_key(o) implies h.kept_wf(o) by {
            if o == owner {
                assert(h.elems(array)[place].owner == owner);
            } else {
                assert(self.keeper.contains_key(o));
                assert(self.kept_wf(o));
                let at = self.keeper[o];
                if at.0 == array {
                    assert(h.elems(array)[at.1] == self.elems(array)[at.1]);
                } else {
                    assert(h.elems(at.0) == self.elems(at.0));
                }
            }
        }
        assert forall|a: u64| #![trigger h.slot(a)] h.has(a) implies h.state(a).type_id()
            == self.state(a).type_id() by {}
        assert forall|a: u64, i: int|
            #![trigger h.elems(a)[i]]
            h.has(a) && 0 <= i < h.elems(a).len() implies h.elem_wf(a, i) by {
            if a == array && i == place {
                assert(h.slot(elem) == h.slot(elem));
            } else {
                if a == array {
                    assert(h.elems(a)[i] == self.elems(a)[i]);
                } else {
                    assert(h.elems(a) == self.elems(a));
                }
                assert(self.elem_wf(a, i));
                let e = self.elems(a)[i];
                assert(self.holder.contains_key(e.owner));
                assert(self.has(e.addr));
                assert(h.slot(e.addr) == h.slot(e.addr));
            }
        }
    }

    /// An object that lets go of the last thing that it keeps leaves the
    /// runtime in order; the reference that kept the thing is now one that is
    /// held.
    pub proof fn lemma_unkeep_wf(self, array: u64)
        requires
            self.wf(),
            self.elems(array).len() > 0,
        ensures
            self.unkeep(array).wf(),
            self.unkeep(array).holds(self.elems(array).last().owner, self.elems(array).last().addr),
            self.may_keep(array, self.elems(array).last().addr),
            self.elems(array).last().addr != array,
            self.unkeep(array).elems(array) == self.elems(array).drop_last(),
            self.unkeep(array).type_id(array) == self.type_id(array),
            self.unkeep(array).holder == self.holder,
            self.unkeep(array).next_owner == self.next_owner,
            self.unkeep(array).slots.len() == self.slots.len(),
            forall|a: u64|
                #![trigger self.unkeep(array).slot(a)]
                self.has(a) && a != array ==> self.unkeep(array).slot(a) == self.slot(a),
            self.unkeep(array).retain_count(array) == self.retain_count(array),
            self.unkeep(array).slot(array).owners == self.slot(array).owners,
            forall|o: nat, a: u64|
                #![trigger self.holder.contains_pair(o, a)]
                self.holds(o, a) ==> self.unkeep(array).holds(o, a),
    {
        let h = self.unkeep(array);
        let n = self.elems(array).len() as int;
        let last = self.elems(array).last();
        assert(self.has(array));
        assert(self.elem_wf(array, n - 1));
        assert(self.slot_wf(array));
        assert(h.elems(array) == self.elems(array).drop_last());
        assert forall|a: u64| #![trigger h.slot(a)] self.has(a) implies h.slot(a).state.wf() && (
        h.slot(a).state is Freed <==> self.slot(a).state is Freed) by {
            assert(self.slot_wf(a));
        }
        self.lemma_ledger_carried(h);
        assert forall|o: nat| #[trigger] h.keeper.contains_key(o) implies h.kept_wf(o) by {
            assert(self.keeper.contains_key(o));
            assert(self.kept_wf(o));
            let at = self.keeper[o];
            if at.0 == array {
                assert(self.elem_wf(array, at.1));
                assert(at.1 != n - 1);
                assert(h.elems(array)[at.1] == self.elems(array)[at.1]);
            } else {
                assert(h.elems(at.0) == self.elems(at.0));
            }
        }
        assert forall|a: u64, i: int|
            #![trigger h.elems(a)[i]]
            h.has(a) && 0 <= i < h.elems(a).len() implies h.elem_wf(a, i) by {
            if a == array {
                assert(h.elems(a)[i] == self.elems(a)[i]);
            } else {
                assert(h.elems(a) == self.elems(a));
            }
            assert(self.elem_wf(a, i));
            let e = self.elems(a)[i];
            assert(self.holder.contains_key(e.owner));
            assert(self.has(e.addr));
            assert(h.slot(e.addr) == h.slot(e.addr));
        }
    }
}


impl Heap {
    /// A release by a held reference keeps the runtime in order, whatever
    /// goes with the object.
    pub proof fn lemma_release_wf(self, addr: u64, owner: nat)
        requires
            self.wf(),
            self.holds(owner, addr),
        ensures
            self.release(addr, owner).wf(),
            self.release(addr, owner).released_from(self, addr, owner),
            !self.release(addr, owner).outstanding(owner),
            self.release(addr, owner).retain_count(addr) == self.retain_count(addr) - 1,
        decreases addr, self.elems(addr).len() + 1,
    {
        self.lemma_holds_live(owner, addr);
        if self.retain_count(addr) == 1 {
            let n = self.elems(addr).len();
            self.lemma_drop_elems_wf(addr, owner, n);
            let mid = self.drop_elems(addr, n);
            mid.lemma_release_one_wf(addr, owner);
            let h = mid.release_one(addr, owner);
            assert(h == self.release(addr, owner));
            assert forall|o: nat| #[trigger] h.holder.contains_key(o) implies self.holder.contains_key(
                o,
            ) by {
                assert(mid.holder.contains_key(o));
            }
            assert forall|o: nat, a: u64|
                #![trigger self.holder.contains_pair(o, a)]
                self.holds(o, a) && o != owner implies h.holds(o, a) by {
                assert(mid.holds(o, a));
                assert(mid.holder.contains_pair(o, a));
            }
            assert forall|a: u64| #![trigger h.slot(a)] h.live(a) implies self.live(a) && h.state(a)
                == self.state(a) by {
                assert(mid.live(a) && h.state(a) == mid.state(a));
                assert(mid.slot(a) == mid.slot(a));
            }
            assert forall|a: u64|
                #![trigger h.slot(a)]
                self.has(a) && a > addr && self.state(a) is Array implies h.slot(a) == self.slot(
                    a,
                ) by {
                assert(mid.slot(a) == self.slot(a));
            }
        } else {
            self.lemma_release_one_wf(addr, owner);
        }
    }

    /// An object with one count, held by `owner`, that gives back all that it
    /// keeps leaves the runtime in order, and is then an object that keeps
    /// nothing.
    pub proof fn lemma_drop_elems_wf(self, addr: u64, owner: nat, n: nat)
        requires
            self.wf(),
            self.holds(owner, addr),
            self.retain_count(addr) == 1,
            n == self.elems(addr).len(),
        ensures
            self.drop_elems(addr, n).wf(),
            self.drop_elems(addr, n).holds(owner, addr),
            self.drop_elems(addr, n).dropped_from(self, addr),
        decreases addr, n,
    {
        self.lemma_holds_live(owner, addr);
        if n == 0 {
            assert(self.drop_elems(addr, n) == self);
        } else {
            let last = self.elems(addr).last();
            self.lemma_unkeep_wf(addr);
            let h1 = self.unkeep(addr);
            assert(self.elem_wf(addr, n - 1));
            assert(self.keeper.contains_key(last.owner));
            assert(owner != last.owner);
            assert(h1.holds(owner, addr)) by {
                assert(self.holder.contains_pair(owner, addr));
            }
            assert(h1.slot(last.addr) == self.slot(last.addr));
            let h2 = if self.state(addr) is Array {
                h1.release(last.addr, last.owner)
            } else {
                h1.release_one(last.addr, last.owner)
            };
            if self.state(addr) is Array {
                h1.lemma_release_wf(last.addr, last.owner);
            } else {
                h1.lemma_release_one_wf(last.addr, last.owner);
                h1.lemma_holds_live(last.owner, last.addr);
            }
            assert(h2.slot(addr) == h1.slot(addr));
            assert(h2.holds(owner, addr)) by {
                assert(h1.holder.contains_pair(owner, addr));
            }
            assert(h2.elems(addr) == self.elems(addr).drop_last());
            h2.lemma_drop_elems_wf(addr, owner, (n - 1) as nat);
            let h3 = h2.drop_elems(addr, (n - 1) as nat);
            assert(h3 == self.drop_elems(addr, n));
            assert forall|o: nat| #[trigger] h3.holder.contains_key(o) implies self.holder.contains_key(
                o,
            ) by {
                assert(h2.holder.contains_key(o));
                assert(h1.holder.contains_key(o));
            }
            assert forall|o: nat, a: u64|
                #![trigger self.holder.contains_pair(o, a)]
                self.holds(o, a) implies h3.holds(o, a) by {
                assert(h1.holds(o, a));
                assert(h1.holder.contains_pair(o, a));
                assert(o != last.owner);
                assert(h2.holds(o, a));
                assert(h2.holder.contains_pair(o, a));
            }
            assert forall|a: u64| #![trigger h3.slot(a)] h3.live(a) && a != addr implies self.live(
                a,
            ) && h3.state(a) == self.state(a) by {
                assert(h2.live(a) && h3.state(a) == h2.state(a));
                assert(h2.slot(a) == h2.slot(a));
                assert(h1.live(a) && h2.state(a) == h1.state(a));
                assert(h1.slot(a) == self.slot(a));
            }
            assert forall|a: u64|
                #![trigger h3.slot(a)]
                self.has(a) && a > addr && self.state(a) is Array implies h3.slot(a) == self.slot(
                    a,
                ) by {
                assert(h1.slot(a) == self.slot(a));
                assert(h2.slot(a) == h1.slot(a));
                assert(h3.slot(a) == h2.slot(a));
            }
        }
    }
}


impl Heap {
    /// Every owned reference that was ever handed out has seen exactly one
    /// release if it is no longer outstanding, and none while it is. One that
    /// was never handed out has seen none.
    pub proof fn lemma_released_exactly_once(self, owner: nat)
        requires
            self.wf(),
        ensures
            self.issued(owner) && !self.outstanding(owner) ==> releases(self.log, owner) == 1,
            self.outstanding(owner) ==> releases(self.log, owner) == 0,
            !self.issued(owner) ==> releases(self.log, owner) == 0,
    {
    }

    /// The release of a held reference is the one release that the log ever
    /// shows for it: there was none before, there is one after, and the
    /// reference cannot be released again, as it is no longer outstanding.
    pub proof fn lemma_release_is_the_one(self, addr: u64, owner: nat)
        requires
            self.wf(),
            self.holds(owner, addr),
        ensures
            releases(self.log, owner) == 0,
            releases(self.release(addr, owner).log, owner) == 1,
            forall|a: u64| !self.release(addr, owner).holds(owner, a),
    {
        self.lemma_holds_live(owner, addr);
        self.lemma_release_wf(addr, owner);
    }

    /// The retain count of an object is the number of counts that were taken
    /// on it less the number that were given back.
    pub proof fn lemma_count_is_balance(self, addr: u64)
        requires
            self.wf(),
        ensures
            self.retain_count(addr) == acquisitions_at(self.log, addr) - releases_at(
                self.log,
                addr,
            ),
    {
    }

    /// A retain followed by the release of the reference that it made leaves
    /// every object, every count and the whole ledger as they were.
    pub proof fn lemma_retain_then_release(self, addr: u64)
        requires
            self.wf(),
            self.live(addr),
        ensures
            self.retain(addr).holds(self.next_owner, addr),
            self.retain(addr).release(addr, self.next_owner).slots == self.slots,
            self.retain(addr).release(addr, self.next_owner).holder == self.holder,
            self.retain(addr).release(addr, self.next_owner).keeper == self.keeper,
            self.retain(addr).release(addr, self.next_owner).retain_count(addr)
                == self.retain_count(addr),
            self.retain(addr).release(addr, self.next_owner).log == self.log.push(
                Event { call: Call::Retain, owner: self.next_owner, addr },
            ).push(Event { call: Call::Release, owner: self.next_owner, addr }),
    {
        let owner = self.next_owner;
        self.lemma_retain_wf(addr);
        let after = self.retain(addr).release(addr, owner);
        assert(after == self.retain(addr).release_one(addr, owner));
        assert(!self.holder.contains_key(owner));
        assert(self.slot_wf(addr));
        assert(!self.slot(addr).owners.contains(owner)) by {
            if self.slot(addr).owners.contains(owner) {
                assert(self.holder.contains_pair(owner, addr));
            }
        }
        assert(self.slot(addr).owners.insert(owner).remove(owner) =~= self.slot(addr).owners);
        assert(after.slots =~= self.slots);
        assert(after.holder =~= self.holder);
    }

    /// Once no owned reference is outstanding, no object is left.
    pub proof fn lemma_nothing_held_nothing_live(self, addr: u64)
        requires
            self.wf(),
            forall|o: nat| !self.outstanding(o),
        ensures
            !self.live(addr),
    {
        if self.live(addr) {
            assert(self.slot_wf(addr));
            let owners = self.slot(addr).owners;
            assert(owners.len() > 0);
            let o = owners.choose();
            assert(owners.contains(o));
            assert(self.holder.contains_pair(o, addr));
            assert(self.outstanding(o));
        }
    }

    /// A reference that is gone stays gone: whatever step is taken, a
    /// reference that was handed out and released is not outstanding after it,
    /// and a reference that is outstanding after it was handed out before it
    /// or by it.
    pub proof fn lemma_gone_stays_gone(self, step: Step, owner: nat)
        requires
            self.wf(),
            self.admits(step),
            self.issued(owner),
            !self.outstanding(owner),
        ensures
            self.step(step).issued(owner),
            !self.step(step).outstanding(owner),
    {
        match step {
            Step::Release(addr, by) => {
                self.lemma_release_wf(addr, by);
            },
            _ => {},
        }
    }

    /// No step changes the type of an object: whatever step is taken, every
    /// object that is there after it, and was there before, has the type tag
    /// that it had.
    pub proof fn lemma_type_is_stable(self, step: Step, addr: u64)
        requires
            self.wf(),
            self.admits(step),
            self.live(addr),
            self.step(step).live(addr),
        ensures
            self.step(step).type_id(addr) == self.type_id(addr),
    {
        let h = self.step(step);
        match step {
            Step::Release(other, owner) => {
                self.lemma_release_wf(other, owner);
                assert(h.slot(addr) == h.slot(addr));
            },
            Step::Keep(array, elem) => {
                self.lemma_keep_wf(array, elem);
                if addr != array {
                    assert(h.slot(addr) == h.slot(addr));
                }
            },
            _ => {},
        }
    }

    /// What an object keeps stays there for as long as the object does: a
    /// release of anything else, or of the object while it has counts to
    /// spare, leaves what it keeps where it is.
    pub proof fn lemma_kept_stays(self, array: u64, i: int, addr: u64, owner: nat)
        requires
            self.wf(),
            0 <= i < self.elems(array).len(),
            self.holds(owner, addr),
            self.release(addr, owner).live(array),
        ensures
            self.release(addr, owner).elems(array) == self.elems(array),
            self.release(addr, owner).live(self.elems(array)[i].addr),
    {
        self.lemma_release_wf(addr, owner);
        let h = self.release(addr, owner);
        assert(h.slot(array) == h.slot(array));
        h.lemma_elem_live(array, i);
    }
}


impl Heap {
    /// Whether `step` can be taken: whether the functions of this library
    /// would take it.
    pub open spec fn admits(self, step: Step) -> bool {
        match step {
            Step::Create(state) => self.has_room() && !(state is Freed) && state.wf()
                && state.elems().len() == 0,
            Step::Retain(addr) => self.live(addr),
            Step::Release(addr, owner) => self.holds(owner, addr),
            Step::Put(addr, state) => self.live(addr) && state.type_id() == self.type_id(addr)
                && state.wf() && state.elems() == self.elems(addr),
            Step::Keep(array, elem) => self.can_keep(array, elem),
        }
    }

    /// The runtime after `step`.
    pub open spec fn step(self, step: Step) -> Heap {
        match step {
            Step::Create(state) => self.create(state),
            Step::Retain(addr) => self.retain(addr),
            Step::Release(addr, owner) => self.release(addr, owner),
            Step::Put(addr, state) => self.put(addr, state),
            Step::Keep(array, elem) => self.keep(array, elem),
        }
    }

    /// The runtime after the steps `steps`, taken one after the other from
    /// this runtime on.
    pub open spec fn run(self, steps: Seq<Step>) -> Heap
        decreases steps.len(),
    {
        if steps.len() == 0 {
            self
        } else {
            self.run(steps.drop_last()).step(steps.last())
        }
    }

    /// Whether each of `steps` can be taken when its turn comes.
    pub open spec fn admits_all(self, steps: Seq<Step>) -> bool
        decreases steps.len(),
    {
        steps.len() == 0 || (self.admits_all(steps.drop_last()) && self.run(
            steps.drop_last(),
        ).admits(steps.last()))
    }

    /// Whatever steps are taken from the empty runtime on, the runtime stays
    /// in order: every count is accounted for, and every reference that is
    /// gone was released exactly once.
    pub proof fn lemma_always_in_order(steps: Seq<Step>, owner: nat)
        requires
            Heap::empty().admits_all(steps),
        ensures
            Heap::empty().run(steps).wf(),
            releases(Heap::empty().run(steps).log, owner) == if Heap::empty().run(steps).issued(
                owner,
            ) && !Heap::empty().run(steps).outstanding(owner) {
                1nat
            } else {
                0nat
            },
        decreases steps.len(),
    {
        if steps.len() == 0 {
            Heap::lemma_empty_wf();
        } else {
            Heap::lemma_always_in_order(steps.drop_last(), owner);
            let h = Heap::empty().run(steps.drop_last());
            match steps.last() {
                Step::Create(state) => h.lemma_create_wf(state),
                Step::Retain(addr) => h.lemma_retain_wf(addr),
                Step::Release(addr, owner) => h.lemma_release_wf(addr, owner),
                Step::Put(addr, state) => {
                    h.lemma_typed_live(addr);
                    h.lemma_put_wf(addr, state);
                },
                Step::Keep(array, elem) => h.lemma_keep_wf(array, elem),
            }
        }
    }
}

} // verus!
