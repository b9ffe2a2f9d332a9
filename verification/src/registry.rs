use vstd::prelude::*;

verus! {

/// Names one registration of a registry: a callback subscribed for the time
/// of one scoped run.
///
/// The value is a handle. It stays meaningful from the insertion that
/// returned it until it is released; afterwards the registry may hand the
/// same handle out again.
#[derive(Clone, Copy, Debug, PartialEq, Eq, Hash, Structural)]
pub struct Registration {
    slot: usize,
}

impl Registration {
    /// The number of the arena slot that the handle names.
    pub closed spec fn spec_index(&self) -> usize {
        self.slot
    }

    /// The number of the arena slot that the handle names. Two handles with
    /// the same number are the same handle, so the number can index a table
    /// kept beside the registry.
    #[verifier::when_used_as_spec(spec_index)]
    pub fn index(&self) -> (i: usize)
        ensures
            i == self.spec_index(),
    {
        self.slot
    }

    /// A handle is known by its number: two handles with the same number
    /// are the same handle.
    pub proof fn lemma_index_names_one(a: Registration, b: Registration)
        requires
            a.spec_index() == b.spec_index(),
        ensures
            a == b,
    {
    }
}

/// What a registry holds, as contracts see it.
pub struct RegistryView {
    /// The linked registrations, newest first: the order in which a sweep
    /// takes them.
    pub active: Seq<Registration>,
    /// The registrations that a sweep has unlinked and whose run has not
    /// ended yet.
    pub detached: Set<Registration>,
}

impl RegistryView {
    /// The registry without any registration.
    pub open spec fn empty() -> RegistryView {
        RegistryView { active: Seq::empty(), detached: Set::empty() }
    }

    /// `r` names a registration whose run has not ended.
    pub open spec fn live(self, r: Registration) -> bool {
        self.active.contains(r) || self.detached.contains(r)
    }

    /// No registration is linked twice, and none is both linked and detached.
    pub open spec fn inv(self) -> bool {
        &&& self.active.no_duplicates()
        &&& forall|r: Registration| !(self.active.contains(r) && self.detached.contains(r))
    }

    /// `r` spliced in at the head.
    pub open spec fn insert(self, r: Registration) -> RegistryView {
        RegistryView { active: seq![r] + self.active, detached: self.detached }
    }

    /// `r` taken out of the list, if it is linked, and kept as detached.
    pub open spec fn unlink(self, r: Registration) -> RegistryView {
        if self.active.contains(r) {
            RegistryView {
                active: self.active.remove(self.active.index_of(r)),
                detached: self.detached.insert(r),
            }
        } else {
            self
        }
    }

    /// The end of `r`: it is neither linked nor detached afterwards.
    pub open spec fn release(self, r: Registration) -> RegistryView {
        let unlinked = self.unlink(r);
        RegistryView { active: unlinked.active, detached: unlinked.detached.remove(r) }
    }
}

#[derive(Clone, Copy, PartialEq, Eq, Structural)]
enum SlotState {
    /// Not in use; listed in the free stack.
    Free,
    /// Member of the list.
    Linked,
    /// Taken out of the list by a sweep; still owned by its run.
    Detached,
}

/// One element of the arena: a list node with its two links.
struct Slot {
    state: SlotState,
    /// The slot whose `next` names this one; `None` where the head does.
    prev: Option<usize>,
    /// The slot after this one in the list.
    next: Option<usize>,
}

/// The active registrations of one token: a doubly linked list threaded
/// through an arena of slots, newest registration first.
///
/// Insertion at the head, removal of any member and removal of the head all
/// take constant time: a node is found by its slot number and taken out
/// through its two links, without a scan.
pub struct Registry {
    slots: Vec<Slot>,
    head: Option<usize>,
    /// Slots that are not in use, to be handed out again.
    free: Vec<usize>,
    /// The members of the list in list order.
    chain: Ghost<Seq<Registration>>,
}

impl View for Registry {
    type V = RegistryView;

    closed spec fn view(&self) -> RegistryView {
        RegistryView {
            active: self.chain@,
            detached: Set::new(
                |r: Registration|
                    r.slot < self.slots.len() && self.slots[r.slot as int].state
                        == SlotState::Detached,
            ),
        }
    }
}

/// The slot of the `i`-th member of `chain` is in use as a list node and
/// its links name the member's two neighbours.
spec fn linked_at(slots: Seq<Slot>, chain: Seq<Registration>, i: int) -> bool {
    let s = chain[i].slot as int;
    &&& s < slots.len()
    &&& slots[s].state == SlotState::Linked
    &&& slots[s].prev == (if i == 0 {
        None
    } else {
        Some(chain[i - 1].slot)
    })
    &&& slots[s].next == (if i + 1 == chain.len() {
        None
    } else {
        Some(chain[i + 1].slot)
    })
}

/// The arena, the head and the free stack describe the list `chain`, and
/// every slot is accounted for.
spec fn arena_holds(
    slots: Seq<Slot>,
    head: Option<usize>,
    free: Seq<usize>,
    chain: Seq<Registration>,
) -> bool {
    &&& chain.no_duplicates()
    &&& forall|i: int| 0 <= i < chain.len() ==> linked_at(slots, chain, i)
    &&& head == (if chain.len() == 0 {
        None
    } else {
        Some(chain[0].slot)
    })
    &&& forall|j: int|
        0 <= j < slots.len() && (#[trigger] slots[j]).state == SlotState::Linked
            ==> chain.contains(Registration { slot: j as usize })
    &&& free.no_duplicates()
    &&& forall|k: int|
        0 <= k < free.len() ==> (#[trigger] free[k]) < slots.len() && slots[free[k] as int].state
            == SlotState::Free
    &&& forall|j: int|
        0 <= j < slots.len() && (#[trigger] slots[j]).state == SlotState::Free ==> free.contains(
            j as usize,
        )
}

impl Registry {
    #[verifier::type_invariant]
    spec fn wf(self) -> bool {
        arena_holds(self.slots@, self.head, self.free@, self.chain@)
    }

    /// A registry without registrations.
    pub fn new() -> (registry: Registry)
        ensures
            registry@ == RegistryView::empty(),
    {
        let registry = Registry {
            slots: Vec::new(),
            head: None,
            free: Vec::new(),
            chain: Ghost(Seq::empty()),
        };
        assert(registry@.detached =~= Set::empty());
        registry
    }

    /// Links a new registration in at the head of the list and returns its
    /// handle. The handle is one that no live registration has.
    pub fn insert(&mut self) -> (r: Registration)
        ensures
            !old(self)@.live(r),
            final(self)@ == old(self)@.insert(r),
            final(self)@.inv(),
    {
        let mut taken = Registry::new();
        std::mem::swap(self, &mut taken);
        proof {
            use_type_invariant(&taken);
        }
        let ghost before = taken;
        let Registry { mut slots, head, mut free, chain } = taken;
        proof {
            assert forall|i: int| 0 <= i < chain@.len() implies (#[trigger] chain@[i]).slot
                < slots.len() && slots[chain@[i].slot as int].state == SlotState::Linked by {
                assert(linked_at(slots@, chain@, i));
            }
        }
        let node = Slot { state: SlotState::Linked, prev: None, next: head };
        let s: usize = match free.pop() {
            Some(s) => {
                assert(before.free@[before.free@.len() - 1] == s);
                slots[s] = node;
                s
            },
            None => {
                let s: usize = slots.len();
                slots.push(node);
                s
            },
        };
        let r = Registration { slot: s };
        assert(!chain@.contains(r));
        if let Some(h) = head {
            slots[h].prev = Some(s);
        }
        let ghost grown = seq![r] + chain@;
        proof {
            assert forall|i: int| 0 <= i < grown.len() implies linked_at(slots@, grown, i) by {
                if i > 0 {
                    assert(linked_at(before.slots@, chain@, i - 1));
                    assert(grown[i] == chain@[i - 1]);
                }
            }
            assert forall|j: int|
                0 <= j < slots.len() && (#[trigger] slots[j]).state
                    == SlotState::Linked implies grown.contains(Registration { slot: j as usize }) by {
                if j == s {
                    assert(grown[0] == r);
                } else {
                    assert(before.slots@[j].state == SlotState::Linked);
                    let i = chain@.index_of(Registration { slot: j as usize });
                    assert(grown[i + 1] == chain@[i]);
                }
            }
            assert forall|j: int|
                0 <= j < slots.len() && (#[trigger] slots[j]).state
                    == SlotState::Free implies free@.contains(j as usize) by {
                assert(before.slots@[j].state == SlotState::Free);
                let k = before.free@.index_of(j as usize);
                assert(free@[k] == j as usize);
            }
            assert(arena_holds(slots@, Some(s), free@, grown));
        }
        let after = Registry { slots, head: Some(s), free, chain: Ghost(grown) };
        proof {
            assert(after@.detached =~= before@.detached);
            assert(!before@.detached.contains(r));
        }
        *self = after;
        r
    }

    /// Takes `r` out of the list, wherever in it `r` stands, and reports
    /// whether it was a member. A registration that is not linked is left
    /// as it is.
    ///
    /// The neighbours are joined to each other: what named `r` (the head or
    /// the node before it) now names the node after it, and that node's back
    /// link is moved accordingly. The links of `r` itself are cleared.
    pub fn unlink(&mut self, r: Registration) -> (was_linked: bool)
        ensures
            was_linked == old(self)@.active.contains(r),
            final(self)@ == old(self)@.unlink(r),
            final(self)@.inv(),
    {
        if !self.is_active(r) {
            proof {
                use_type_invariant(&*self);
                self.lemma_view_inv();
            }
            return false;
        }
        let mut taken = Registry::new();
        std::mem::swap(self, &mut taken);
        proof {
            use_type_invariant(&taken);
        }
        let ghost before = taken;
        let Registry { mut slots, mut head, free, chain } = taken;
        let ghost i = chain@.index_of(r);
        let ghost shrunk = chain@.remove(i);
        proof {
            assert(linked_at(slots@, chain@, i));
            if i > 0 {
                assert(linked_at(slots@, chain@, i - 1));
            }
            if i + 1 < chain@.len() {
                assert(linked_at(slots@, chain@, i + 1));
            }
        }
        let s: usize = r.slot;
        let prev = slots[s].prev;
        let next = slots[s].next;
        match prev {
            None => {
                head = next;
            },
            Some(p) => {
                slots[p].next = next;
            },
        }
        if let Some(n) = next {
            slots[n].prev = prev;
        }
        slots[s] = Slot { state: SlotState::Detached, prev: None, next: None };
        proof {
            assert forall|k: int| 0 <= k < shrunk.len() implies linked_at(slots@, shrunk, k) by {
                let k0 = if k < i { k } else { k + 1 };
                assert(shrunk[k] == chain@[k0]);
                assert(linked_at(before.slots@, chain@, k0));
                if k > 0 {
                    let j0 = if k - 1 < i { k - 1 } else { k };
                    assert(shrunk[k - 1] == chain@[j0]);
                }
                if k + 1 < shrunk.len() {
                    let j0 = if k + 1 < i { k + 1 } else { k + 2 };
                    assert(shrunk[k + 1] == chain@[j0]);
                }
            }
            assert forall|j: int|
                0 <= j < slots.len() && (#[trigger] slots[j]).state
                    == SlotState::Linked implies shrunk.contains(Registration { slot: j as usize }) by {
                assert(before.slots@[j].state == SlotState::Linked);
                let k0 = chain@.index_of(Registration { slot: j as usize });
                let k = if k0 < i { k0 } else { k0 - 1 };
                assert(shrunk[k] == chain@[k0]);
            }
            assert forall|k: int| 0 <= k < free@.len() implies (#[trigger] free@[k]) < slots.len()
                && slots[free@[k] as int].state == SlotState::Free by {
                assert(before.slots@[free@[k] as int].state == SlotState::Free);
            }
            assert(arena_holds(slots@, head, free@, shrunk));
        }
        let after = Registry { slots, head, free, chain: Ghost(shrunk) };
        proof {
            assert(after@.detached =~= before@.detached.insert(r));
            after.lemma_view_inv();
        }
        *self = after;
        true
    }

    /// Takes the newest registration out of the list and returns it; `None`
    /// where the list is empty. This is one step of a sweep.
    pub fn pop(&mut self) -> (first: Option<Registration>)
        ensures
            first == (if old(self)@.active.len() == 0 {
                None
            } else {
                Some(old(self)@.active[0])
            }),
            final(self)@ == (match first {
                Some(r) => old(self)@.unlink(r),
                None => old(self)@,
            }),
            final(self)@.inv(),
    {
        proof {
            use_type_invariant(&*self);
            self.lemma_view_inv();
        }
        match self.head {
            None => None,
            Some(h) => {
                let r = Registration { slot: h };
                self.unlink(r);
                Some(r)
            },
        }
    }

    /// Ends the registration `r`: takes it out of the list if a sweep has not
    /// done so already, and gives its slot back to the arena. A handle that
    /// names no live registration changes nothing.
    pub fn release(&mut self, r: Registration)
        ensures
            final(self)@ == old(self)@.release(r),
            final(self)@.inv(),
    {
        self.unlink(r);
        let mut taken = Registry::new();
        std::mem::swap(self, &mut taken);
        proof {
            use_type_invariant(&taken);
        }
        let ghost before = taken;
        let Registry { mut slots, head, mut free, chain } = taken;
        let s: usize = r.slot;
        if s < slots.len() && slots[s].state == SlotState::Detached {
            slots[s].state = SlotState::Free;
            free.push(s);
            proof {
                assert forall|i: int| 0 <= i < chain@.len() implies linked_at(
                    slots@,
                    chain@,
                    i,
                ) by {
                    assert(linked_at(before.slots@, chain@, i));
                }
                assert forall|j: int|
                    0 <= j < slots.len() && (#[trigger] slots[j]).state
                        == SlotState::Linked implies chain@.contains(
                    Registration { slot: j as usize },
                ) by {
                    assert(before.slots@[j].state == SlotState::Linked);
                }
                assert forall|j: int|
                    0 <= j < slots.len() && (#[trigger] slots[j]).state
                        == SlotState::Free implies free@.contains(j as usize) by {
                    if j == s {
                        assert(free@[free@.len() - 1] == s);
                    } else {
                        assert(before.slots@[j].state == SlotState::Free);
                        let k = before.free@.index_of(j as usize);
                        assert(free@[k] == j as usize);
                    }
                }
                assert(arena_holds(slots@, head, free@, chain@));
            }
        }
        let after = Registry { slots, head, free, chain };
        proof {
            assert(after@.detached =~= before@.detached.remove(r));
            after.lemma_view_inv();
        }
        *self = after;
    }

    /// What the arena's invariant means for the view.
    proof fn lemma_view_inv(self)
        requires
            self.wf(),
        ensures
            self@.inv(),
    {
        assert forall|r: Registration|
            !(self@.active.contains(r) && self@.detached.contains(r)) by {
            if self@.active.contains(r) {
                let i = self.chain@.index_of(r);
                assert(linked_at(self.slots@, self.chain@, i));
            }
        }
    }

    /// Whether no registration is linked.
    pub fn is_empty(&self) -> (empty: bool)
        ensures
            empty == (self@.active.len() == 0),
    {
        proof {
            use_type_invariant(self);
        }
        self.head.is_none()
    }

    /// Whether `r` is a member of the list.
    pub fn is_active(&self, r: Registration) -> (active: bool)
        ensures
            active == self@.active.contains(r),
    {
        proof {
            use_type_invariant(self);
            if self@.active.contains(r) {
                let i = self.chain@.index_of(r);
                assert(linked_at(self.slots@, self.chain@, i));
            }
        }
        r.slot < self.slots.len() && self.slots[r.slot].state == SlotState::Linked
    }
}

} // verus!
