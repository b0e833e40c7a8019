//! What the counts guard where many threads use the handles to one block at once.
//!
//! To clone, to drop, to make a weak handle and to upgrade one takes single accesses to the two
//! counts, which other threads' accesses may come between. What is proved of that has limits:
//! - Of all upgrades, one at most is under way at a time. Of two that overlap, the one that ends
//!   first clears the top bit that the other relies on.
//! - A handle is added only while there is room for it ([`Protocol::has_room`]), so that the top
//!   bit of the strong count stays free and the weak count does not wrap around.
//! - The accesses come one after the other, and each sees what those before it left.
//! - The test for the only handle, which `is_unique`, `get_mut`, `make_mut`, `try_as_mut`,
//!   `try_into_inner`, `as_slice_mut` and `Vec::try_from` rely on, is not among the accesses. It
//!   reads the strong count and then the weak count. If another thread upgrades its weak handle and
//!   then drops that weak handle between the two reads, the test finds 1 both times although there
//!   are two strong handles. [`law_uniqueness_without_upgrades`] says when its answer is right.
use crate::allocator::IAlloc;
use crate::counter;
use crate::counter::USIZE_TOP_BIT;
use crate::model;
use crate::model::Status;
use vstd::prelude::*;

verus! {

/// How far the upgrade that is under way has come.
pub enum Upgrading {
    /// There is none.
    Idle,
    /// It set the top bit, and found no strong handle.
    Refused,
    /// It set the top bit, and found a strong handle.
    Granted,
    /// It added its count.
    Counted,
}

/// How far the end of the values has come.
pub enum Ending {
    /// It has not begun, or is over.
    No,
    /// The last strong handle was dropped.
    Destroying,
    /// The values were destroyed.
    Releasing,
}

/// A block in the midst of what threads do to it.
pub struct Protocol {
    /// The strong count.
    pub strong: usize,
    /// The weak count.
    pub weak: usize,
    /// The number of strong handles.
    pub arcs: nat,
    /// The number of weak handles.
    pub weaks: nat,
    /// The upgrade that is under way.
    pub upgrading: Upgrading,
    /// What the thread that dropped the last strong handle does.
    pub ending: Ending,
    /// Whether a thread found that it is to give the block back, and did not yet.
    pub freeing: bool,
    /// Whether the values are there.
    pub alive: bool,
    /// How often the values were destroyed.
    pub destructions: nat,
    /// How often the block was given back.
    pub frees: nat,
}

/// One access to a count, or what follows from one.
pub enum Access {
    /// A strong handle is cloned.
    AddStrong,
    /// A strong handle gives up its count. If that was the last one the end begins.
    DropStrong,
    /// The values are destroyed.
    Destroy,
    /// The weak count that the strong handles shared is given up.
    ReleaseShared,
    /// A weak handle is made from a strong or a weak one.
    AddWeak,
    /// A weak handle gives up its count.
    DropWeak,
    /// The block is given back.
    Free,
    /// An upgrade sets the top bit of the strong count, and looks at what it was.
    UpgradeLock,
    /// An upgrade that found no strong handle stores 0.
    UpgradeRefuse,
    /// An upgrade that found one adds its count.
    UpgradeCount,
    /// An upgrade clears the top bit, and has its strong handle.
    UpgradeUnlock,
}

impl Protocol {
    /// A block with its first strong handle.
    pub open spec fn init(self) -> bool {
        self == Protocol {
            strong: 1,
            weak: 1,
            arcs: 1,
            weaks: 0,
            upgrading: Upgrading::Idle,
            ending: Ending::No,
            freeing: false,
            alive: true,
            destructions: 0,
            frees: 0,
        }
    }

    /// Whether an upgrade is sure of its strong handle, but has none yet.
    pub open spec fn promised(self) -> bool {
        self.upgrading is Granted || self.upgrading is Counted
    }

    /// Whether there is room for more handles: the top bit of the strong count stays free, and the
    /// weak count does not wrap around.
    pub open spec fn has_room(self) -> bool {
        self.arcs + 3 < USIZE_TOP_BIT && self.weaks + 2 < usize::MAX
    }

    /// Whether `access` may lead from this state to `post`.
    pub open spec fn step(self, access: Access, post: Self) -> bool {
        match access {
            Access::AddStrong => {
                &&& self.arcs > 0 && self.has_room()
                &&& post == Protocol {
                    strong: self.strong.wrapping_add(1),
                    arcs: self.arcs + 1,
                    ..self
                }
            },
            Access::DropStrong => {
                &&& self.arcs > 0
                &&& post == Protocol {
                    strong: self.strong.wrapping_sub(1),
                    arcs: (self.arcs - 1) as nat,
                    ending: if self.strong == 1 {
                        Ending::Destroying
                    } else {
                        self.ending
                    },
                    ..self
                }
            },
            Access::Destroy => {
                &&& self.ending is Destroying
                &&& post == Protocol {
                    ending: Ending::Releasing,
                    alive: false,
                    destructions: self.destructions + 1,
                    ..self
                }
            },
            Access::ReleaseShared => {
                &&& self.ending is Releasing
                &&& post == Protocol {
                    weak: self.weak.wrapping_sub(1),
                    ending: Ending::No,
                    freeing: self.freeing || self.weak == 1,
                    ..self
                }
            },
            Access::AddWeak => {
                &&& self.arcs > 0 || self.weaks > 0
                &&& self.has_room()
                &&& post == Protocol {
                    weak: self.weak.wrapping_add(1),
                    weaks: self.weaks + 1,
                    ..self
                }
            },
            Access::DropWeak => {
                // The handle that an upgrade is made through is in use.
                &&& self.weaks > 0 && (self.weaks > 1 || self.upgrading is Idle)
                &&& post == Protocol {
                    weak: self.weak.wrapping_sub(1),
                    weaks: (self.weaks - 1) as nat,
                    freeing: self.freeing || self.weak == 1,
                    ..self
                }
            },
            Access::Free => {
                &&& self.freeing
                &&& post == Protocol { freeing: false, frees: self.frees + 1, ..self }
            },
            Access::UpgradeLock => {
                &&& self.weaks > 0 && self.upgrading is Idle && self.has_room()
                &&& post == Protocol {
                    strong: self.strong | USIZE_TOP_BIT,
                    upgrading: if counter::upgradable(self.strong) {
                        Upgrading::Granted
                    } else {
                        Upgrading::Refused
                    },
                    ..self
                }
            },
            Access::UpgradeRefuse => {
                &&& self.upgrading is Refused
                &&& post == Protocol { strong: 0, upgrading: Upgrading::Idle, ..self }
            },
            Access::UpgradeCount => {
                &&& self.upgrading is Granted
                &&& post == Protocol {
                    strong: self.strong.wrapping_add(1),
                    upgrading: Upgrading::Counted,
                    ..self
                }
            },
            Access::UpgradeUnlock => {
                &&& self.upgrading is Counted
                &&& post == Protocol {
                    strong: self.strong & !USIZE_TOP_BIT,
                    arcs: self.arcs + 1,
                    upgrading: Upgrading::Idle,
                    ..self
                }
            },
        }
    }

    /// Whether the block is as `status` says, and no thread is in the midst of anything.
    pub open spec fn shows<T, Alloc>(self, status: Status<T, Alloc>) -> bool {
        &&& self.upgrading is Idle
        &&& self.ending is No
        &&& !self.freeing
        &&& match status {
            Status::Shared(s) => {
                &&& self.strong == s.strong
                &&& self.weak == s.weak
                &&& self.frees == 0
                &&& !self.alive ==> s.items.len() == 0
            },
            Status::Owned { .. } => false,
            Status::Freed { .. } => self.frees == 1,
        }
    }

    /// What holds at every point, whatever comes between what.
    pub open spec fn inv(self) -> bool {
        &&& self.arcs + 1 < USIZE_TOP_BIT
        &&& self.promised() ==> self.arcs + 2 < USIZE_TOP_BIT
        &&& self.weaks + 1 < usize::MAX
        &&& match self.upgrading {
            Upgrading::Idle => self.strong == self.arcs,
            Upgrading::Refused => self.strong == USIZE_TOP_BIT && self.arcs == 0,
            Upgrading::Granted => self.strong == USIZE_TOP_BIT + self.arcs,
            Upgrading::Counted => self.strong == USIZE_TOP_BIT + self.arcs + 1,
        }
        &&& !(self.upgrading is Idle) ==> self.weaks > 0
        &&& !(self.ending is No) ==> self.arcs == 0 && !self.promised()
        &&& self.alive <==> self.arcs > 0 || self.promised() || self.ending is Destroying
        &&& self.weak == self.weaks + if self.arcs > 0 || self.promised() || !(self.ending is No) {
            1int
        } else {
            0int
        }
        &&& self.freeing ==> self.weak == 0
        &&& self.weak == 0 <==> self.freeing || self.frees > 0
        &&& self.destructions == if self.alive {
            0nat
        } else {
            1nat
        }
        &&& self.frees <= 1
        &&& !(self.freeing && self.frees > 0)
    }
}

/// A block starts as it should.
pub proof fn law_start_is_safe(start: Protocol)
    requires
        start.init(),
    ensures
        start.inv(),
{
    counter::lemma_top_bit();
}

/// Whichever access comes next, the block stays as it should.
pub proof fn law_accesses_are_safe(pre: Protocol, access: Access, post: Protocol)
    requires
        pre.inv(),
        pre.step(access, post),
    ensures
        post.inv(),
{
    counter::lemma_top_bit();
    counter::lemma_top_bit_of(pre.strong);
}

/// Whether `states` is what a sequence of accesses leads through.
pub open spec fn run(states: Seq<Protocol>, accesses: Seq<Access>) -> bool {
    &&& states.len() == accesses.len() + 1
    &&& states[0].init()
    &&& forall|i: int|
        0 <= i < accesses.len() ==> #[trigger] states[i].step(accesses[i], states[i + 1])
}

/// However the accesses of many threads come between each other: while there is a strong handle the
/// values are there and the block was not given back; while there is a weak handle the block was
/// not given back; the values are destroyed once at most, and the block given back once at most.
pub proof fn law_interleavings_are_safe(states: Seq<Protocol>, accesses: Seq<Access>, i: int)
    requires
        run(states, accesses),
        0 <= i < states.len(),
    ensures
        states[i].inv(),
        states[i].arcs > 0 ==> states[i].alive && states[i].frees == 0,
        states[i].weaks > 0 ==> states[i].frees == 0,
        states[i].destructions <= 1,
        states[i].frees <= 1,
    decreases i,
{
    if i > 0 {
        law_interleavings_are_safe(states, accesses, i - 1);
        assert(states[i - 1].step(accesses[i - 1], states[i - 1 + 1]));
        law_accesses_are_safe(states[i - 1], accesses[i - 1], states[i]);
    } else {
        law_start_is_safe(states[0]);
    }
}

/// The test for the only handle is right if no handle is upgraded between its two reads: where the
/// strong count was 1 at `i`, and the weak count is 1 at `j`, and in between weak handles were made
/// and dropped at most, there is one strong handle and no weak one.
pub proof fn law_uniqueness_without_upgrades(
    states: Seq<Protocol>,
    accesses: Seq<Access>,
    i: int,
    j: int,
)
    requires
        run(states, accesses),
        0 <= i <= j < states.len(),
        states[i].strong == 1,
        states[j].weak == 1,
        forall|k: int|
            i <= k < j ==> #[trigger] accesses[k] is AddWeak || accesses[k] is DropWeak,
    ensures
        states[j].arcs == 1,
        states[j].weaks == 0,
        states[j].upgrading is Idle,
        states[j].alive,
{
    counter::lemma_top_bit();
    lemma_strong_stays(states, accesses, i, j);
    law_interleavings_are_safe(states, accesses, i);
    law_interleavings_are_safe(states, accesses, j);
}

/// Making and dropping weak handles leaves the strong ones, and the upgrade under way, alone.
proof fn lemma_strong_stays(states: Seq<Protocol>, accesses: Seq<Access>, i: int, j: int)
    requires
        run(states, accesses),
        0 <= i <= j < states.len(),
        forall|k: int|
            i <= k < j ==> #[trigger] accesses[k] is AddWeak || accesses[k] is DropWeak,
    ensures
        states[j].strong == states[i].strong,
        states[j].arcs == states[i].arcs,
        states[j].upgrading == states[i].upgrading,
    decreases j,
{
    if i < j {
        lemma_strong_stays(states, accesses, i, j - 1);
        assert(states[j - 1].step(accesses[j - 1], states[j - 1 + 1]));
    }
}

/// Once all handles are gone and no thread has anything left to do, the values were destroyed and
/// the block was given back.
pub proof fn law_nothing_is_left(state: Protocol)
    requires
        state.inv(),
        state.arcs == 0,
        state.weaks == 0,
        state.ending is No,
        !state.freeing,
    ensures
        state.destructions == 1,
        state.frees == 1,
{
}

/// Where nothing comes between its accesses, an upgrade does to the counts what
/// [`Counter::try_upgrade`](crate::counter::Counter::try_upgrade) says.
pub proof fn law_upgrade_alone(p0: Protocol, p1: Protocol, p2: Protocol, p3: Protocol)
    requires
        p0.inv(),
        p0.step(Access::UpgradeLock, p1),
        p1.upgrading is Refused ==> p1.step(Access::UpgradeRefuse, p2),
        p1.upgrading is Granted ==> p1.step(Access::UpgradeCount, p2) && p2.step(
            Access::UpgradeUnlock,
            p3,
        ),
    ensures
        p1.upgrading is Granted <==> counter::upgradable(p0.strong),
        p1.upgrading is Refused <==> !counter::upgradable(p0.strong),
        p1.upgrading is Refused ==> p2 == p0 && p2.strong == counter::upgraded(p0.strong),
        p1.upgrading is Granted ==> p3.strong == counter::upgraded(p0.strong) && p3 == (Protocol {
            strong: p3.strong,
            arcs: p0.arcs + 1,
            ..p0
        }),
{
    counter::lemma_top_bit();
    counter::lemma_top_bit_of(p0.strong);
    counter::lemma_top_bit_of(p2.strong);
    counter::lemma_upgraded(p0.strong);
}

/// Where nothing comes between its accesses, the drop of a strong handle does to the block what
/// [`model::strong_released`] says.
pub proof fn law_drop_alone<T, Alloc: IAlloc>(
    p0: Protocol,
    p1: Protocol,
    p2: Protocol,
    p3: Protocol,
    p4: Protocol,
    pre: Seq<Status<T, Alloc>>,
    post: Seq<Status<T, Alloc>>,
    b: int,
)
    requires
        p0.inv(),
        model::is_shared(pre, b),
        p0.shows(pre[b]),
        model::strong_released(pre, post, b),
        p0.step(Access::DropStrong, p1),
        p1.ending is Destroying ==> p1.step(Access::Destroy, p2) && p2.step(
            Access::ReleaseShared,
            p3,
        ),
        p1.ending is Destroying && p3.freeing ==> p3.step(Access::Free, p4),
    ensures
        p1.ending is No ==> p1.shows(post[b]),
        p1.ending is Destroying && !p3.freeing ==> p3.shows(post[b]),
        p1.ending is Destroying && p3.freeing ==> p4.shows(post[b]),
{
}

/// Where nothing comes between its accesses, the drop of a weak handle does to the block what
/// [`model::weak_released`] says.
pub proof fn law_drop_weak_alone<T, Alloc: IAlloc>(
    p0: Protocol,
    p1: Protocol,
    p2: Protocol,
    pre: Seq<Status<T, Alloc>>,
    post: Seq<Status<T, Alloc>>,
    b: int,
)
    requires
        p0.inv(),
        model::is_shared(pre, b),
        p0.shows(pre[b]),
        model::weak_released(pre, post, b),
        p0.step(Access::DropWeak, p1),
        p1.freeing ==> p1.step(Access::Free, p2),
    ensures
        !p1.freeing ==> p1.shows(post[b]),
        p1.freeing ==> p2.shows(post[b]),
{
}

} // verus!
