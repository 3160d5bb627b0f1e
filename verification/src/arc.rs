//! Strong and weak handles over arena-allocated blocks.
//!
//! Every logical object lives in exactly one [`Slot`] of an [`Arena`]; a
//! handle is a stable index into that arena.  [`MyArc`] is the owning
//! (strong) handle: it is a [`Weak`] handle plus participation in the
//! block's `data_count`, so it guarantees the payload is present.
//! [`Weak`] only keeps the block itself allocated.  Each operation's
//! contract says exactly which [`protocol`](crate::protocol) step it
//! performs on the block, so the protocol's trace lemmas — the payload is
//! destroyed exactly once, the block is freed exactly once and only
//! afterwards, no resurrection — hold of any sequence of handle
//! operations.
//!
//! The arena is the one shared mutable resource.  Callers that spread
//! handles over several threads must serialize their access to it, for
//! instance behind [`SpinLock`](crate::spinlock::SpinLock); the payload
//! type must itself permit being moved to and shared with other threads.

use crate::protocol::{block_inv, enabled, initial_state, step, BlockState, Op};
use vstd::pervasive::unreached;
use vstd::prelude::*;

verus! {

/// One allocated block: the two counters and the payload slot.
struct Block<T> {
    data_count: usize,
    alloc_count: usize,
    payload: Option<T>,
}

/// A slot of the arena: either an allocated block, or memory that has
/// been given back.  Replacing a `Live` slot by `Freed` is the single
/// point where a block's storage is released.
enum Slot<T> {
    Live(Block<T>),
    Freed,
}

/// The arena that owns every allocation block.  A handle addresses its
/// block by index, so indices stay stable while blocks come and go.
pub struct Arena<T> {
    blocks: Vec<Slot<T>>,
}

/// A non-owning handle: keeps its block allocated, but not the payload.
pub struct Weak {
    id: usize,
}

/// An owning handle: a weak handle plus one unit of the block's
/// `data_count`, so the payload is present while this handle lives.
pub struct MyArc {
    weak: Weak,
}

/// The protocol state a slot stands for: a freed slot has both counters
/// at zero and no payload.
spec fn slot_state<T>(s: Slot<T>) -> BlockState<T> {
    match s {
        Slot::Live(b) => BlockState {
            data_count: b.data_count as nat,
            alloc_count: b.alloc_count as nat,
            payload: b.payload,
        },
        Slot::Freed => BlockState { data_count: 0, alloc_count: 0, payload: None },
    }
}

/// A well-formed slot: an allocated block has at least one handle and
/// satisfies the block invariant.
spec fn slot_ok<T>(s: Slot<T>) -> bool {
    match s {
        Slot::Live(b) => b.alloc_count >= 1 && block_inv(slot_state(s)),
        Slot::Freed => true,
    }
}

impl<T> View for Arena<T> {
    type V = Seq<BlockState<T>>;

    closed spec fn view(&self) -> Seq<BlockState<T>> {
        Seq::new(self.blocks@.len(), |i: int| slot_state(self.blocks@[i]))
    }
}

impl<T> Arena<T> {
    /// Every slot is well formed; in particular every block of the arena
    /// satisfies the protocol's block invariant, and a block whose
    /// `alloc_count` is positive is genuinely allocated.
    pub closed spec fn wf(self) -> bool {
        forall|i: int| 0 <= i < self.blocks@.len() ==> slot_ok(#[trigger] self.blocks@[i])
    }

    /// A well-formed arena's blocks all satisfy the block invariant.
    pub proof fn lemma_wf_blocks(self)
        requires
            self.wf(),
        ensures
            forall|i: int| 0 <= i < self@.len() ==> block_inv(#[trigger] self@[i]),
    {
    }

    /// An empty arena, holding no blocks yet.
    pub fn new() -> (a: Arena<T>)
        ensures
            a.wf(),
            a@ =~= Seq::<BlockState<T>>::empty(),
    {
        Arena { blocks: Vec::new() }
    }
}

/// Updating one slot to a well-formed value keeps the arena well formed
/// and updates the view pointwise.
proof fn lemma_arena_update<T>(pre: Arena<T>, post: Arena<T>, i: int)
    requires
        pre.wf(),
        0 <= i < pre.blocks@.len(),
        post.blocks@ == pre.blocks@.update(i, post.blocks@[i]),
        slot_ok(post.blocks@[i]),
    ensures
        post.wf(),
        post@ =~= pre@.update(i, slot_state(post.blocks@[i])),
{
    assert forall|j: int| 0 <= j < post.blocks@.len() implies slot_ok(
        #[trigger] post.blocks@[j],
    ) by {
        if j != i {
            assert(post.blocks@[j] == pre.blocks@[j]);
        }
    }
}

impl Weak {
    /// The index of the block this handle addresses.
    pub closed spec fn id(self) -> int {
        self.id as int
    }

    /// A live weak handle: its block exists, and because every strong
    /// handle's implicit weak is counted too, an explicit weak handle
    /// means `alloc_count` strictly exceeds `data_count`.
    pub open spec fn wf<T>(self, arena: Arena<T>) -> bool {
        &&& 0 <= self.id() < arena@.len()
        &&& arena@[self.id()].alloc_count > arena@[self.id()].data_count
    }

    /// Clone a weak handle: one more allocation handle on the same block,
    /// payload and data count untouched.
    pub fn clone<T>(&self, arena: &mut Arena<T>) -> (r: Weak)
        requires
            old(arena).wf(),
            self.wf(*old(arena)),
            enabled(old(arena)@[self.id()], Op::<T>::WeakClone),
        ensures
            final(arena).wf(),
            final(arena)@ =~= old(arena)@.update(
                self.id(),
                step(old(arena)@[self.id()], Op::<T>::WeakClone),
            ),
            r.id() == self.id(),
            r.wf(*final(arena)),
            self.wf(*final(arena)),
    {
        let i = self.id;
        let slot = &mut arena.blocks[i];
        match slot {
            Slot::Live(b) => {
                b.alloc_count = b.alloc_count + 1;
            },
            Slot::Freed => unreached(),
        }
        proof {
            lemma_arena_update(*old(arena), *arena, i as int);
            assert(slot_state(arena.blocks@[i as int]) == step(
                old(arena)@[i as int],
                Op::<T>::WeakClone,
            ));
        }
        Weak { id: i }
    }

    /// Drop a weak handle: one allocation handle fewer, and when it was
    /// the last handle of either kind the block's memory is given back —
    /// the same final step a strong handle's drop performs through its
    /// implicit weak handle.
    pub fn dispose<T>(self, arena: &mut Arena<T>)
        requires
            old(arena).wf(),
            self.wf(*old(arena)),
        ensures
            final(arena).wf(),
            final(arena)@ =~= old(arena)@.update(
                self.id(),
                step(old(arena)@[self.id()], Op::<T>::WeakDrop),
            ),
    {
        let i = self.id;
        let slot = &mut arena.blocks[i];
        let free_now: bool = match slot {
            Slot::Live(b) => {
                b.alloc_count = b.alloc_count - 1;
                b.alloc_count == 0
            },
            Slot::Freed => unreached(),
        };
        if free_now {
            *slot = Slot::Freed;
        }
        proof {
            lemma_arena_update(*old(arena), *arena, i as int);
            assert(slot_state(arena.blocks@[i as int]) == step(
                old(arena)@[i as int],
                Op::<T>::WeakDrop,
            ));
        }
    }

    /// Try to turn a weak handle into a strong one.  This succeeds, and
    /// bumps both counters, exactly when strong handles still exist;
    /// once the payload has been destroyed it returns nothing and leaves
    /// the block untouched — a dead payload is never resurrected.
    pub fn upgrade<T>(&self, arena: &mut Arena<T>) -> (r: Option<MyArc>)
        requires
            old(arena).wf(),
            self.wf(*old(arena)),
            enabled(old(arena)@[self.id()], Op::<T>::Upgrade),
        ensures
            final(arena).wf(),
            final(arena)@ =~= old(arena)@.update(
                self.id(),
                step(old(arena)@[self.id()], Op::<T>::Upgrade),
            ),
            r is Some <==> old(arena)@[self.id()].data_count > 0,
            r matches Some(h) ==> h.id() == self.id() && h.wf(*final(arena)),
            self.wf(*final(arena)),
    {
        let i = self.id;
        let slot = &mut arena.blocks[i];
        let got: bool = match slot {
            Slot::Live(b) => {
                if b.data_count == 0 {
                    false
                } else {
                    b.data_count = b.data_count + 1;
                    b.alloc_count = b.alloc_count + 1;
                    true
                }
            },
            Slot::Freed => unreached(),
        };
        proof {
            lemma_arena_update(*old(arena), *arena, i as int);
            assert(slot_state(arena.blocks@[i as int]) == step(
                old(arena)@[i as int],
                Op::<T>::Upgrade,
            ));
        }
        if got {
            Some(MyArc { weak: Weak { id: i } })
        } else {
            None
        }
    }
}

impl MyArc {
    /// The index of the block this handle addresses.
    pub closed spec fn id(self) -> int {
        self.weak.id as int
    }

    /// A live strong handle: its block exists and carries at least the
    /// unit of `data_count` this handle owns.
    pub open spec fn wf<T>(self, arena: Arena<T>) -> bool {
        &&& 0 <= self.id() < arena@.len()
        &&& arena@[self.id()].data_count >= 1
    }

    /// Construct the one allocation block of a new object, owned by the
    /// returned strong handle: both counters start at one and the payload
    /// is present.
    pub fn new<T>(arena: &mut Arena<T>, value: T) -> (r: MyArc)
        requires
            old(arena).wf(),
        ensures
            final(arena).wf(),
            final(arena)@ =~= old(arena)@.push(initial_state(value)),
            r.id() == old(arena)@.len(),
            r.wf(*final(arena)),
    {
        let id = arena.blocks.len();
        arena.blocks.push(
            Slot::Live(Block { data_count: 1, alloc_count: 1, payload: Some(value) }),
        );
        proof {
            assert forall|j: int| 0 <= j < arena.blocks@.len() implies slot_ok(
                #[trigger] arena.blocks@[j],
            ) by {
                if j != id {
                    assert(arena.blocks@[j] == old(arena).blocks@[j]);
                }
            }
            assert(arena@ =~= old(arena)@.push(initial_state(value)));
        }
        MyArc { weak: Weak { id } }
    }

    /// Clone a strong handle: one more strong handle, and through its
    /// implicit weak handle one more allocation handle, on the same block.
    pub fn clone<T>(&self, arena: &mut Arena<T>) -> (r: MyArc)
        requires
            old(arena).wf(),
            self.wf(*old(arena)),
            enabled(old(arena)@[self.id()], Op::<T>::StrongClone),
        ensures
            final(arena).wf(),
            final(arena)@ =~= old(arena)@.update(
                self.id(),
                step(old(arena)@[self.id()], Op::<T>::StrongClone),
            ),
            r.id() == self.id(),
            r.wf(*final(arena)),
            self.wf(*final(arena)),
    {
        let i = self.weak.id;
        let slot = &mut arena.blocks[i];
        match slot {
            Slot::Live(b) => {
                b.data_count = b.data_count + 1;
                b.alloc_count = b.alloc_count + 1;
            },
            Slot::Freed => unreached(),
        }
        proof {
            lemma_arena_update(*old(arena), *arena, i as int);
            assert(slot_state(arena.blocks@[i as int]) == step(
                old(arena)@[i as int],
                Op::<T>::StrongClone,
            ));
        }
        MyArc { weak: Weak { id: i } }
    }

    /// Drop a strong handle.  The payload is destroyed exactly when the
    /// last strong handle goes away; the handle's implicit weak handle is
    /// dropped with it, and the block is freed when it was the last
    /// handle of either kind.
    pub fn dispose<T>(self, arena: &mut Arena<T>)
        requires
            old(arena).wf(),
            self.wf(*old(arena)),
        ensures
            final(arena).wf(),
            final(arena)@ =~= old(arena)@.update(
                self.id(),
                step(old(arena)@[self.id()], Op::<T>::StrongDrop),
            ),
    {
        let i = self.weak.id;
        let slot = &mut arena.blocks[i];
        let free_now: bool = match slot {
            Slot::Live(b) => {
                let was = b.data_count;
                b.data_count = was - 1;
                if was == 1 {
                    b.payload = None;
                }
                b.alloc_count = b.alloc_count - 1;
                b.alloc_count == 0
            },
            Slot::Freed => unreached(),
        };
        if free_now {
            *slot = Slot::Freed;
        }
        proof {
            lemma_arena_update(*old(arena), *arena, i as int);
            assert(slot_state(arena.blocks@[i as int]) == step(
                old(arena)@[i as int],
                Op::<T>::StrongDrop,
            ));
        }
    }

    /// Mint a weak handle for a strong handle's block, leaving the strong
    /// handle in place: one more allocation handle, data count untouched.
    pub fn downgrade<T>(arc: &MyArc, arena: &mut Arena<T>) -> (w: Weak)
        requires
            old(arena).wf(),
            arc.wf(*old(arena)),
            enabled(old(arena)@[arc.id()], Op::<T>::WeakClone),
        ensures
            final(arena).wf(),
            final(arena)@ =~= old(arena)@.update(
                arc.id(),
                step(old(arena)@[arc.id()], Op::<T>::WeakClone),
            ),
            w.id() == arc.id(),
            w.wf(*final(arena)),
            arc.wf(*final(arena)),
    {
        let i = arc.weak.id;
        let slot = &mut arena.blocks[i];
        match slot {
            Slot::Live(b) => {
                b.alloc_count = b.alloc_count + 1;
            },
            Slot::Freed => unreached(),
        }
        proof {
            lemma_arena_update(*old(arena), *arena, i as int);
            assert(slot_state(arena.blocks@[i as int]) == step(
                old(arena)@[i as int],
                Op::<T>::WeakClone,
            ));
        }
        Weak { id: i }
    }

    /// Exclusive mutable access to the payload.  It is granted exactly
    /// when this strong handle is the only handle of either kind —
    /// `alloc_count == 1`, deliberately stricter than "only strong
    /// handle", since a live weak handle could still upgrade — and is
    /// refused otherwise, leaving the arena untouched.
    pub fn get_mut<'a, T>(arc: &MyArc, arena: &'a mut Arena<T>) -> (r: Option<&'a mut T>)
        requires
            old(arena).wf(),
            arc.wf(*old(arena)),
        ensures
            r is Some <==> old(arena)@[arc.id()].alloc_count == 1,
            r is None ==> final(arena)@ =~= old(arena)@ && final(arena).wf(),
            r matches Some(p) ==> *p == old(arena)@[arc.id()].payload->0 && final(arena).wf()
                && final(arena)@ =~= old(arena)@.update(
                arc.id(),
                step(old(arena)@[arc.id()], Op::<T>::Mutate(*final(p))),
            ),
    {
        let i = arc.weak.id;
        let slot = &mut arena.blocks[i];
        match slot {
            Slot::Live(b) => {
                if b.alloc_count == 1 {
                    match &mut b.payload {
                        Some(p) => Some(p),
                        None => unreached(),
                    }
                } else {
                    None
                }
            },
            Slot::Freed => unreached(),
        }
    }

    /// The number of live strong handles on this handle's block.
    pub fn strong_count<T>(&self, arena: &Arena<T>) -> (r: usize)
        requires
            arena.wf(),
            self.wf(*arena),
        ensures
            r as nat == arena@[self.id()].data_count,
    {
        match &arena.blocks[self.weak.id] {
            Slot::Live(b) => b.data_count,
            Slot::Freed => unreached(),
        }
    }

    /// The number of live handles of either kind on this handle's block:
    /// this handle's implicit weak handle, those of its strong siblings,
    /// and every explicit weak handle.
    pub fn handle_count<T>(&self, arena: &Arena<T>) -> (r: usize)
        requires
            arena.wf(),
            self.wf(*arena),
        ensures
            r as nat == arena@[self.id()].alloc_count,
    {
        match &arena.blocks[self.weak.id] {
            Slot::Live(b) => b.alloc_count,
            Slot::Freed => unreached(),
        }
    }

    /// Read the payload through a strong handle: while the handle lives,
    /// `data_count` is positive, so the payload is present.
    pub fn read<'a, T>(&self, arena: &'a Arena<T>) -> (r: &'a T)
        requires
            arena.wf(),
            self.wf(*arena),
        ensures
            arena@[self.id()].payload == Some(*r),
    {
        match &arena.blocks[self.weak.id] {
            Slot::Live(b) => match &b.payload {
                Some(v) => v,
                None => unreached(),
            },
            Slot::Freed => unreached(),
        }
    }
}

} // verus!
