//! The dual-counter protocol of one allocation block, as a transition
//! system over ghost states, together with the lemmas that hold of every
//! valid operation sequence: the payload is cleared exactly once, the block
//! is freed exactly once and only after the payload is gone, and a dead
//! payload can never be resurrected by an upgrade.

use vstd::prelude::*;

verus! {

/// Ceiling for either counter: an operation that would push a counter past
/// this bound is refused outright, so the counters can never wrap.
pub const COUNT_LIMIT: usize = usize::MAX / 2;

/// The ghost state of one allocation block.
///
/// `data_count` is the number of live strong handles: while it is positive
/// the payload is present.  `alloc_count` is the number of live handles of
/// either kind (every strong handle carries one implicit weak handle):
/// while it is positive the block itself is allocated.  A block with
/// `alloc_count == 0` is freed.
pub struct BlockState<T> {
    pub data_count: nat,
    pub alloc_count: nat,
    pub payload: Option<T>,
}

/// One operation on a block, performed by a thread that holds a handle.
pub enum Op<T> {
    /// Clone a strong handle: both counters grow.
    StrongClone,
    /// Drop a strong handle: `data_count` shrinks, the payload is cleared
    /// when it reaches zero, and the implicit weak handle is dropped too.
    StrongDrop,
    /// Clone a weak handle, or mint one by downgrading a strong handle.
    WeakClone,
    /// Drop an explicit weak handle; frees the block when `alloc_count`
    /// reaches zero.
    WeakDrop,
    /// Attempt to turn a weak handle into a strong one; succeeds exactly
    /// when the payload is still present, and otherwise changes nothing.
    Upgrade,
    /// Overwrite the payload; permitted only for the sole handle.
    Mutate(T),
}

/// The state of a freshly constructed block: one strong handle, one
/// allocation handle, payload present.
pub open spec fn initial_state<T>(value: T) -> BlockState<T> {
    BlockState { data_count: 1, alloc_count: 1, payload: Some(value) }
}

/// The block invariant: the payload is present exactly while strong
/// handles exist, and every strong handle's implicit weak handle is
/// counted, so `data_count` never exceeds `alloc_count`.
pub open spec fn block_inv<T>(s: BlockState<T>) -> bool {
    &&& s.payload is Some <==> s.data_count > 0
    &&& s.data_count <= s.alloc_count
}

/// Whether a holder of the right kind of handle may perform `op` on a
/// block in state `s`.  Holding a strong handle proves `data_count >= 1`;
/// holding an explicit weak handle proves `alloc_count > data_count`.
/// An operation that would push a counter past `COUNT_LIMIT` is refused.
pub open spec fn enabled<T>(s: BlockState<T>, op: Op<T>) -> bool {
    match op {
        Op::StrongClone => {
            &&& s.data_count >= 1
            &&& s.data_count < COUNT_LIMIT as nat
            &&& s.alloc_count < COUNT_LIMIT as nat
        },
        Op::StrongDrop => s.data_count >= 1,
        Op::WeakClone => s.alloc_count >= 1 && s.alloc_count < COUNT_LIMIT as nat,
        Op::WeakDrop => s.alloc_count > s.data_count,
        Op::Upgrade => {
            &&& s.alloc_count > s.data_count
            &&& (s.data_count > 0 ==> s.data_count < COUNT_LIMIT as nat
                && s.alloc_count < COUNT_LIMIT as nat)
        },
        Op::Mutate(_) => s.data_count >= 1 && s.alloc_count == 1,
    }
}

/// The effect of one operation on a block state.
pub open spec fn step<T>(s: BlockState<T>, op: Op<T>) -> BlockState<T> {
    match op {
        Op::StrongClone => BlockState {
            data_count: s.data_count + 1,
            alloc_count: s.alloc_count + 1,
            payload: s.payload,
        },
        Op::StrongDrop => BlockState {
            data_count: (s.data_count - 1) as nat,
            alloc_count: (s.alloc_count - 1) as nat,
            payload: if s.data_count == 1 { None } else { s.payload },
        },
        Op::WeakClone => BlockState { alloc_count: s.alloc_count + 1, ..s },
        Op::WeakDrop => BlockState { alloc_count: (s.alloc_count - 1) as nat, ..s },
        Op::Upgrade => if s.data_count > 0 {
            BlockState {
                data_count: s.data_count + 1,
                alloc_count: s.alloc_count + 1,
                payload: s.payload,
            }
        } else {
            s
        },
        Op::Mutate(v) => BlockState { payload: Some(v), ..s },
    }
}

/// The state after running a whole sequence of operations.
pub open spec fn run<T>(s: BlockState<T>, ops: Seq<Op<T>>) -> BlockState<T>
    decreases ops.len(),
{
    if ops.len() == 0 {
        s
    } else {
        run(step(s, ops[0]), ops.drop_first())
    }
}

/// A sequence of operations each of which was enabled when it ran.
pub open spec fn valid_trace<T>(s: BlockState<T>, ops: Seq<Op<T>>) -> bool
    decreases ops.len(),
{
    ops.len() == 0 || (enabled(s, ops[0]) && valid_trace(step(s, ops[0]), ops.drop_first()))
}

/// Whether `op`, run in state `s`, destroys the payload.
pub open spec fn clears_payload<T>(s: BlockState<T>, op: Op<T>) -> bool {
    s.payload is Some && step(s, op).payload is None
}

/// How many operations of a sequence destroy the payload.
pub open spec fn clear_count<T>(s: BlockState<T>, ops: Seq<Op<T>>) -> nat
    decreases ops.len(),
{
    if ops.len() == 0 {
        0
    } else {
        (if clears_payload(s, ops[0]) { 1nat } else { 0nat })
            + clear_count(step(s, ops[0]), ops.drop_first())
    }
}

/// Whether `op`, run in state `s`, frees the block.
pub open spec fn frees_block<T>(s: BlockState<T>, op: Op<T>) -> bool {
    s.alloc_count > 0 && step(s, op).alloc_count == 0
}

/// How many operations of a sequence free the block.
pub open spec fn free_count<T>(s: BlockState<T>, ops: Seq<Op<T>>) -> nat
    decreases ops.len(),
{
    if ops.len() == 0 {
        0
    } else {
        (if frees_block(s, ops[0]) { 1nat } else { 0nat })
            + free_count(step(s, ops[0]), ops.drop_first())
    }
}

/// A fresh block satisfies the invariant.
pub proof fn lemma_initial_inv<T>(value: T)
    ensures
        block_inv(initial_state(value)),
{
}

/// Every enabled operation preserves the block invariant.
pub proof fn lemma_step_preserves_inv<T>(s: BlockState<T>, op: Op<T>)
    requires
        block_inv(s),
        enabled(s, op),
    ensures
        block_inv(step(s, op)),
{
}

/// The invariant holds after any valid operation sequence.
pub proof fn lemma_run_preserves_inv<T>(s: BlockState<T>, ops: Seq<Op<T>>)
    requires
        block_inv(s),
        valid_trace(s, ops),
    ensures
        block_inv(run(s, ops)),
    decreases ops.len(),
{
    if ops.len() > 0 {
        lemma_step_preserves_inv(s, ops[0]);
        lemma_run_preserves_inv(step(s, ops[0]), ops.drop_first());
    }
}

/// Every prefix of a valid trace is itself a valid trace.
pub proof fn lemma_valid_trace_take<T>(s: BlockState<T>, ops: Seq<Op<T>>, n: int)
    requires
        valid_trace(s, ops),
        0 <= n <= ops.len(),
    ensures
        valid_trace(s, ops.take(n)),
    decreases ops.len(),
{
    if n > 0 && ops.len() > 0 {
        assert(ops.take(n)[0] == ops[0]);
        assert(ops.take(n).drop_first() =~= ops.drop_first().take(n - 1));
        lemma_valid_trace_take(step(s, ops[0]), ops.drop_first(), n - 1);
    }
}

/// Once the last strong handle is gone, no valid operation sequence ever
/// brings the data count back up or restores the payload: weak handles
/// that outlive the payload see `upgrade` fail forever.
pub proof fn lemma_data_zero_stays_zero<T>(s: BlockState<T>, ops: Seq<Op<T>>)
    requires
        block_inv(s),
        valid_trace(s, ops),
        s.data_count == 0,
    ensures
        run(s, ops).data_count == 0,
        run(s, ops).payload is None,
    decreases ops.len(),
{
    if ops.len() > 0 {
        lemma_step_preserves_inv(s, ops[0]);
        lemma_data_zero_stays_zero(step(s, ops[0]), ops.drop_first());
    }
}

/// A freed block admits no further operation at all, so a valid trace
/// starting from a freed block is empty: the block is freed at most once,
/// and nothing is ever done to freed memory.
pub proof fn lemma_freed_is_final<T>(s: BlockState<T>, ops: Seq<Op<T>>)
    requires
        block_inv(s),
        valid_trace(s, ops),
        s.alloc_count == 0,
    ensures
        ops.len() == 0,
{
    if ops.len() > 0 {
        assert(!enabled(s, ops[0]));
    }
}

/// The only operation that destroys the payload is the drop of the last
/// strong handle.
pub proof fn lemma_clear_is_last_strong_drop<T>(s: BlockState<T>, op: Op<T>)
    requires
        block_inv(s),
        enabled(s, op),
        clears_payload(s, op),
    ensures
        op is StrongDrop,
        s.data_count == 1,
        step(s, op).data_count == 0,
{
}

/// After the payload is gone, no further operation destroys it again.
pub proof fn lemma_no_clears_after_zero<T>(s: BlockState<T>, ops: Seq<Op<T>>)
    requires
        block_inv(s),
        valid_trace(s, ops),
        s.data_count == 0,
    ensures
        clear_count(s, ops) == 0,
    decreases ops.len(),
{
    if ops.len() > 0 {
        lemma_step_preserves_inv(s, ops[0]);
        lemma_no_clears_after_zero(step(s, ops[0]), ops.drop_first());
    }
}

/// Along any valid operation sequence the payload is destroyed at most
/// once.
pub proof fn lemma_payload_cleared_at_most_once<T>(s: BlockState<T>, ops: Seq<Op<T>>)
    requires
        block_inv(s),
        valid_trace(s, ops),
    ensures
        clear_count(s, ops) <= 1,
    decreases ops.len(),
{
    if ops.len() > 0 {
        let s1 = step(s, ops[0]);
        lemma_step_preserves_inv(s, ops[0]);
        if clears_payload(s, ops[0]) {
            lemma_no_clears_after_zero(s1, ops.drop_first());
        } else {
            lemma_payload_cleared_at_most_once(s1, ops.drop_first());
        }
    }
}

/// A valid operation sequence that takes the data count from positive to
/// zero destroys the payload exactly once: together with
/// [`lemma_payload_cleared_at_most_once`] and
/// [`lemma_clear_is_last_strong_drop`], the payload dies exactly when the
/// last strong handle is dropped, and never again.
pub proof fn lemma_payload_cleared_exactly_once<T>(s: BlockState<T>, ops: Seq<Op<T>>)
    requires
        block_inv(s),
        valid_trace(s, ops),
        s.data_count > 0,
        run(s, ops).data_count == 0,
    ensures
        clear_count(s, ops) == 1,
    decreases ops.len(),
{
    let s1 = step(s, ops[0]);
    lemma_step_preserves_inv(s, ops[0]);
    if s1.data_count == 0 {
        assert(clears_payload(s, ops[0]));
        lemma_no_clears_after_zero(s1, ops.drop_first());
    } else {
        assert(!clears_payload(s, ops[0]));
        lemma_payload_cleared_exactly_once(s1, ops.drop_first());
    }
}

/// The only operations that free the block are handle drops, they do so
/// exactly when the last handle of either kind goes away, and at that
/// moment the payload has already been destroyed: the block is never freed
/// before the payload.
pub proof fn lemma_free_is_last_drop<T>(s: BlockState<T>, op: Op<T>)
    requires
        block_inv(s),
        enabled(s, op),
        frees_block(s, op),
    ensures
        op is StrongDrop || op is WeakDrop,
        s.alloc_count == 1,
        step(s, op).payload is None,
        step(s, op).data_count == 0,
{
    lemma_step_preserves_inv(s, op);
}

/// Along any valid operation sequence the block is freed at most once.
pub proof fn lemma_freed_at_most_once<T>(s: BlockState<T>, ops: Seq<Op<T>>)
    requires
        block_inv(s),
        valid_trace(s, ops),
    ensures
        free_count(s, ops) <= 1,
    decreases ops.len(),
{
    if ops.len() > 0 {
        let s1 = step(s, ops[0]);
        lemma_step_preserves_inv(s, ops[0]);
        if frees_block(s, ops[0]) {
            lemma_freed_is_final(s1, ops.drop_first());
            assert(free_count(s1, ops.drop_first()) == 0);
        } else {
            lemma_freed_at_most_once(s1, ops.drop_first());
        }
    }
}

/// A valid operation sequence that takes the allocation count from
/// positive to zero frees the block exactly once.
pub proof fn lemma_freed_exactly_once<T>(s: BlockState<T>, ops: Seq<Op<T>>)
    requires
        block_inv(s),
        valid_trace(s, ops),
        s.alloc_count > 0,
        run(s, ops).alloc_count == 0,
    ensures
        free_count(s, ops) == 1,
    decreases ops.len(),
{
    let s1 = step(s, ops[0]);
    lemma_step_preserves_inv(s, ops[0]);
    if s1.alloc_count == 0 {
        assert(frees_block(s, ops[0]));
        lemma_freed_is_final(s1, ops.drop_first());
        assert(free_count(s1, ops.drop_first()) == 0);
    } else {
        assert(!frees_block(s, ops[0]));
        lemma_freed_exactly_once(s1, ops.drop_first());
    }
}

/// An upgrade attempted after the payload has been destroyed changes
/// nothing and yields no strong handle.
pub proof fn lemma_upgrade_no_resurrection<T>(s: BlockState<T>)
    requires
        block_inv(s),
        s.payload is None,
    ensures
        step(s, Op::<T>::Upgrade) == s,
        step(s, Op::<T>::Upgrade).data_count == 0,
{
}

/// Mutation of the payload is permitted only when the requesting strong
/// handle is the sole handle of either kind anywhere: both counters are
/// exactly one, so no other strong handle can read and no weak handle
/// can race an upgrade against the mutation.
pub proof fn lemma_mutate_needs_exclusive<T>(s: BlockState<T>, value: T)
    requires
        block_inv(s),
        enabled(s, Op::Mutate(value)),
    ensures
        s.alloc_count == 1,
        s.data_count == 1,
        s.payload is Some,
{
}

/// A block whose payload has been destroyed: no strong handle is left and
/// the payload slot is empty.
pub open spec fn payload_gone<T>(s: BlockState<T>) -> bool {
    s.data_count == 0 && s.payload is None
}

/// Once the payload has been destroyed it stays destroyed at every later
/// point of every valid operation sequence, so no upgrade anywhere along
/// the sequence ever returns a live strong handle.
pub proof fn lemma_payload_gone_forever<T>(s: BlockState<T>, ops: Seq<Op<T>>)
    requires
        block_inv(s),
        valid_trace(s, ops),
        s.data_count == 0,
    ensures
        forall|n: int| 0 <= n <= ops.len() ==> payload_gone(#[trigger] run(s, ops.take(n))),
{
    assert forall|n: int| 0 <= n <= ops.len() implies payload_gone(
        #[trigger] run(s, ops.take(n)),
    ) by {
        lemma_valid_trace_take(s, ops, n);
        lemma_data_zero_stays_zero(s, ops.take(n));
    }
}

/// The whole lifecycle of one object, from its construction on: along
/// any valid sequence of handle operations the payload is destroyed at
/// most once — exactly once if the last strong handle is dropped — the
/// block is freed at most once — exactly once if the last handle of
/// either kind is dropped — and a freed block has no payload left, so
/// destruction never comes after the free.
pub proof fn lemma_lifecycle<T>(value: T, ops: Seq<Op<T>>)
    requires
        valid_trace(initial_state(value), ops),
    ensures
        block_inv(run(initial_state(value), ops)),
        clear_count(initial_state(value), ops) <= 1,
        free_count(initial_state(value), ops) <= 1,
        run(initial_state(value), ops).data_count == 0 ==> clear_count(
            initial_state(value),
            ops,
        ) == 1,
        run(initial_state(value), ops).alloc_count == 0 ==> free_count(
            initial_state(value),
            ops,
        ) == 1,
        run(initial_state(value), ops).alloc_count == 0 ==> run(
            initial_state(value),
            ops,
        ).payload is None,
{
    let s0 = initial_state(value);
    lemma_initial_inv(value);
    lemma_run_preserves_inv(s0, ops);
    lemma_payload_cleared_at_most_once(s0, ops);
    lemma_freed_at_most_once(s0, ops);
    if run(s0, ops).data_count == 0 {
        lemma_payload_cleared_exactly_once(s0, ops);
    }
    if run(s0, ops).alloc_count == 0 {
        lemma_freed_exactly_once(s0, ops);
    }
}

} // verus!
