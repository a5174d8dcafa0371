//! Properties of the store that relate several operations.
use vstd::prelude::*;

use crate::store::{ArtError, ArtPieceView, ArtStoreView};

verus! {

/// One operation on the store, as seen on its abstract value.
pub enum StoreOp {
    /// `allocate_id`.
    Allocate,
    /// Storing a piece: `insert_art`, or `finish_generation` on entropy.
    Insert(ArtPieceView),
    /// `transfer_ownership(id, requester, new_owner)`.
    Transfer(u64, Seq<u8>, Seq<u8>),
    /// `delete_art(id, requester)`.
    Delete(u64, Seq<u8>),
}

/// The store after `op`. An operation whose precondition does not hold
/// leaves the store as it is (a failed entropy fetch changes nothing either,
/// and so needs no operation of its own).
pub open spec fn apply(s: ArtStoreView, op: StoreOp) -> ArtStoreView {
    match op {
        StoreOp::Allocate => if s.next_id < u64::MAX {
            s.after_allocate()
        } else {
            s
        },
        StoreOp::Insert(p) => if p.id < s.next_id && !s.pieces.contains_key(p.id) {
            s.after_insert(p)
        } else {
            s
        },
        StoreOp::Transfer(id, requester, new_owner) => s.after_transfer(id, requester, new_owner),
        StoreOp::Delete(id, requester) => s.after_delete(id, requester),
    }
}

/// The store after the operations `ops`, in order.
pub open spec fn run(s: ArtStoreView, ops: Seq<StoreOp>) -> ArtStoreView
    decreases ops.len(),
{
    if ops.len() == 0 {
        s
    } else {
        apply(run(s, ops.drop_last()), ops.last())
    }
}

proof fn lemma_run_step(s: ArtStoreView, ops: Seq<StoreOp>, k: int)
    requires
        0 <= k < ops.len(),
    ensures
        run(s, ops.take(k + 1)) == apply(run(s, ops.take(k)), ops[k]),
{
    assert(ops.take(k + 1).drop_last() =~= ops.take(k));
}

proof fn lemma_next_id_grows(s: ArtStoreView, ops: Seq<StoreOp>, k: int, m: int)
    requires
        0 <= k <= m <= ops.len(),
    ensures
        run(s, ops.take(k)).next_id <= run(s, ops.take(m)).next_id,
    decreases m - k,
{
    if k < m {
        lemma_next_id_grows(s, ops, k, m - 1);
        lemma_run_step(s, ops, m - 1);
    }
}

/// Identifiers are handed out in strictly increasing order: the identifier
/// that a later `allocate_id` returns is greater than the one that an earlier
/// call returned, whatever happened in between (pieces stored, transferred or
/// deleted, or creations that failed after taking their identifier).
pub proof fn allocated_ids_increase(s: ArtStoreView, ops: Seq<StoreOp>, i: int, j: int)
    requires
        0 <= i < j < ops.len(),
        ops[i] is Allocate,
        ops[j] is Allocate,
        run(s, ops.take(i)).next_id < u64::MAX,
    ensures
        run(s, ops.take(i)).next_id < run(s, ops.take(j)).next_id,
{
    lemma_run_step(s, ops, i);
    lemma_next_id_grows(s, ops, i + 1, j);
}

/// A transfer asked for by anyone but the piece's creator fails with
/// `NotAuthorized` and leaves the store, and so the creator, unchanged.
pub proof fn transfer_by_non_creator_fails(
    s: ArtStoreView,
    id: u64,
    requester: Seq<u8>,
    new_owner: Seq<u8>,
)
    requires
        s.pieces.contains_key(id),
        s.pieces[id].creator != requester,
    ensures
        s.authorize(id, requester) == Err::<(), ArtError>(ArtError::NotAuthorized),
        s.after_transfer(id, requester, new_owner) == s,
        s.after_transfer(id, requester, new_owner).pieces[id].creator == s.pieces[id].creator,
{
}

/// A deletion asked for by anyone but the piece's creator fails with
/// `NotAuthorized` and leaves the piece in the store.
pub proof fn delete_by_non_creator_fails(s: ArtStoreView, id: u64, requester: Seq<u8>)
    requires
        s.pieces.contains_key(id),
        s.pieces[id].creator != requester,
    ensures
        s.authorize(id, requester) == Err::<(), ArtError>(ArtError::NotAuthorized),
        s.after_delete(id, requester) == s,
        s.after_delete(id, requester).pieces.contains_key(id),
{
}

/// Looking up an identifier that was never handed out fails with `NotFound`.
pub proof fn lookup_of_unallocated_id_fails(s: ArtStoreView, id: u64)
    requires
        s.wf(),
        s.next_id <= id,
    ensures
        s.lookup(id) == Err::<ArtPieceView, ArtError>(ArtError::NotFound),
{
}

/// Looking up a piece that was just deleted fails with `NotFound`.
pub proof fn lookup_after_delete_fails(s: ArtStoreView, id: u64, requester: Seq<u8>)
    requires
        s.authorize(id, requester) is Ok,
    ensures
        s.after_delete(id, requester).lookup(id) == Err::<ArtPieceView, ArtError>(
            ArtError::NotFound,
        ),
{
}

/// Looking up a piece right after storing it gives back the same piece.
pub proof fn lookup_after_insert(s: ArtStoreView, p: ArtPieceView)
    ensures
        s.after_insert(p).lookup(p.id) == Ok::<ArtPieceView, ArtError>(p),
{
}

} // verus!
