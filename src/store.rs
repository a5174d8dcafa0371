//! The record store: art pieces under unique, increasing identifiers, with
//! mutation allowed to a piece's creator only.
use std::collections::HashMap;
use vstd::prelude::*;

use crate::state::{derived_state, process_random_bytes, QuantumState, QuantumStateView};

verus! {

broadcast use vstd::std_specs::hash::group_hash_axioms;

/// An authenticated caller identity, held as its raw bytes. Two identities
/// are the same caller exactly when their bytes are equal.
#[derive(Debug, PartialEq, Eq)]
pub struct Identity {
    bytes: Vec<u8>,
}

impl View for Identity {
    type V = Seq<u8>;

    closed spec fn view(&self) -> Seq<u8> {
        self.bytes@
    }
}

impl Identity {
    /// The identity with the given bytes.
    pub fn new(bytes: Vec<u8>) -> (r: Identity)
        ensures
            r@ == bytes@,
    {
        Identity { bytes }
    }

    /// The bytes of the identity.
    pub fn as_bytes(&self) -> (r: &Vec<u8>)
        ensures
            r@ == self@,
    {
        &self.bytes
    }

    /// Whether `self` and `other` denote the same caller.
    pub fn same_as(&self, other: &Identity) -> (r: bool)
        ensures
            r == (self@ == other@),
    {
        let a = &self.bytes;
        let b = &other.bytes;
        if a.len() != b.len() {
            return false;
        }
        let mut i: usize = 0;
        while i < a.len()
            invariant
                a@.len() == b@.len(),
                i <= a@.len(),
                a@ == self@,
                b@ == other@,
                forall|j: int| 0 <= j < i ==> a@[j] == b@[j],
            decreases a@.len() - i,
        {
            if a[i] != b[i] {
                return false;
            }
            i = i + 1;
        }
        assert(a@ =~= b@);
        true
    }
}

impl Clone for Identity {
    fn clone(&self) -> (r: Identity)
        ensures
            r@ == self@,
    {
        let bytes = self.bytes.clone();
        assert(bytes@ =~= self.bytes@);
        Identity { bytes }
    }
}


/// One generated art piece.
#[derive(Debug, PartialEq, Eq)]
pub struct ArtPiece {
    pub id: u64,
    pub creator: Identity,
    pub quantum_state: QuantumState,
    pub timestamp: u64,
}

/// Abstract value of an `ArtPiece`.
pub struct ArtPieceView {
    pub id: u64,
    pub creator: Seq<u8>,
    pub quantum_state: QuantumStateView,
    pub timestamp: u64,
}

impl View for ArtPiece {
    type V = ArtPieceView;

    open spec fn view(&self) -> ArtPieceView {
        ArtPieceView {
            id: self.id,
            creator: self.creator@,
            quantum_state: self.quantum_state@,
            timestamp: self.timestamp,
        }
    }
}

impl Clone for ArtPiece {
    fn clone(&self) -> (r: ArtPiece)
        ensures
            r@ == self@,
    {
        ArtPiece {
            id: self.id,
            creator: self.creator.clone(),
            quantum_state: self.quantum_state.clone(),
            timestamp: self.timestamp,
        }
    }
}

/// A snapshot of the store's size and of the next identifier to hand out.
#[derive(Clone, Copy, Debug, PartialEq, Eq, Structural)]
pub struct ArtMetadata {
    pub total_pieces: usize,
    pub next_id: u64,
}

/// Why an operation on the store failed.
#[derive(Debug, PartialEq, Eq)]
pub enum ArtError {
    /// No piece has the given identifier.
    NotFound,
    /// The requester is not the piece's creator.
    NotAuthorized,
    /// Fetching entropy failed; carries the provider's diagnostic.
    QuantumStateError(String),
    /// Any other failure.
    GeneralError(String),
}

/// Abstract value of the store: the pieces by identifier, and the next
/// identifier to hand out.
pub struct ArtStoreView {
    pub pieces: Map<u64, ArtPieceView>,
    pub next_id: u64,
}

impl ArtStoreView {
    /// Every piece is stored under its own identifier, and every stored
    /// identifier was handed out already.
    pub open spec fn wf(self) -> bool {
        forall|k: u64| #[trigger]
            self.pieces.contains_key(k) ==> self.pieces[k].id == k && k < self.next_id
    }

    /// The store after handing out the next identifier.
    pub open spec fn after_allocate(self) -> ArtStoreView {
        ArtStoreView { pieces: self.pieces, next_id: (self.next_id + 1) as u64 }
    }

    /// The store after storing `p` under its identifier.
    pub open spec fn after_insert(self, p: ArtPieceView) -> ArtStoreView {
        ArtStoreView { pieces: self.pieces.insert(p.id, p), next_id: self.next_id }
    }

    /// The outcome of looking up `id`.
    pub open spec fn lookup(self, id: u64) -> Result<ArtPieceView, ArtError> {
        if self.pieces.contains_key(id) {
            Ok(self.pieces[id])
        } else {
            Err(ArtError::NotFound)
        }
    }

    /// Whether `requester` may change the piece `id`: `NotFound` when there
    /// is no such piece, `NotAuthorized` when `requester` is not its creator.
    pub open spec fn authorize(self, id: u64, requester: Seq<u8>) -> Result<(), ArtError> {
        if !self.pieces.contains_key(id) {
            Err(ArtError::NotFound)
        } else if self.pieces[id].creator != requester {
            Err(ArtError::NotAuthorized)
        } else {
            Ok(())
        }
    }

    /// The store after `requester` asks to give piece `id` to `new_owner`:
    /// only the creator changes, and only when the request is authorized.
    pub open spec fn after_transfer(self, id: u64, requester: Seq<u8>, new_owner: Seq<u8>) -> ArtStoreView {
        if self.authorize(id, requester) is Ok {
            ArtStoreView {
                pieces: self.pieces.insert(id, ArtPieceView { creator: new_owner, ..self.pieces[id] }),
                next_id: self.next_id,
            }
        } else {
            self
        }
    }

    /// The store after `requester` asks to delete piece `id`.
    pub open spec fn after_delete(self, id: u64, requester: Seq<u8>) -> ArtStoreView {
        if self.authorize(id, requester) is Ok {
            ArtStoreView { pieces: self.pieces.remove(id), next_id: self.next_id }
        } else {
            self
        }
    }
}

/// The store itself.
pub struct ArtStore {
    pieces: HashMap<u64, ArtPiece>,
    next_id: u64,
}

impl View for ArtStore {
    type V = ArtStoreView;

    closed spec fn view(&self) -> ArtStoreView {
        ArtStoreView {
            pieces: self.pieces@.map_values(|p: ArtPiece| p@),
            next_id: self.next_id,
        }
    }
}

impl ArtStore {
    /// The store is well formed.
    pub open spec fn wf(&self) -> bool {
        self@.wf()
    }

    /// An empty store whose first identifier is 0.
    pub fn new() -> (r: ArtStore)
        ensures
            r.wf(),
            r@.pieces == Map::<u64, ArtPieceView>::empty(),
            r@.next_id == 0,
    {
        let r = ArtStore { pieces: HashMap::new(), next_id: 0 };
        assert(r@.pieces =~= Map::<u64, ArtPieceView>::empty());
        r
    }

    /// Whether an identifier is still left to hand out.
    pub fn can_allocate(&self) -> (r: bool)
        ensures
            r == (self@.next_id < u64::MAX),
    {
        self.next_id < u64::MAX
    }

    /// Hands out the next identifier and advances the counter by one. The
    /// identifier is never handed out again, whether or not a piece is ever
    /// stored under it.
    pub fn allocate_id(&mut self) -> (r: u64)
        requires
            old(self).wf(),
            old(self)@.next_id < u64::MAX,
        ensures
            final(self).wf(),
            r == old(self)@.next_id,
            final(self)@ == old(self)@.after_allocate(),
    {
        let r = self.next_id;
        self.next_id = self.next_id + 1;
        assert(self@.pieces == old(self)@.pieces);
        r
    }

    /// Stores `piece` under its identifier, which was handed out by
    /// `allocate_id` and holds no piece yet.
    pub fn insert_art(&mut self, piece: ArtPiece)
        requires
            old(self).wf(),
            piece.id < old(self)@.next_id,
            !old(self)@.pieces.contains_key(piece.id),
        ensures
            final(self).wf(),
            final(self)@ == old(self)@.after_insert(piece@),
    {
        let ghost p = piece@;
        self.pieces.insert(piece.id, piece);
        assert(self@.pieces =~= old(self)@.pieces.insert(p.id, p));
    }

    /// The piece stored under `id`, or `NotFound`.
    pub fn get_art(&self, id: u64) -> (r: Result<ArtPiece, ArtError>)
        requires
            self.wf(),
        ensures
            match r {
                Ok(p) => self@.lookup(id) == Ok::<ArtPieceView, ArtError>(p@),
                Err(e) => self@.lookup(id) == Err::<ArtPieceView, ArtError>(e),
            },
    {
        match self.pieces.get(&id) {
            Some(p) => Ok(p.clone()),
            None => Err(ArtError::NotFound),
        }
    }

    /// The number of stored pieces and the next identifier to hand out.
    pub fn get_metadata(&self) -> (r: ArtMetadata)
        ensures
            r.total_pieces == self@.pieces.len(),
            r.next_id == self@.next_id,
    {
        assert(self@.pieces.dom() =~= self.pieces@.dom());
        ArtMetadata { total_pieces: self.pieces.len(), next_id: self.next_id }
    }

    /// Gives piece `id` to `new_owner`, on behalf of `requester`. Fails with
    /// `NotFound` when there is no such piece and with `NotAuthorized` when
    /// `requester` is not its creator; the store is then unchanged.
    pub fn transfer_ownership(&mut self, id: u64, requester: &Identity, new_owner: Identity) -> (r:
        Result<(), ArtError>)
        requires
            old(self).wf(),
        ensures
            final(self).wf(),
            r == old(self)@.authorize(id, requester@),
            final(self)@ == old(self)@.after_transfer(id, requester@, new_owner@),
    {
        match self.pieces.get(&id) {
            None => Err(ArtError::NotFound),
            Some(p) => {
                if !p.creator.same_as(requester) {
                    return Err(ArtError::NotAuthorized);
                }
                match self.pieces.remove(&id) {
                    Some(mut piece) => {
                        let ghost before = piece@;
                        piece.creator = new_owner;
                        self.pieces.insert(id, piece);
                        assert(self@.pieces =~= old(self)@.pieces.insert(
                            id,
                            ArtPieceView { creator: new_owner@, ..before },
                        ));
                        Ok(())
                    },
                    None => Err(ArtError::NotFound),
                }
            },
        }
    }

    /// Deletes piece `id` on behalf of `requester`. Fails with `NotFound`
    /// when there is no such piece and with `NotAuthorized` when `requester`
    /// is not its creator; the store is then unchanged.
    pub fn delete_art(&mut self, id: u64, requester: &Identity) -> (r: Result<(), ArtError>)
        requires
            old(self).wf(),
        ensures
            final(self).wf(),
            r == old(self)@.authorize(id, requester@),
            final(self)@ == old(self)@.after_delete(id, requester@),
    {
        match self.pieces.get(&id) {
            None => Err(ArtError::NotFound),
            Some(p) => {
                if !p.creator.same_as(requester) {
                    return Err(ArtError::NotAuthorized);
                }
                self.pieces.remove(&id);
                assert(self@.pieces =~= old(self)@.pieces.remove(id));
                Ok(())
            },
        }
    }

    /// Completes the creation of piece `id`, an identifier handed out by
    /// `allocate_id`, once the entropy fetch has answered. On entropy, the
    /// piece of `creator` with the state derived from it and `timestamp` is
    /// stored and `id` returned. On a fetch failure nothing is stored, the
    /// failure is returned as `QuantumStateError` with its message, and `id`
    /// stays used.
    pub fn finish_generation(
        &mut self,
        id: u64,
        creator: Identity,
        entropy: Result<Vec<u8>, String>,
        timestamp: u64,
    ) -> (r: Result<u64, ArtError>)
        requires
            old(self).wf(),
            id < old(self)@.next_id,
            !old(self)@.pieces.contains_key(id),
        ensures
            final(self).wf(),
            match entropy {
                Ok(bytes) => {
                    &&& r == Ok::<u64, ArtError>(id)
                    &&& final(self)@ == old(self)@.after_insert(
                        ArtPieceView {
                            id,
                            creator: creator@,
                            quantum_state: derived_state(bytes@),
                            timestamp,
                        },
                    )
                },
                Err(msg) => {
                    &&& r == Err::<u64, ArtError>(ArtError::QuantumStateError(msg))
                    &&& final(self)@ == old(self)@
                },
            },
    {
        match entropy {
            Ok(bytes) => {
                let quantum_state = process_random_bytes(&bytes);
                let piece = ArtPiece { id, creator, quantum_state, timestamp };
                self.insert_art(piece);
                Ok(id)
            },
            Err(msg) => Err(ArtError::QuantumStateError(msg)),
        }
    }

    /// Every stored piece, once each, in increasing order of identifier.
    pub fn get_all_art(&self) -> (r: Vec<ArtPiece>)
        requires
            self.wf(),
        ensures
            forall|j: int|
                0 <= j < r@.len() ==> self@.pieces.contains_key(#[trigger] r@[j].id)
                    && self@.pieces[r@[j].id] == r@[j]@,
            forall|j: int, k: int| 0 <= j < k < r@.len() ==> r@[j].id < r@[k].id,
            forall|id: u64|
                #[trigger] self@.pieces.contains_key(id) ==> exists|j: int|
                    0 <= j < r@.len() && r@[j].id == id,
    {
        let mut r: Vec<ArtPiece> = Vec::new();
        let mut i: u64 = 0;
        while i < self.next_id
            invariant
                self.wf(),
                i <= self@.next_id,
                forall|j: int|
                    0 <= j < r@.len() ==> self@.pieces.contains_key(#[trigger] r@[j].id)
                        && self@.pieces[r@[j].id] == r@[j]@ && r@[j].id < i,
                forall|j: int, k: int| 0 <= j < k < r@.len() ==> r@[j].id < r@[k].id,
                forall|id: u64|
                    #[trigger] self@.pieces.contains_key(id) && id < i ==> exists|j: int|
                        0 <= j < r@.len() && r@[j].id == id,
            decreases self@.next_id - i,
        {
            match self.pieces.get(&i) {
                Some(p) => {
                    assert(self@.pieces.contains_key(i));
                    assert(self@.pieces[i] == p@);
                    let c = p.clone();
                    assert(c.id == i);
                    let ghost prev = r@;
                    r.push(c);
                    assert(forall|j: int| 0 <= j < prev.len() ==> r@[j] == prev[j]);
                    assert forall|id: u64| #[trigger]
                        self@.pieces.contains_key(id) && id < i + 1 implies exists|j: int|
                        0 <= j < r@.len() && r@[j].id == id by {
                        if id == i {
                            assert(r@[prev.len() as int].id == id);
                        } else {
                            let j = choose|j: int| 0 <= j < prev.len() && prev[j].id == id;
                            assert(r@[j].id == id);
                        }
                    }
                },
                None => {},
            }
            i = i + 1;
        }
        r
    }
}

} // verus!
