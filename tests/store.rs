use random_art_generator_backend::state::process_random_bytes;
use random_art_generator_backend::store::{ArtError, ArtMetadata, ArtPiece, ArtStore, Identity};

fn alice() -> Identity {
    Identity::new(vec![1, 2, 3])
}

fn bob() -> Identity {
    Identity::new(vec![9, 9])
}

fn create(store: &mut ArtStore, who: Identity, entropy: Result<Vec<u8>, String>) -> Result<u64, ArtError> {
    let id = store.allocate_id();
    store.finish_generation(id, who, entropy, 1_000 + id)
}

#[test]
fn two_creations_get_ids_zero_and_one() {
    let mut store = ArtStore::new();
    assert_eq!(create(&mut store, alice(), Ok(vec![0; 8])), Ok(0));
    assert_eq!(create(&mut store, alice(), Ok(vec![1; 8])), Ok(1));
    assert_eq!(store.get_metadata(), ArtMetadata { total_pieces: 2, next_id: 2 });
}

#[test]
fn failed_creation_uses_up_its_id() {
    let mut store = ArtStore::new();
    assert_eq!(create(&mut store, alice(), Ok(vec![0; 4])), Ok(0));
    let failed = create(&mut store, alice(), Err("no entropy".to_string()));
    assert_eq!(failed, Err(ArtError::QuantumStateError("no entropy".to_string())));
    assert_eq!(create(&mut store, alice(), Ok(vec![0; 4])), Ok(2));
    assert_eq!(store.get_art(1), Err(ArtError::NotFound));
    assert_eq!(store.get_metadata(), ArtMetadata { total_pieces: 2, next_id: 3 });
}

#[test]
fn created_piece_holds_its_fields() {
    let mut store = ArtStore::new();
    let bytes = vec![3u8, 0, 0, 0, 12, 0, 0, 0, 5];
    let id = create(&mut store, bob(), Ok(bytes.clone())).unwrap();
    let piece = store.get_art(id).unwrap();
    assert_eq!(piece.id, id);
    assert_eq!(piece.creator, bob());
    assert_eq!(piece.timestamp, 1_000);
    assert_eq!(piece.quantum_state, process_random_bytes(&bytes));
    assert_eq!(piece.quantum_state.superposition, vec![3u32, 12]);
    assert_eq!(piece.quantum_state.entanglement, vec![3usize, 2]);
}

#[test]
fn inserted_piece_reads_back_equal() {
    let mut store = ArtStore::new();
    let id = store.allocate_id();
    let piece = ArtPiece {
        id,
        creator: alice(),
        quantum_state: process_random_bytes(&vec![4, 3, 2, 1]),
        timestamp: 77,
    };
    store.insert_art(piece.clone());
    assert_eq!(store.get_art(id), Ok(piece));
}

#[test]
fn lookup_of_unallocated_id_fails() {
    let mut store = ArtStore::new();
    assert_eq!(store.get_art(0), Err(ArtError::NotFound));
    create(&mut store, alice(), Ok(vec![0; 4])).unwrap();
    assert_eq!(store.get_art(1), Err(ArtError::NotFound));
    assert_eq!(store.get_art(u64::MAX), Err(ArtError::NotFound));
}

#[test]
fn transfer_by_non_creator_fails() {
    let mut store = ArtStore::new();
    let id = create(&mut store, alice(), Ok(vec![0; 4])).unwrap();
    assert_eq!(store.transfer_ownership(id, &bob(), bob()), Err(ArtError::NotAuthorized));
    assert_eq!(store.get_art(id).unwrap().creator, alice());
}

#[test]
fn transfer_by_creator_changes_only_creator() {
    let mut store = ArtStore::new();
    let id = create(&mut store, alice(), Ok(vec![8, 0, 0, 0])).unwrap();
    let before = store.get_art(id).unwrap();
    assert_eq!(store.transfer_ownership(id, &alice(), bob()), Ok(()));
    let after = store.get_art(id).unwrap();
    assert_eq!(after.creator, bob());
    assert_eq!(after.id, before.id);
    assert_eq!(after.quantum_state, before.quantum_state);
    assert_eq!(after.timestamp, before.timestamp);
    assert_eq!(store.transfer_ownership(id, &alice(), alice()), Err(ArtError::NotAuthorized));
}

#[test]
fn transfer_of_missing_piece_fails() {
    let mut store = ArtStore::new();
    assert_eq!(store.transfer_ownership(3, &alice(), bob()), Err(ArtError::NotFound));
}

#[test]
fn delete_by_non_creator_fails() {
    let mut store = ArtStore::new();
    let id = create(&mut store, alice(), Ok(vec![0; 4])).unwrap();
    assert_eq!(store.delete_art(id, &bob()), Err(ArtError::NotAuthorized));
    assert!(store.get_art(id).is_ok());
    assert_eq!(store.get_metadata().total_pieces, 1);
}

#[test]
fn delete_by_creator_removes_piece() {
    let mut store = ArtStore::new();
    let id = create(&mut store, alice(), Ok(vec![0; 4])).unwrap();
    assert_eq!(store.delete_art(id, &alice()), Ok(()));
    assert_eq!(store.get_art(id), Err(ArtError::NotFound));
    assert_eq!(store.delete_art(id, &alice()), Err(ArtError::NotFound));
    assert_eq!(store.get_metadata(), ArtMetadata { total_pieces: 0, next_id: 1 });
}

#[test]
fn listing_returns_each_piece_by_increasing_id() {
    let mut store = ArtStore::new();
    assert!(store.get_all_art().is_empty());
    for k in 0..4u8 {
        create(&mut store, alice(), Ok(vec![k, 0, 0, 0])).unwrap();
    }
    store.delete_art(1, &alice()).unwrap();
    let all = store.get_all_art();
    let ids: Vec<u64> = all.iter().map(|p| p.id).collect();
    assert_eq!(ids, vec![0, 2, 3]);
    assert_eq!(all[1].quantum_state.superposition, vec![2u32]);
}

#[test]
fn interleaved_creations_store_under_their_own_ids() {
    let mut store = ArtStore::new();
    let first = store.allocate_id();
    let second = store.allocate_id();
    assert_eq!(store.finish_generation(second, bob(), Ok(vec![2, 0, 0, 0]), 5), Ok(1));
    assert_eq!(store.finish_generation(first, alice(), Ok(vec![1, 0, 0, 0]), 6), Ok(0));
    assert_eq!(store.get_art(0).unwrap().creator, alice());
    assert_eq!(store.get_art(1).unwrap().creator, bob());
}

#[test]
fn identities_compare_by_bytes() {
    assert!(alice().same_as(&Identity::new(vec![1, 2, 3])));
    assert!(!alice().same_as(&bob()));
    assert!(!alice().same_as(&Identity::new(vec![1, 2])));
    assert_eq!(bob().as_bytes(), &vec![9u8, 9]);
    assert!(store_can_allocate());
}

fn store_can_allocate() -> bool {
    ArtStore::new().can_allocate()
}
