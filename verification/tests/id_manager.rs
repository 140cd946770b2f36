use tubez::unique_id_manager::{UniqueIdError, UniqueIdManager};

#[test]
fn does_not_emit_same_id_twice() {
    let mut idman = UniqueIdManager::new();
    assert_ne!(idman.take_id().unwrap(), idman.take_id().unwrap());
}

#[test]
fn errors_when_all_ids_exhausted() {
    let mut idman = UniqueIdManager::new();
    let mut ids = vec![];
    for _i in 0..=u16::MAX {
        ids.push(idman.take_id());
    }
    match idman.take_id() {
        Err(UniqueIdError::NoIdsAvailable) => (),
        Ok(_) => assert!(false, "UniqueIdError did not error when all ids were exhausted!"),
    }
}

#[test]
fn reuses_ids_after_they_are_dropped() {
    let mut idman = UniqueIdManager::new();
    let _id1 = idman.take_id().unwrap();
    let id2 = idman.take_id().unwrap();
    let id2_val = id2.val();
    let _id3 = idman.take_id().unwrap();
    idman.release(id2);
    let id4 = idman.take_id().unwrap();
    assert_eq!(id2_val, id4.val());
}

#[test]
fn only_emits_even_ids_for_even_policy() {
    let mut idman = UniqueIdManager::new_with_even_ids();
    let id1 = idman.take_id().unwrap();
    let id2 = idman.take_id().unwrap();
    let id3 = idman.take_id().unwrap();
    assert_eq!(id2.val() % 2, 0);
    assert_eq!(id1.val() + 2, id2.val());
    assert_eq!(id2.val() + 2, id3.val());
}

#[test]
fn only_emits_odd_ids_for_odd_policy() {
    let mut idman = UniqueIdManager::new_with_odd_ids();
    let id1 = idman.take_id().unwrap();
    let id2 = idman.take_id().unwrap();
    let id3 = idman.take_id().unwrap();
    assert_eq!(id2.val() % 2, 1);
    assert_eq!(id1.val() + 2, id2.val());
    assert_eq!(id2.val() + 2, id3.val());
}

#[test]
fn only_emits_sequential_ids_for_sequential_policy() {
    let mut idman = UniqueIdManager::new();
    let id1 = idman.take_id().unwrap();
    let id2 = idman.take_id().unwrap();
    let id3 = idman.take_id().unwrap();
    assert_eq!(id1.val(), 0);
    assert_eq!(id1.val() + 1, id2.val());
    assert_eq!(id2.val() + 1, id3.val());
}

#[test]
fn released_ids_are_reissued_in_release_order() {
    let mut idman = UniqueIdManager::new();
    let id0 = idman.take_id().unwrap();
    let id1 = idman.take_id().unwrap();
    let id2 = idman.take_id().unwrap();
    let (v0, v1, v2) = (id0.val(), id1.val(), id2.val());
    idman.release(id1);
    idman.release(id0);
    idman.release(id2);
    assert_eq!(idman.take_id().unwrap().val(), v1);
    assert_eq!(idman.take_id().unwrap().val(), v0);
    assert_eq!(idman.take_id().unwrap().val(), v2);
}

#[test]
fn take_transfers_release_responsibility() {
    let mut idman = UniqueIdManager::new();
    let mut id0 = idman.take_id().unwrap();
    let v0 = id0.val();
    let moved = id0.take();
    assert_eq!(moved.val(), v0);
    // Only the new handle may release; the id then comes back first.
    idman.release(moved);
    let _filler = idman.take_id().unwrap();
    assert_eq!(_filler.val(), v0);
}
