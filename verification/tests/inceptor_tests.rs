use di::collection::Collection;
use di::inceptor::{ConstResult, Destructor, Inceptor};

fn ic_with_val() -> Inceptor<i32, bool, ConstResult<i32>> {
    Inceptor::new(ConstResult { value: 42 })
}

#[test]
fn should_register_and_destroy_first_arg() {
    let mut ic = ic_with_val();
    let (id, instances) = ic.incept_1(11).expect("failed to incept first arg");

    assert_eq!(instances.len(), 0);
    assert_eq!(ic.occupied_1(), 1);

    ic.destroy_1(id);

    assert_eq!(ic.occupied_1(), 0);
}

#[test]
fn should_register_and_destroy_second_arg() {
    let mut ic = ic_with_val();
    let (id, instances) = ic.incept_2(false).expect("failed to incept first arg");

    assert_eq!(instances.len(), 0);
    assert_eq!(ic.occupied_2(), 1);

    ic.destroy_2(id);

    assert_eq!(ic.occupied_2(), 0);
}

#[test]
fn should_create_and_destroy_instances_for_all_existing_items() {
    let mut ic = ic_with_val();
    let (_, _) = ic.incept_1(1).unwrap();
    let (_, _) = ic.incept_1(2).unwrap();
    let (id3, _) = ic.incept_1(3).unwrap();
    assert_eq!(ic.occupied_1(), 3);

    let (other_id, instances) = ic.incept_2(false).unwrap();
    assert_eq!(instances.len(), 3);
    assert_eq!(ic.occupied_2(), 1);

    // Destroying the parent hands its value back out.
    let removed = ic.destroy_1(id3);
    assert_eq!(ic.occupied_1(), 2);
    assert_eq!(3, removed.expect("expected arc refcount 1"));
    // The memory is freed.
    assert_eq!(ic.len_1(), 2);

    ic.destroy_2(other_id);
    assert_eq!(ic.occupied_2(), 0);

    // The memory is freed.
    assert_eq!(ic.len_2(), 0);
}

#[test]
fn bridging_result_goes_to_every_pair() {
    let mut ic = ic_with_val();
    let (_, _) = ic.incept_2(true).unwrap();
    let (_, _) = ic.incept_2(false).unwrap();

    let (_, instances) = ic.incept_1(7).unwrap();
    assert_eq!(instances, vec![42, 42]);
}

#[test]
fn slot_ids_are_reused_after_destroy() {
    let mut ic = ic_with_val();
    let (id0, _) = ic.incept_1(10).unwrap();
    let (id1, _) = ic.incept_1(11).unwrap();
    let (id2, _) = ic.incept_1(12).unwrap();
    assert_eq!((id0, id1, id2), (0, 1, 2));

    // Destroying a non-last slot keeps the table's size, but frees the
    // slot for reuse.
    ic.destroy_1(id1);
    assert_eq!(ic.len_1(), 3);
    assert_eq!(ic.occupied_1(), 2);

    let (id_reused, _) = ic.incept_1(13).unwrap();
    assert_eq!(id_reused, id1);

    // Destroying the last slot shrinks the table immediately.
    ic.destroy_1(id2);
    assert_eq!(ic.len_1(), 2);
}

#[test]
fn destructor_clears_its_slot() {
    let mut ic = ic_with_val();
    let (id, _) = ic.incept_1(5).unwrap();
    assert_eq!(ic.occupied_1(), 1);

    let guard = Destructor::new(1, id);
    guard.dispose(&mut ic);
    assert_eq!(ic.occupied_1(), 0);
}

#[test]
fn collection_keeps_insertion_order() {
    let mut c: Collection<i32> = Collection::new();
    c.push(5);
    c.push(13);
    assert_eq!(c.len(), 2);
    assert_eq!(c.iter().as_slice(), &[5, 13]);
}
