use std::collections::BTreeMap;
use std::collections::BTreeSet;

use world_id_deployer::keys::collect;
use world_id_deployer::keys::key_set;
use world_id_deployer::keys::sorted_elements;
use world_id_deployer::keys::sorted_keys;
use world_id_deployer::keys::sorted_pairs;
use world_id_deployer::reconcile::apply;
use world_id_deployer::reconcile::apply_change;
use world_id_deployer::reconcile::apply_changes;
use world_id_deployer::reconcile::diff;
use world_id_deployer::reconcile::diff_lists;
use world_id_deployer::reconcile::plan_changes;
use world_id_deployer::reconcile::retain;
use world_id_deployer::reconcile::Change;
use world_id_deployer::types::Address;

fn set_of(items: &[usize]) -> BTreeSet<usize> {
    items.iter().copied().collect()
}

fn address(byte: u8) -> Address {
    Address([byte; 20])
}

fn map_of(items: &[(usize, u8)]) -> BTreeMap<usize, Address> {
    items.iter().map(|(k, b)| (*k, address(*b))).collect()
}

#[test]
fn diff_of_overlapping_sets() {
    let d = diff(&set_of(&[1, 2, 3]), &set_of(&[2, 3, 4]));

    assert_eq!(d.to_create_or_update, vec![1]);
    assert_eq!(d.to_remove, vec![4]);
    assert_eq!(d.unchanged, vec![2, 3]);
    assert!(!d.is_settled());
}

#[test]
fn diff_of_empty_sets() {
    let d = diff(&set_of(&[]), &set_of(&[]));

    assert_eq!(d.to_create_or_update, Vec::<usize>::new());
    assert_eq!(d.to_remove, Vec::<usize>::new());
    assert_eq!(d.unchanged, Vec::<usize>::new());
    assert!(d.is_settled());
}

#[test]
fn diff_against_nothing_creates_everything() {
    let d = diff(&set_of(&[7, 3, 5]), &set_of(&[]));

    assert_eq!(d.to_create_or_update, vec![3, 5, 7]);
    assert_eq!(d.to_remove, Vec::<usize>::new());
    assert_eq!(d.unchanged, Vec::<usize>::new());
}

#[test]
fn diff_of_nothing_removes_everything() {
    let d = diff(&set_of(&[]), &set_of(&[9, 1]));

    assert_eq!(d.to_create_or_update, Vec::<usize>::new());
    assert_eq!(d.to_remove, vec![1, 9]);
    assert_eq!(d.unchanged, Vec::<usize>::new());
}

#[test]
fn diff_is_idempotent_once_applied() {
    let desired = set_of(&[1, 2, 3, 10]);
    let mut existing = set_of(&[2, 3, 4, 11]);

    let first = diff(&desired, &existing);
    apply(&mut existing, &first);
    assert_eq!(existing, desired);

    let second = diff(&desired, &existing);
    assert_eq!(second.to_create_or_update, Vec::<usize>::new());
    assert_eq!(second.to_remove, Vec::<usize>::new());
    assert_eq!(second.unchanged, vec![1, 2, 3, 10]);
    assert!(second.is_settled());
}

#[test]
fn diff_does_not_depend_on_input_order() {
    let a = diff_lists(&vec![3, 1, 2, 3, 1], &vec![4, 2, 3]);
    let b = diff_lists(&vec![1, 2, 3], &vec![3, 3, 2, 4, 4]);

    assert_eq!(a, b);
    assert_eq!(a.to_create_or_update, vec![1]);
    assert_eq!(a.to_remove, vec![4]);
    assert_eq!(a.unchanged, vec![2, 3]);
}

#[test]
fn keys_come_out_ascending() {
    let mut m: BTreeMap<usize, u8> = BTreeMap::new();
    m.insert(30, 0);
    m.insert(1, 0);
    m.insert(20, 0);

    assert_eq!(sorted_keys(&m), vec![1, 20, 30]);
    assert_eq!(sorted_elements(&set_of(&[5, 4, 6])), vec![4, 5, 6]);
    assert_eq!(key_set(&m), set_of(&[1, 20, 30]));
    assert_eq!(collect(&vec![2, 2, 1]), set_of(&[1, 2]));
}

#[test]
fn pairs_come_out_in_lexicographic_order() {
    let mut s: BTreeSet<(usize, usize)> = BTreeSet::new();
    s.insert((30, 1));
    s.insert((16, 100));
    s.insert((16, 10));
    s.insert((2, 7));

    assert_eq!(sorted_pairs(&s), vec![(2, 7), (16, 10), (16, 100), (30, 1)]);
}

#[test]
fn plan_creates_then_removes_in_ascending_order() {
    let desired = set_of(&[5, 1, 3]);
    let targets = map_of(&[(1, 0x11), (3, 0x33), (5, 0x55)]);
    let recorded = map_of(&[(3, 0x99), (8, 0x88), (7, 0x77)]);

    let plan = plan_changes(&desired, &targets, &recorded, false).unwrap();

    assert_eq!(
        plan,
        vec![
            Change::Create { key: 1, value: address(0x11) },
            Change::Create { key: 5, value: address(0x55) },
            Change::Remove { key: 7 },
            Change::Remove { key: 8 },
        ]
    );
}

#[test]
fn plan_updates_changed_values_only_when_comparing() {
    let desired = set_of(&[1, 2, 3]);
    let targets = map_of(&[(1, 0x11), (2, 0x22), (3, 0x33)]);
    let recorded = map_of(&[(1, 0x11), (2, 0x99)]);

    let compared = plan_changes(&desired, &targets, &recorded, true).unwrap();
    assert_eq!(
        compared,
        vec![
            Change::Update { key: 2, value: address(0x22) },
            Change::Create { key: 3, value: address(0x33) },
        ]
    );

    let not_compared = plan_changes(&desired, &targets, &recorded, false).unwrap();
    assert_eq!(
        not_compared,
        vec![Change::Create { key: 3, value: address(0x33) }]
    );
}

#[test]
fn plan_fails_on_the_least_key_without_target() {
    let desired = set_of(&[1, 2, 3, 4]);
    let targets = map_of(&[(1, 0x11)]);
    let recorded = map_of(&[(2, 0x22)]);

    assert_eq!(plan_changes(&desired, &targets, &recorded, false), Err(3));
    assert_eq!(plan_changes(&desired, &targets, &recorded, true), Err(2));
}

#[test]
fn plan_is_idempotent_once_applied() {
    let desired = set_of(&[1, 2, 3]);
    let targets = map_of(&[(1, 0x11), (2, 0x22), (3, 0x33)]);
    let mut recorded = map_of(&[(2, 0x99), (4, 0x44)]);

    let first = plan_changes(&desired, &targets, &recorded, true).unwrap();
    assert_eq!(
        first,
        vec![
            Change::Create { key: 1, value: address(0x11) },
            Change::Update { key: 2, value: address(0x22) },
            Change::Create { key: 3, value: address(0x33) },
            Change::Remove { key: 4 },
        ]
    );
    apply_changes(&mut recorded, &first);
    assert_eq!(recorded, targets);

    let second = plan_changes(&desired, &targets, &recorded, true).unwrap();
    assert_eq!(second, Vec::<Change>::new());
}

#[test]
fn changes_are_applied_one_by_one() {
    let mut recorded = map_of(&[(1, 0x11)]);

    apply_change(&mut recorded, &Change::Create { key: 2, value: address(0x22) });
    assert_eq!(recorded, map_of(&[(1, 0x11), (2, 0x22)]));

    apply_change(&mut recorded, &Change::Update { key: 1, value: address(0x12) });
    assert_eq!(recorded, map_of(&[(1, 0x12), (2, 0x22)]));

    apply_change(&mut recorded, &Change::Remove { key: 2 });
    assert_eq!(recorded, map_of(&[(1, 0x12)]));

    apply_change(&mut recorded, &Change::Remove { key: 9 });
    assert_eq!(recorded, map_of(&[(1, 0x12)]));
}

#[test]
fn retain_splits_by_wanted_keys() {
    let recorded = map_of(&[(1, 1), (2, 2), (3, 3), (9, 9)]);

    let (kept, dropped) = retain(recorded, &set_of(&[2, 3, 4]));

    assert_eq!(kept, map_of(&[(2, 2), (3, 3)]));
    assert_eq!(dropped, vec![1, 9]);
}
