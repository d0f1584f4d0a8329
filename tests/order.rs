use garlic::Order;

fn order_of(v: &[usize]) -> Order {
    Order::from_indices(v.to_vec())
}

#[test]
fn new_order_is_empty() {
    let order = Order::new();
    assert_eq!(order.len(), 0);
    assert_eq!(order.indices(), &[] as &[usize]);
    assert_eq!(Order::default(), order);
}

#[test]
fn resize_grows_with_identity_slots() {
    let mut order = order_of(&[1, 0]);
    order.resize(4);
    assert_eq!(order.indices(), &[1, 0, 2, 3]);
}

#[test]
fn resize_to_same_length_changes_nothing() {
    let mut order = order_of(&[2, 0, 1]);
    order.resize(3);
    assert_eq!(order.indices(), &[2, 0, 1]);
}

#[test]
fn resize_truncates_without_renumbering() {
    let mut order = order_of(&[2, 0, 1, 3]);
    order.resize(2);
    assert_eq!(order.indices(), &[2, 0]);
}

#[test]
fn resize_up_and_back_restores_the_order() {
    let start = [3, 1, 0, 2];
    let mut order = order_of(&start);
    order.resize(4);
    order.resize(7);
    order.resize(4);
    assert_eq!(order.indices(), &start);
}

#[test]
fn resize_down_and_back_keeps_the_entries_in_range() {
    let mut order = order_of(&[3, 1, 0, 2]);
    order.resize(4);
    order.resize(2);
    order.resize(4);
    assert_eq!(order.indices(), &[3, 1, 2, 3]);
}

#[test]
fn swap_move_onto_itself_is_a_no_op() {
    for i in 0..6 {
        let mut order = order_of(&[2, 0, 3, 1]);
        order.swap_move(i, i);
        assert_eq!(order.indices(), &[2, 0, 3, 1]);
    }
}

#[test]
fn swap_move_forward_shifts_the_entries_between_left() {
    let mut order = order_of(&[0, 1, 2, 3]);
    order.swap_move(0, 3);
    assert_eq!(order.indices(), &[1, 2, 0, 3]);
}

#[test]
fn swap_move_backward_shifts_the_entries_between_right() {
    let mut order = order_of(&[0, 1, 2, 3]);
    order.swap_move(3, 0);
    assert_eq!(order.indices(), &[3, 0, 1, 2]);
}

#[test]
fn swap_move_to_the_end() {
    let mut order = order_of(&[0, 1, 2, 3]);
    order.swap_move(1, 4);
    assert_eq!(order.indices(), &[0, 2, 3, 1]);
}

#[test]
fn swap_move_to_the_next_slot_is_a_no_op() {
    let mut order = order_of(&[0, 1, 2, 3]);
    order.swap_move(2, 3);
    assert_eq!(order.indices(), &[0, 1, 2, 3]);
}

#[test]
fn swap_move_is_undone_by_the_move_back() {
    let mut order = order_of(&[4, 2, 0, 1, 3]);
    order.swap_move(0, 3);
    assert_eq!(order.indices(), &[2, 0, 4, 1, 3]);
    order.swap_move(2, 0);
    assert_eq!(order.indices(), &[4, 2, 0, 1, 3]);

    order.swap_move(4, 1);
    assert_eq!(order.indices(), &[4, 3, 2, 0, 1]);
    order.swap_move(1, 5);
    assert_eq!(order.indices(), &[4, 2, 0, 1, 3]);
}

#[test]
fn first_to_last_and_back_restores_a_single_slot() {
    let mut order = order_of(&[0]);
    order.swap_move(0, 0);
    order.swap_move(0, 0);
    assert_eq!(order.indices(), &[0]);
}

#[test]
fn first_to_last_and_back_rotates_three_slots() {
    let mut order = order_of(&[0, 1, 2]);
    order.swap_move(0, 2);
    assert_eq!(order.indices(), &[1, 0, 2]);
    order.swap_move(2, 0);
    assert_eq!(order.indices(), &[2, 1, 0]);
}

fn check_cyclic_apply(n: usize) {
    let indices: Vec<usize> = (0..n).map(|k| (k + 1) % n.max(1)).collect();
    let order = Order::from_indices(indices);
    let mut items: Vec<u64> = (0..n as u64).map(|k| k * 10).collect();
    order.apply(&mut items);
    let expected: Vec<u64> = (0..n).map(|j| (((j + n - 1) % n) as u64) * 10).collect();
    assert_eq!(items, expected);
}

#[test]
fn apply_on_empty_is_a_no_op() {
    let order = Order::new();
    let mut items: Vec<char> = Vec::new();
    order.apply(&mut items);
    assert!(items.is_empty());
}

#[test]
fn apply_cyclic_permutations() {
    for n in [1usize, 2, 5, 100] {
        check_cyclic_apply(n);
    }
}

#[test]
fn apply_sends_each_item_to_its_slot_entry() {
    let order = order_of(&[2, 0, 1]);
    let mut items = vec!['a', 'b', 'c'];
    order.apply(&mut items);
    assert_eq!(items, vec!['b', 'c', 'a']);
}

#[test]
fn apply_on_identity_keeps_items() {
    let mut order = Order::new();
    order.resize(4);
    let mut items = vec![String::from("w"), String::from("x"), String::from("y"), String::from("z")];
    order.apply(&mut items);
    assert_eq!(items, vec!["w", "x", "y", "z"]);
}

#[test]
fn position_finds_the_slot_of_an_item() {
    let order = order_of(&[2, 0, 1]);
    assert_eq!(order.position(0), Some(1));
    assert_eq!(order.position(2), Some(0));
    assert_eq!(order.position(5), None);
    assert_eq!(order.get(2), 1);
}

#[test]
fn clone_keeps_the_entries() {
    let order = order_of(&[1, 2, 0]);
    let copy = order.clone();
    assert_eq!(copy.indices(), &[1, 2, 0]);
}

#[test]
fn order_derefs_to_its_entries() {
    let order = order_of(&[1, 2, 0]);
    assert_eq!(&*order, &[1, 2, 0]);
    assert_eq!(order.iter().copied().max(), Some(2));
}
