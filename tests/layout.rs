use garlic::geometry::{is_inside, Rect};
use garlic::slide::{SETTLE_THRESHOLD, TIME_SCALE};
use garlic::sortable::{get_drag_size, hovered_index, layout_items};
use garlic::{Direction, DragEvent, DragPosition, Order, Slide};

fn row_of(widths: &[u32], height: u32) -> Vec<Option<Rect>> {
    let mut left = 0i32;
    let mut rects = Vec::new();
    for &w in widths {
        rects.push(Some(Rect::new(left, 0, w, height)));
        left += w as i32;
    }
    rects
}

fn identity(n: usize) -> Order {
    let mut order = Order::new();
    order.resize(n);
    order
}

fn at(x: i32, y: i32) -> DragEvent {
    DragEvent { position: DragPosition::new(x, y), node: 0 }
}

#[test]
fn direction_predicates_and_names() {
    assert!(Direction::Column.is_vertical());
    assert!(Direction::Column.is_column());
    assert!(!Direction::Column.is_row());
    assert!(Direction::Row.is_horizontal());
    assert!(Direction::Row.is_row());
    assert!(!Direction::Row.is_vertical());
    assert_eq!(Direction::Column.name(), "column");
    assert_eq!(Direction::Row.name(), "row");
    assert_eq!(Direction::default(), Direction::Column);
}

#[test]
fn inside_excludes_left_and_top_edges_and_includes_right_and_bottom() {
    let rect = Rect::new(0, 0, 10, 10);
    assert!(!is_inside(&rect, 0, 5));
    assert!(is_inside(&rect, 10, 5));
    assert!(is_inside(&rect, 5, 10));
    assert!(!is_inside(&rect, 5, 0));
    assert!(!is_inside(&rect, 11, 5));
    assert!(is_inside(&rect, 1, 1));
}

#[test]
fn shared_edge_belongs_to_one_box_only() {
    let first = Rect::new(0, 0, 10, 10);
    let second = Rect::new(10, 0, 10, 10);
    assert!(is_inside(&first, 10, 5));
    assert!(!is_inside(&second, 10, 5));
}

#[test]
fn rect_edges_and_extents() {
    let rect = Rect::new(-5, 7, 20, 30);
    assert_eq!(rect.right(), 15);
    assert_eq!(rect.bottom(), 37);
    assert_eq!(rect.extent(Direction::Row), 20);
    assert_eq!(rect.extent(Direction::Column), 30);
    assert_eq!(rect.double_middle(Direction::Row), 10);
    assert_eq!(rect.double_middle(Direction::Column), 44);
}

#[test]
fn hovered_index_sweeps_monotonically_across_a_row() {
    let rects = row_of(&[100, 100, 100, 100], 50);
    let order = identity(4);
    let mut last = 0usize;
    for x in -10..=410 {
        let h = hovered_index(&at(x, 25), &rects, &order, None, Direction::Row);
        assert!(h >= last, "hover went back at x = {}", x);
        last = h;
    }
    assert_eq!(hovered_index(&at(-10, 25), &rects, &order, None, Direction::Row), 0);
    assert_eq!(hovered_index(&at(410, 25), &rects, &order, None, Direction::Row), 4);
}

#[test]
fn hovered_index_counts_the_middle_as_before_it() {
    let rects = row_of(&[100, 100, 100], 50);
    let order = identity(3);
    assert_eq!(hovered_index(&at(50, 0), &rects, &order, None, Direction::Row), 0);
    assert_eq!(hovered_index(&at(51, 0), &rects, &order, None, Direction::Row), 1);
    assert_eq!(hovered_index(&at(250, 0), &rects, &order, None, Direction::Row), 2);
    assert_eq!(hovered_index(&at(251, 0), &rects, &order, None, Direction::Row), 3);
}

#[test]
fn hovered_index_passes_over_the_dragged_slot() {
    let rects = row_of(&[100, 100, 100], 50);
    let order = identity(3);
    assert_eq!(hovered_index(&at(0, 0), &rects, &order, Some(0), Direction::Row), 1);
    assert_eq!(hovered_index(&at(120, 0), &rects, &order, Some(1), Direction::Row), 2);
}

#[test]
fn hovered_index_passes_over_unmeasured_items() {
    let mut rects = row_of(&[100, 100, 100], 50);
    rects[0] = None;
    let order = identity(3);
    assert_eq!(hovered_index(&at(0, 0), &rects, &order, None, Direction::Row), 1);
}

#[test]
fn hovered_index_follows_the_order_and_the_column_axis() {
    let rects = vec![
        Some(Rect::new(0, 0, 40, 10)),
        Some(Rect::new(0, 10, 40, 30)),
        Some(Rect::new(0, 40, 40, 20)),
    ];
    let order = Order::from_indices(vec![2, 0, 1]);
    // Slot 0 shows item 2, whose middle is at y = 50.
    assert_eq!(hovered_index(&at(500, 45), &rects, &order, None, Direction::Column), 0);
    assert_eq!(hovered_index(&at(500, 51), &rects, &order, None, Direction::Column), 3);
    assert_eq!(hovered_index(&at(-500, 50), &rects, &order, None, Direction::Column), 0);
}

#[test]
fn drag_size_is_the_extent_of_the_dragged_item() {
    let rects = vec![Some(Rect::new(0, 0, 10, 5)), Some(Rect::new(10, 0, 20, 15)), None];
    let order = Order::from_indices(vec![1, 0, 2]);
    assert_eq!(get_drag_size(Some(0), &order, &rects, Direction::Row), 20);
    assert_eq!(get_drag_size(Some(0), &order, &rects, Direction::Column), 15);
    assert_eq!(get_drag_size(Some(1), &order, &rects, Direction::Row), 10);
    assert_eq!(get_drag_size(Some(2), &order, &rects, Direction::Row), 0);
    assert_eq!(get_drag_size(Some(9), &order, &rects, Direction::Row), 0);
    assert_eq!(get_drag_size(None, &order, &rects, Direction::Row), 0);
}

#[test]
fn layout_places_a_row_side_by_side() {
    let rects = vec![
        Some(Rect::new(0, 0, 10, 5)),
        Some(Rect::new(0, 0, 20, 15)),
        Some(Rect::new(0, 0, 30, 10)),
    ];
    let order = identity(3);
    let mut positions = vec![(0i128, 0i128); 3];
    let size = layout_items(&order, &rects, &mut positions, (100, 50), Direction::Row, None, &None);
    assert_eq!(size, (60, 15));
    assert_eq!(positions, vec![(100, 50), (110, 50), (130, 50)]);
}

#[test]
fn layout_stacks_a_column_in_order() {
    let rects = vec![
        Some(Rect::new(0, 0, 10, 5)),
        Some(Rect::new(0, 0, 20, 15)),
        Some(Rect::new(0, 0, 30, 10)),
    ];
    let order = Order::from_indices(vec![2, 0, 1]);
    let mut positions = vec![(0i128, 0i128); 3];
    let size = layout_items(&order, &rects, &mut positions, (0, 0), Direction::Column, None, &None);
    assert_eq!(size, (30, 30));
    assert_eq!(positions, vec![(0, 10), (0, 15), (0, 0)]);
}

#[test]
fn layout_leaves_the_gap_at_the_dragged_slot() {
    let rects = vec![
        Some(Rect::new(0, 0, 10, 5)),
        Some(Rect::new(0, 0, 20, 5)),
        Some(Rect::new(0, 0, 30, 5)),
    ];
    let order = identity(3);
    let mut positions = vec![(0i128, 0i128); 3];
    let slide = Some(Slide::new(0));
    let size = layout_items(&order, &rects, &mut positions, (0, 0), Direction::Row, Some(0), &slide);
    assert_eq!(size, (60, 5));
    assert_eq!(positions, vec![(10, 0), (10, 0), (30, 0)]);
}

#[test]
fn layout_splits_the_gap_while_sliding() {
    let rects = vec![
        Some(Rect::new(0, 0, 10, 5)),
        Some(Rect::new(0, 0, 20, 5)),
        Some(Rect::new(0, 0, 30, 5)),
    ];
    let order = identity(3);
    let mut positions = vec![(0i128, 0i128); 3];
    let mut slide = Slide::new(0);
    slide.slide(2);
    slide.update();
    // A fifth of the gap has reached slot 2; the rest is still at slot 0.
    let size =
        layout_items(&order, &rects, &mut positions, (0, 0), Direction::Row, Some(0), &Some(slide));
    assert_eq!(size, (60, 5));
    assert_eq!(positions, vec![(8, 0), (8, 0), (30, 0)]);
}

#[test]
fn layout_skips_unmeasured_items_and_keeps_their_position() {
    let rects = vec![Some(Rect::new(0, 0, 10, 5)), None, Some(Rect::new(0, 0, 30, 8))];
    let order = identity(3);
    let mut positions = vec![(7i128, 7i128); 3];
    let size = layout_items(&order, &rects, &mut positions, (0, 0), Direction::Row, None, &None);
    assert_eq!(size, (40, 8));
    assert_eq!(positions, vec![(0, 0), (7, 7), (10, 0)]);
}

#[test]
fn slide_starts_at_rest_and_retargets_from_the_last_target() {
    let mut slide = Slide::new(2);
    assert_eq!(slide, Slide { to: 2, from: 2, time: 0 });
    assert_eq!(slide.get_offset(2, 40), 40);
    slide.slide(3);
    assert_eq!(slide, Slide { to: 3, from: 2, time: TIME_SCALE });
    assert_eq!(slide.get_offset(3, 40), 0);
    assert_eq!(slide.get_offset(2, 40), 40);
    assert_eq!(slide.get_offset(0, 40), 0);
    slide.slide(0);
    assert_eq!(slide.from, 3);
    assert_eq!(slide.to, 0);
}

#[test]
fn slide_offsets_split_the_extent() {
    let slide = Slide { to: 1, from: 0, time: TIME_SCALE / 4 };
    assert_eq!(slide.get_offset(1, 100), 75);
    assert_eq!(slide.get_offset(0, 100), 25);
    assert_eq!(slide.get_offset(2, 100), 0);
}

#[test]
fn slide_decays_by_four_fifths_each_frame() {
    let mut slide = Slide::new(0);
    slide.slide(1);
    assert!(slide.update());
    assert_eq!(slide.time, 800_000);
    assert!(slide.update());
    assert_eq!(slide.time, 640_000);
}

#[test]
fn slide_time_strictly_decreases_and_settles_within_forty_frames() {
    let mut slide = Slide::new(0);
    slide.slide(1);
    let mut frames = 0;
    let mut last = slide.time;
    while slide.update() {
        frames += 1;
        assert!(slide.time < last);
        last = slide.time;
        assert!(frames <= 40);
    }
    assert!(frames <= 40);
    assert!(last <= SETTLE_THRESHOLD);
    assert_eq!(slide.time, 0);
    assert!(!slide.update());
}

#[test]
fn empty_list_hovers_the_end_and_has_no_size() {
    let order = Order::new();
    let rects: Vec<Option<Rect>> = Vec::new();
    assert_eq!(hovered_index(&at(5, 5), &rects, &order, None, Direction::Row), 0);
    let mut positions: Vec<(i128, i128)> = Vec::new();
    let size = layout_items(&order, &rects, &mut positions, (3, 4), Direction::Column, None, &None);
    assert_eq!(size, (0, 0));
    assert!(positions.is_empty());
}

#[test]
fn column_layout_with_a_dragged_item_closes_up_behind_the_gap() {
    let rects = vec![
        Some(Rect::new(0, 0, 10, 5)),
        Some(Rect::new(0, 0, 20, 15)),
        Some(Rect::new(0, 0, 30, 10)),
    ];
    let order = identity(3);
    let mut positions = vec![(0i128, 0i128); 3];
    let mut slide = Slide::new(1);
    slide.slide(3);
    while slide.update() {}
    // The gap has settled at the end: the items after the dragged one close up.
    let size =
        layout_items(&order, &rects, &mut positions, (0, 0), Direction::Column, Some(1), &Some(slide));
    assert_eq!(size, (30, 30));
    assert_eq!(positions, vec![(0, 0), (0, 5), (0, 5)]);
}
