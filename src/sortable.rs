use vstd::prelude::*;

use crate::direction::Direction;
use crate::drag::{DragEvent, DragPosition};
use crate::geometry::Rect;
use crate::order::{
    is_permutation, lemma_grow_permutation, lemma_moved_permutation, moved, resized, Order,
};
use crate::slide::{tick, Slide, SETTLE_THRESHOLD, TIME_SCALE};

verus! {

/// Every entry of `order` names one of the `n` measured items.
pub open spec fn entries_below(order: Seq<usize>, n: int) -> bool {
    forall|i: int| 0 <= i < order.len() ==> #[trigger] order[i] < n
}

/// The pointer's coordinate along `direction`.
pub open spec fn axis_coordinate(position: DragPosition, direction: Direction) -> int {
    match direction {
        Direction::Row => position.x as int,
        Direction::Column => position.y as int,
    }
}

/// Slot `i` can take the hover: it is not the dragged slot, its item is
/// measured, and the pointer lies at or before its middle.
pub open spec fn hover_candidate(
    pointer: int,
    rects: Seq<Option<Rect>>,
    order: Seq<usize>,
    drag: Option<usize>,
    direction: Direction,
    i: int,
) -> bool {
    &&& drag != Some(i as usize)
    &&& rects[order[i] as int] is Some
    &&& 2 * pointer <= rects[order[i] as int]->Some_0.double_middle_spec(direction)
}

/// The first candidate slot from `i` on, or the slot count when there is
/// none.
pub open spec fn first_hovered(
    pointer: int,
    rects: Seq<Option<Rect>>,
    order: Seq<usize>,
    drag: Option<usize>,
    direction: Direction,
    i: int,
) -> int
    decreases order.len() - i,
{
    if i < 0 || i >= order.len() {
        order.len() as int
    } else if hover_candidate(pointer, rects, order, drag, direction, i) {
        i
    } else {
        first_hovered(pointer, rects, order, drag, direction, i + 1)
    }
}

/// The slot that a dragged item is put before when the pointer is at
/// `pointer`: the first slot, other than the dragged one, whose middle lies
/// at or beyond the pointer; the slot count means "at the end".
pub open spec fn hovered_slot(
    pointer: int,
    rects: Seq<Option<Rect>>,
    order: Seq<usize>,
    drag: Option<usize>,
    direction: Direction,
) -> int {
    first_hovered(pointer, rects, order, drag, direction, 0)
}

/// The slot the pointer of `event` hovers, as `hovered_slot` says. A slot
/// whose item is not measured is passed over.
pub fn hovered_index(
    event: &DragEvent,
    rects: &[Option<Rect>],
    order: &Order,
    drag: Option<usize>,
    direction: Direction,
) -> (r: usize)
    requires
        entries_below(order@, rects@.len() as int),
    ensures
        r == hovered_slot(
            axis_coordinate(event.position, direction),
            rects@,
            order@,
            drag,
            direction,
        ),
        r <= order@.len(),
{
    let ghost pointer = axis_coordinate(event.position, direction);
    let position: i64 = match direction {
        Direction::Row => event.position.x as i64,
        Direction::Column => event.position.y as i64,
    };
    let n = order.len();
    let mut i: usize = 0;
    while i < n
        invariant
            n == order@.len(),
            i <= n,
            position == pointer,
            pointer == axis_coordinate(event.position, direction),
            i32::MIN <= position <= i32::MAX,
            entries_below(order@, rects@.len() as int),
            first_hovered(pointer, rects@, order@, drag, direction, 0) == first_hovered(
                pointer,
                rects@,
                order@,
                drag,
                direction,
                i as int,
            ),
        decreases n - i,
    {
        let o = order.get(i);
        let skip = match drag {
            Some(d) => d == i,
            None => false,
        };
        if !skip {
            if let Some(rect) = rects[o] {
                if 2 * position <= rect.double_middle(direction) {
                    assert(hover_candidate(pointer, rects@, order@, drag, direction, i as int));
                    assert(first_hovered(pointer, rects@, order@, drag, direction, i as int)
                        == i as int);
                    return i;
                }
            }
        }
        i = i + 1;
    }
    n
}

/// The hovered slot never goes back as the pointer moves forward along the
/// axis.
pub proof fn lemma_hovered_monotonic(
    p: int,
    q: int,
    rects: Seq<Option<Rect>>,
    order: Seq<usize>,
    drag: Option<usize>,
    direction: Direction,
)
    requires
        p <= q,
        entries_below(order, rects.len() as int),
    ensures
        hovered_slot(p, rects, order, drag, direction) <= hovered_slot(
            q,
            rects,
            order,
            drag,
            direction,
        ),
{
    lemma_first_hovered_monotonic(p, q, rects, order, drag, direction, 0);
}

proof fn lemma_first_hovered_monotonic(
    p: int,
    q: int,
    rects: Seq<Option<Rect>>,
    order: Seq<usize>,
    drag: Option<usize>,
    direction: Direction,
    i: int,
)
    requires
        p <= q,
        0 <= i,
    ensures
        first_hovered(p, rects, order, drag, direction, i) <= first_hovered(
            q,
            rects,
            order,
            drag,
            direction,
            i,
        ),
        i <= order.len() ==> i <= first_hovered(p, rects, order, drag, direction, i),
    decreases order.len() - i,
{
    if i < order.len() {
        lemma_first_hovered_monotonic(p, q, rects, order, drag, direction, i + 1);
    }
}

/// At the very start of the list, at or before the middle of a first slot
/// that is measured and not dragged, the hover is slot 0; beyond the middle
/// of every slot it is the slot count, the end of the list.
pub proof fn lemma_hovered_ends(
    pointer: int,
    rects: Seq<Option<Rect>>,
    order: Seq<usize>,
    drag: Option<usize>,
    direction: Direction,
)
    requires
        entries_below(order, rects.len() as int),
    ensures
        order.len() > 0 && hover_candidate(pointer, rects, order, drag, direction, 0)
            ==> hovered_slot(pointer, rects, order, drag, direction) == 0,
        (forall|i: int|
            0 <= i < order.len() ==> #[trigger] rects[order[i] as int] is Some ==> 2 * pointer
                > rects[order[i] as int]->Some_0.double_middle_spec(direction)) ==> hovered_slot(
            pointer,
            rects,
            order,
            drag,
            direction,
        ) == order.len(),
{
    if forall|i: int|
        0 <= i < order.len() ==> #[trigger] rects[order[i] as int] is Some ==> 2 * pointer
            > rects[order[i] as int]->Some_0.double_middle_spec(direction) {
        lemma_no_candidate_reaches_end(pointer, rects, order, drag, direction, 0);
    }
}

proof fn lemma_no_candidate_reaches_end(
    pointer: int,
    rects: Seq<Option<Rect>>,
    order: Seq<usize>,
    drag: Option<usize>,
    direction: Direction,
    i: int,
)
    requires
        0 <= i,
        forall|j: int|
            0 <= j < order.len() ==> #[trigger] rects[order[j] as int] is Some ==> 2 * pointer
                > rects[order[j] as int]->Some_0.double_middle_spec(direction),
    ensures
        first_hovered(pointer, rects, order, drag, direction, i) == order.len(),
    decreases order.len() - i,
{
    if i < order.len() {
        assert(!hover_candidate(pointer, rects, order, drag, direction, i));
        lemma_no_candidate_reaches_end(pointer, rects, order, drag, direction, i + 1);
    }
}

/// The extent, along `direction`, of the item in the dragged slot; zero when
/// nothing is dragged or the item is not measured.
pub open spec fn drag_size_spec(
    drag: Option<usize>,
    order: Seq<usize>,
    rects: Seq<Option<Rect>>,
    direction: Direction,
) -> int {
    match drag {
        Some(slot) => if slot < order.len() && rects[order[slot as int] as int] is Some {
            rects[order[slot as int] as int]->Some_0.extent_spec(direction)
        } else {
            0
        },
        None => 0,
    }
}

/// The extent of the dragged item along `direction`, as `drag_size_spec`
/// says.
pub fn get_drag_size(
    drag: Option<usize>,
    order: &Order,
    rects: &[Option<Rect>],
    direction: Direction,
) -> (r: u32)
    requires
        entries_below(order@, rects@.len() as int),
    ensures
        r == drag_size_spec(drag, order@, rects@, direction),
{
    match drag {
        Some(slot) => {
            if slot < order.len() {
                match rects[order.get(slot)] {
                    Some(rect) => rect.extent(direction),
                    None => 0,
                }
            } else {
                0
            }
        },
        None => 0,
    }
}

/// Where a layout pass stands after some slots: the cursor, the size of the
/// container so far, and each item's position.
pub struct LayoutProgress {
    pub x: int,
    pub y: int,
    pub width: int,
    pub height: int,
    pub positions: Seq<(i128, i128)>,
}

/// The container's size grown by one item's box: in a row the widths add
/// up and the height is the largest, in a column the other way round.
pub open spec fn expanded(width: int, height: int, rect: Rect, direction: Direction) -> (int, int) {
    match direction {
        Direction::Row => (width + rect.width, if height >= rect.height {
            height
        } else {
            rect.height as int
        }),
        Direction::Column => (if width >= rect.width {
            width
        } else {
            rect.width as int
        }, height + rect.height),
    }
}

/// Grows the container's size by one item's box, as `expanded` says.
pub fn expand_size(width: &mut u128, height: &mut u128, rect: &Rect, direction: Direction)
    requires
        *old(width) + rect.width <= u128::MAX,
        *old(height) + rect.height <= u128::MAX,
    ensures
        (*final(width) as int, *final(height) as int) == expanded(
            *old(width) as int,
            *old(height) as int,
            *rect,
            direction,
        ),
{
    match direction {
        Direction::Row => {
            *width = *width + rect.width as u128;
            if *height < rect.height as u128 {
                *height = rect.height as u128;
            }
        },
        Direction::Column => {
            if *width < rect.width as u128 {
                *width = rect.width as u128;
            }
            *height = *height + rect.height as u128;
        },
    }
}

/// One slot of the layout pass. An item that is not measured is passed
/// over. Otherwise the container grows by its box, the cursor moves by the
/// slide's push for this slot, the item is placed at the cursor, and the
/// cursor then moves past the item, unless it is the dragged one, which is
/// drawn at the pointer instead.
pub open spec fn layout_step(
    p: LayoutProgress,
    i: int,
    order: Seq<usize>,
    rects: Seq<Option<Rect>>,
    direction: Direction,
    drag: Option<usize>,
    slide: Option<Slide>,
    drag_size: int,
) -> LayoutProgress {
    let o = order[i] as int;
    match rects[o] {
        None => p,
        Some(rect) => {
            let size = expanded(p.width, p.height, rect, direction);
            let push = match slide {
                Some(s) => s.offset_spec(i, drag_size),
                None => 0,
            };
            let advance = if drag == Some(i as usize) {
                0
            } else {
                rect.extent_spec(direction)
            };
            match direction {
                Direction::Row => LayoutProgress {
                    x: p.x + push + advance,
                    y: p.y,
                    width: size.0,
                    height: size.1,
                    positions: p.positions.update(o, ((p.x + push) as i128, p.y as i128)),
                },
                Direction::Column => LayoutProgress {
                    x: p.x,
                    y: p.y + push + advance,
                    width: size.0,
                    height: size.1,
                    positions: p.positions.update(o, (p.x as i128, (p.y + push) as i128)),
                },
            }
        },
    }
}

/// The layout pass over the first `k` slots, starting at `origin` with an
/// empty container and the previous positions.
pub open spec fn layout_upto(
    k: int,
    origin: (i64, i64),
    positions: Seq<(i128, i128)>,
    order: Seq<usize>,
    rects: Seq<Option<Rect>>,
    direction: Direction,
    drag: Option<usize>,
    slide: Option<Slide>,
) -> LayoutProgress
    decreases k,
{
    if k <= 0 {
        LayoutProgress { x: origin.0 as int, y: origin.1 as int, width: 0, height: 0, positions }
    } else {
        layout_step(
            layout_upto(k - 1, origin, positions, order, rects, direction, drag, slide),
            k - 1,
            order,
            rects,
            direction,
            drag,
            slide,
            drag_size_spec(drag, order, rects, direction),
        )
    }
}

/// The largest sum of extents that `k` slots can reach.
pub open spec fn extent_budget(k: int) -> int {
    k * 0x1_0000_0000
}

proof fn lemma_layout_bounds(
    k: int,
    origin: (i64, i64),
    positions: Seq<(i128, i128)>,
    order: Seq<usize>,
    rects: Seq<Option<Rect>>,
    direction: Direction,
    drag: Option<usize>,
    slide: Option<Slide>,
)
    requires
        0 <= k <= order.len(),
        entries_below(order, rects.len() as int),
        positions.len() == rects.len(),
        slide is Some ==> slide->Some_0.wf(),
    ensures
        ({
            let p = layout_upto(k, origin, positions, order, rects, direction, drag, slide);
            &&& origin.0 <= p.x <= origin.0 + 2 * extent_budget(k)
            &&& origin.1 <= p.y <= origin.1 + 2 * extent_budget(k)
            &&& 0 <= p.width <= extent_budget(k)
            &&& 0 <= p.height <= extent_budget(k)
            &&& p.positions.len() == positions.len()
        }),
    decreases k,
{
    if k > 0 {
        lemma_layout_bounds(k - 1, origin, positions, order, rects, direction, drag, slide);
        let ds = drag_size_spec(drag, order, rects, direction);
        assert(0 <= ds < 0x1_0000_0000);
        if slide is Some {
            let s = slide->Some_0;
            let i = k - 1;
            assert(0 <= s.offset_spec(i, ds) <= ds) by {
                assert(0 <= ds * (TIME_SCALE - s.time) <= ds * TIME_SCALE) by (nonlinear_arith)
                    requires
                        0 <= ds,
                        s.time <= TIME_SCALE,
                ;
                assert(ds * (TIME_SCALE - s.time) / TIME_SCALE as int <= ds) by (nonlinear_arith)
                    requires
                        0 <= ds * (TIME_SCALE - s.time) <= ds * TIME_SCALE,
                ;
                assert(0 <= ds * s.time <= ds * TIME_SCALE) by (nonlinear_arith)
                    requires
                        0 <= ds,
                        s.time <= TIME_SCALE,
                ;
                assert(ds * s.time / TIME_SCALE as int <= ds) by (nonlinear_arith)
                    requires
                        0 <= ds * s.time <= ds * TIME_SCALE,
                ;
            }
        }
    }
}

/// Places every item: walks the slots in order, as `layout_upto` says, and
/// writes each measured item's position into `positions`. Returns the
/// container's width and height.
pub fn layout_items(
    order: &Order,
    rects: &[Option<Rect>],
    positions: &mut Vec<(i128, i128)>,
    origin: (i64, i64),
    direction: Direction,
    drag: Option<usize>,
    slide: &Option<Slide>,
) -> (r: (u128, u128))
    requires
        entries_below(order@, rects@.len() as int),
        old(positions)@.len() == rects@.len(),
        *slide is Some ==> slide->Some_0.wf(),
    ensures
        ({
            let p = layout_upto(
                order@.len() as int,
                origin,
                old(positions)@,
                order@,
                rects@,
                direction,
                drag,
                *slide,
            );
            &&& final(positions)@ == p.positions
            &&& r.0 == p.width
            &&& r.1 == p.height
        }),
{
    let ghost start = positions@;
    let drag_size = get_drag_size(drag, order, rects, direction);
    let mut x: i128 = origin.0 as i128;
    let mut y: i128 = origin.1 as i128;
    let mut width: u128 = 0;
    let mut height: u128 = 0;
    let n = order.len();
    let mut i: usize = 0;
    while i < n
        invariant
            n == order@.len(),
            i <= n,
            entries_below(order@, rects@.len() as int),
            start.len() == rects@.len(),
            *slide is Some ==> slide->Some_0.wf(),
            drag_size == drag_size_spec(drag, order@, rects@, direction),
            ({
                let p = layout_upto(
                    i as int,
                    origin,
                    start,
                    order@,
                    rects@,
                    direction,
                    drag,
                    *slide,
                );
                &&& p.x == x
                &&& p.y == y
                &&& p.width == width
                &&& p.height == height
                &&& p.positions == positions@
            }),
        decreases n - i,
    {
        proof {
            lemma_layout_bounds(i as int, origin, start, order@, rects@, direction, drag, *slide);
            lemma_layout_bounds(
                i + 1,
                origin,
                start,
                order@,
                rects@,
                direction,
                drag,
                *slide,
            );
        }
        let o = order.get(i);
        if let Some(rect) = rects[o] {
            expand_size(&mut width, &mut height, &rect, direction);
            if let Some(s) = slide {
                let push = s.get_offset(i, drag_size) as i128;
                match direction {
                    Direction::Row => {
                        x = x + push;
                    },
                    Direction::Column => {
                        y = y + push;
                    },
                }
            }
            positions.set(o, (x, y));
            let dragged = match drag {
                Some(d) => d == i,
                None => false,
            };
            if !dragged {
                match direction {
                    Direction::Row => {
                        x = x + rect.width as i128;
                    },
                    Direction::Column => {
                        y = y + rect.height as i128;
                    },
                }
            }
        }
        i = i + 1;
    }
    (width, height)
}

/// The identity order of `n` slots.
pub open spec fn identity(n: nat) -> Seq<usize> {
    Seq::new(n, |i: int| i as usize)
}

/// `s` with its first `n` entries kept and the rest at the origin.
pub open spec fn resized_positions(s: Seq<(i128, i128)>, n: nat) -> Seq<(i128, i128)> {
    Seq::new(n, |i: int| if i < s.len() { s[i] } else { (0i128, 0i128) })
}

/// The order a list of `n` items keeps after its item count changed: the
/// resized order when that is still a permutation, else the identity.
pub open spec fn kept_order(s: Seq<usize>, n: nat) -> Seq<usize> {
    if is_permutation(resized(s, n)) {
        resized(s, n)
    } else {
        identity(n)
    }
}

/// The state a sortable list keeps between events: the order of its items,
/// their last positions, the dragged slot and the slide of the gap.
#[derive(Debug)]
pub struct SortableState {
    order: Order,
    positions: Vec<(i128, i128)>,
    drag: Option<usize>,
    slide: Option<Slide>,
}

impl SortableState {
    pub closed spec fn order_spec(&self) -> Seq<usize> {
        self.order@
    }

    pub closed spec fn positions_spec(&self) -> Seq<(i128, i128)> {
        self.positions@
    }

    pub closed spec fn drag_spec(&self) -> Option<usize> {
        self.drag
    }

    pub closed spec fn slide_spec(&self) -> Option<Slide> {
        self.slide
    }

    /// The order is a permutation with one position per slot; the dragged
    /// slot is a slot and the slide's target is a slot or the end.
    pub open spec fn wf(&self) -> bool {
        &&& is_permutation(self.order_spec())
        &&& self.positions_spec().len() == self.order_spec().len()
        &&& self.drag_spec() is Some ==> self.drag_spec()->Some_0 < self.order_spec().len()
        &&& self.slide_spec() is Some ==> {
            &&& self.slide_spec()->Some_0.wf()
            &&& self.slide_spec()->Some_0.to <= self.order_spec().len()
        }
    }

    /// A list with no items and no drag.
    pub fn new() -> (r: Self)
        ensures
            r.wf(),
            r.order_spec() == Seq::<usize>::empty(),
            r.positions_spec() == Seq::<(i128, i128)>::empty(),
            r.drag_spec() is None,
            r.slide_spec() is None,
    {
        SortableState { order: Order::new(), positions: Vec::new(), drag: None, slide: None }
    }

    pub fn order(&self) -> (r: &Order)
        ensures
            r@ == self.order_spec(),
    {
        &self.order
    }

    pub fn positions(&self) -> (r: &[(i128, i128)])
        ensures
            r@ == self.positions_spec(),
    {
        self.positions.as_slice()
    }

    pub fn drag(&self) -> (r: Option<usize>)
        ensures
            r == self.drag_spec(),
    {
        self.drag
    }

    pub fn slide(&self) -> (r: Option<Slide>)
        ensures
            r == self.slide_spec(),
    {
        self.slide
    }

    /// Follows a change of the item count to `len`. The order is resized,
    /// or reset to the identity where the cut would leave an item out; the
    /// positions follow, and a drag in progress is given up. Returns whether
    /// the count changed.
    pub fn resize_child_state(&mut self, len: usize) -> (r: bool)
        requires
            old(self).wf(),
        ensures
            final(self).wf(),
            r == (old(self).order_spec().len() != len),
            !r ==> *final(self) == *old(self),
            r ==> {
                &&& final(self).order_spec() == kept_order(old(self).order_spec(), len as nat)
                &&& final(self).positions_spec() == resized_positions(
                    old(self).positions_spec(),
                    len as nat,
                )
                &&& final(self).drag_spec() is None
                &&& final(self).slide_spec() is None
            },
    {
        if self.order.len() == len {
            return false;
        }
        let ghost old_order = self.order@;
        let ghost old_positions = self.positions@;
        self.order.resize(len);
        let mut fits = true;
        let mut i: usize = 0;
        while i < len
            invariant
                self.order@ == resized(old_order, len as nat),
                i <= len,
                fits == forall|j: int| 0 <= j < i ==> #[trigger] self.order@[j] < len,
            decreases len - i,
        {
            if self.order.get(i) >= len {
                fits = false;
            }
            i = i + 1;
        }
        proof {
            let r = resized(old_order, len as nat);
            if len as nat >= old_order.len() {
                lemma_grow_permutation(old_order, len as nat);
            } else {
                if fits {
                    assert forall|a: int, b: int|
                        0 <= a < r.len() && 0 <= b < r.len() && a != b implies #[trigger] r[a]
                        != #[trigger] r[b] by {
                        assert(r[a] == old_order[a] && r[b] == old_order[b]);
                    }
                }
            }
            assert(fits == is_permutation(r));
        }
        if !fits {
            self.order = Order::new();
            self.order.resize(len);
            proof {
                assert(self.order@ =~= identity(len as nat));
                let s = identity(len as nat);
                assert(is_permutation(s));
            }
        }
        let ghost new_order = self.order@;
        assert(new_order == kept_order(old_order, len as nat));
        self.positions.truncate(len);
        let mut k: usize = self.positions.len();
        while k < len
            invariant
                self.order@ == new_order,
                k <= len,
                self.positions@.len() == k,
                self.positions@ =~= resized_positions(old_positions, k as nat),
                old_positions.len() <= len ==> old_positions.len() <= k,
                old_positions.len() > len ==> k == len,
            decreases len - k,
        {
            self.positions.push((0, 0));
            k = k + 1;
        }
        assert(self.positions@ =~= resized_positions(old_positions, len as nat));
        self.drag = None;
        self.slide = None;
        true
    }

    /// Picks up the item in `slot`: it becomes the dragged slot, and the gap
    /// rests there. Returns false, and changes nothing, when there is no
    /// such slot.
    pub fn start_drag(&mut self, slot: usize) -> (r: bool)
        requires
            old(self).wf(),
        ensures
            final(self).wf(),
            r == (slot < old(self).order_spec().len()),
            final(self).order_spec() == old(self).order_spec(),
            final(self).positions_spec() == old(self).positions_spec(),
            r ==> final(self).drag_spec() == Some(slot) && final(self).slide_spec() == Some(
                Slide { to: slot, from: slot, time: 0 },
            ),
            !r ==> *final(self) == *old(self),
    {
        if slot < self.order.len() {
            self.drag = Some(slot);
            self.slide = Some(Slide::new(slot));
            true
        } else {
            false
        }
    }

    /// The pointer of a drag moved. The slot it now hovers is worked out from
    /// the measured boxes, one per item; when it differs from the slide's
    /// target the gap is retargeted there. Returns whether it was, which
    /// calls for a new render. Without a drag, or with boxes that do not match
    /// the items, nothing changes.
    pub fn on_move(&mut self, event: &DragEvent, rects: &[Option<Rect>], direction: Direction) -> (r:
        bool)
        requires
            old(self).wf(),
        ensures
            final(self).wf(),
            final(self).order_spec() == old(self).order_spec(),
            final(self).positions_spec() == old(self).positions_spec(),
            final(self).drag_spec() == old(self).drag_spec(),
            ({
                let hovered = hovered_slot(
                    axis_coordinate(event.position, direction),
                    rects@,
                    old(self).order_spec(),
                    old(self).drag_spec(),
                    direction,
                );
                let retarget = rects@.len() == old(self).order_spec().len()
                    && old(self).slide_spec() is Some && old(self).slide_spec()->Some_0.to
                    != hovered;
                &&& r == retarget
                &&& retarget ==> final(self).slide_spec() == Some(
                    Slide {
                        to: hovered as usize,
                        from: old(self).slide_spec()->Some_0.to,
                        time: TIME_SCALE,
                    },
                )
                &&& !retarget ==> final(self).slide_spec() == old(self).slide_spec()
            }),
    {
        if rects.len() != self.order.len() {
            return false;
        }
        let index = hovered_index(event, rects, &self.order, self.drag, direction);
        match &mut self.slide {
            Some(s) => {
                if s.to != index {
                    s.slide(index);
                    true
                } else {
                    false
                }
            },
            None => false,
        }
    }

    /// The dragged item was released: it moves from the dragged slot to the
    /// slide's target, as `swap_move` does, and the drag ends. Returns the new
    /// order for the observers, or nothing when no drag was in progress.
    pub fn drop(&mut self) -> (r: Option<Order>)
        requires
            old(self).wf(),
        ensures
            final(self).wf(),
            final(self).drag_spec() is None,
            final(self).slide_spec() is None,
            final(self).positions_spec() == old(self).positions_spec(),
            match (old(self).drag_spec(), old(self).slide_spec()) {
                (Some(d), Some(s)) => {
                    &&& final(self).order_spec() == moved(
                        old(self).order_spec(),
                        d as int,
                        s.to as int,
                    )
                    &&& r is Some
                    &&& r->Some_0@ == final(self).order_spec()
                },
                _ => final(self).order_spec() == old(self).order_spec() && r is None,
            },
    {
        let drag = self.drag;
        let slide = self.slide;
        self.drag = None;
        self.slide = None;
        match (drag, slide) {
            (Some(d), Some(s)) => {
                proof {
                    lemma_moved_permutation(self.order@, d as int, s.to as int);
                }
                self.order.swap_move(d, s.to);
                Some(self.order.clone())
            },
            _ => None,
        }
    }

    /// Advances the slide by one frame. Returns whether another frame is
    /// wanted.
    pub fn tick(&mut self) -> (r: bool)
        requires
            old(self).wf(),
        ensures
            final(self).wf(),
            final(self).order_spec() == old(self).order_spec(),
            final(self).positions_spec() == old(self).positions_spec(),
            final(self).drag_spec() == old(self).drag_spec(),
            match old(self).slide_spec() {
                Some(s) => {
                    &&& r == (s.time > SETTLE_THRESHOLD)
                    &&& final(self).slide_spec() == Some(
                        Slide { to: s.to, from: s.from, time: tick(s.time as int) as u32 },
                    )
                },
                None => !r && final(self).slide_spec() is None,
            },
    {
        match &mut self.slide {
            Some(s) => s.update(),
            None => false,
        }
    }

    /// Lays the items out from `origin`, with one measured box per item, as
    /// `layout_items` does, and keeps their positions. Returns the
    /// container's width and height; boxes that do not match the items give
    /// an empty size and leave the positions as they were.
    pub fn layout(&mut self, rects: &[Option<Rect>], origin: (i64, i64), direction: Direction) -> (r:
        (u128, u128))
        requires
            old(self).wf(),
        ensures
            final(self).wf(),
            final(self).order_spec() == old(self).order_spec(),
            final(self).drag_spec() == old(self).drag_spec(),
            final(self).slide_spec() == old(self).slide_spec(),
            rects@.len() != old(self).order_spec().len() ==> r == (0u128, 0u128)
                && final(self).positions_spec() == old(self).positions_spec(),
            rects@.len() == old(self).order_spec().len() ==> ({
                let p = layout_upto(
                    old(self).order_spec().len() as int,
                    origin,
                    old(self).positions_spec(),
                    old(self).order_spec(),
                    rects@,
                    direction,
                    old(self).drag_spec(),
                    old(self).slide_spec(),
                );
                &&& final(self).positions_spec() == p.positions
                &&& r.0 == p.width
                &&& r.1 == p.height
            }),
    {
        if rects.len() != self.order.len() {
            return (0, 0);
        }
        proof {
            lemma_layout_bounds(
                self.order@.len() as int,
                origin,
                self.positions@,
                self.order@,
                rects@,
                direction,
                self.drag,
                self.slide,
            );
        }
        layout_items(
            &self.order,
            rects,
            &mut self.positions,
            origin,
            direction,
            self.drag,
            &self.slide,
        )
    }
}

} // verus!
