use vstd::prelude::*;

use crate::direction::Direction;
use crate::geometry::{inside, is_inside, Rect};

verus! {

/// A pointer position in client pixels.
#[derive(Clone, Copy, Debug, PartialEq, Eq, Structural)]
pub struct DragPosition {
    pub x: i32,
    pub y: i32,
}

/// `v` held within `lo..=hi`; the lower bound is applied first.
pub open spec fn clamped(v: int, lo: int, hi: int) -> int {
    let raised = if v < lo {
        lo
    } else {
        v
    };
    if raised > hi {
        hi
    } else {
        raised
    }
}

/// Where a drag that was at `prev` goes when the pointer reports `next`.
/// With `contain` and a measured area the position is clamped to the area's
/// edges. With a direction the coordinate across that axis keeps its previous
/// value.
pub open spec fn restrained_spec(
    prev: DragPosition,
    next: DragPosition,
    area: Option<Rect>,
    contain: bool,
    direction: Option<Direction>,
) -> DragPosition {
    let kept = if contain && area is Some {
        let a = area->Some_0;
        DragPosition {
            x: clamped(next.x as int, a.left as int, a.right_spec()) as i32,
            y: clamped(next.y as int, a.top as int, a.bottom_spec()) as i32,
        }
    } else {
        next
    };
    match direction {
        Some(Direction::Row) => DragPosition { x: kept.x, y: prev.y },
        Some(Direction::Column) => DragPosition { x: prev.x, y: kept.y },
        None => kept,
    }
}

/// `p` lies in `area` or on its edge.
pub open spec fn within(p: DragPosition, area: Rect) -> bool {
    area.left <= p.x <= area.right_spec() && area.top <= p.y <= area.bottom_spec()
}

/// A contained drag never leaves its area: wherever the pointer goes, the
/// restrained position lies in the area or on its edge. With a direction the
/// held coordinate comes from the previous position, which must then lie
/// there too.
pub proof fn lemma_restrained_within(
    prev: DragPosition,
    next: DragPosition,
    area: Rect,
    direction: Option<Direction>,
)
    requires
        direction is Some ==> within(prev, area),
    ensures
        within(restrained_spec(prev, next, Some(area), true, direction), area),
{
}

impl Default for DragPosition {
    fn default() -> (r: Self)
        ensures
            r == (DragPosition { x: 0, y: 0 }),
    {
        DragPosition { x: 0, y: 0 }
    }
}

fn clamp_coordinate(v: i32, lo: i32, hi: i64) -> (r: i32)
    requires
        lo <= hi,
    ensures
        r == clamped(v as int, lo as int, hi as int),
{
    let raised = if v < lo {
        lo
    } else {
        v
    };
    if raised as i64 > hi {
        hi as i32
    } else {
        raised
    }
}

impl DragPosition {
    /// The position at client coordinates `(x, y)`.
    pub fn new(x: i32, y: i32) -> (r: Self)
        ensures
            r == (DragPosition { x, y }),
    {
        DragPosition { x, y }
    }

    /// The position that a drag now at `self` takes when the pointer reports
    /// `new_position`: clamped to `area` when `contain` is set, and held on
    /// the axis of `direction` when one is given.
    pub fn restrained(
        &self,
        new_position: Self,
        area: Option<Rect>,
        contain: bool,
        direction: Option<Direction>,
    ) -> (r: Self)
        ensures
            r == restrained_spec(*self, new_position, area, contain, direction),
    {
        let mut position = new_position;
        if contain {
            if let Some(a) = area {
                position.x = clamp_coordinate(position.x, a.left, a.right());
                position.y = clamp_coordinate(position.y, a.top, a.bottom());
            }
        }
        match direction {
            Some(Direction::Row) => {
                position.y = self.y;
            },
            Some(Direction::Column) => {
                position.x = self.x;
            },
            None => {},
        }
        position
    }
}

/// A pointer position together with the item it concerns.
#[derive(Clone, Copy, Debug, PartialEq, Eq, Structural)]
pub struct DragEvent {
    pub position: DragPosition,
    pub node: usize,
}

/// What every item of a drag area reads: which item is held, if any.
#[derive(Clone, Copy, Debug, PartialEq, Eq, Structural)]
pub struct DragContext {
    pub dragged: Option<usize>,
    pub is_dragging: bool,
}

impl Default for DragContext {
    fn default() -> (r: Self)
        ensures
            r == (DragContext { dragged: None, is_dragging: false }),
    {
        DragContext { dragged: None, is_dragging: false }
    }
}

impl DragContext {
    #[inline]
    pub fn is_dragging(&self) -> (r: bool)
        ensures
            r == self.is_dragging,
    {
        self.is_dragging
    }

    /// Whether `node` is the item being dragged right now.
    #[inline]
    pub fn is_dragged(&self, node: usize) -> (r: bool)
        ensures
            r == (self.dragged == Some(node) && self.is_dragging),
    {
        match self.dragged {
            Some(d) => d == node && self.is_dragging,
            None => false,
        }
    }
}

/// The state of a drag area between pointer events.
#[derive(Clone, Copy, Debug, PartialEq, Eq, Structural)]
pub struct DragState {
    pub context: DragContext,
    pub position: DragPosition,
}

impl Default for DragState {
    fn default() -> (r: Self)
        ensures
            r.context == (DragContext { dragged: None, is_dragging: false }),
            r.position == (DragPosition { x: 0, y: 0 }),
    {
        DragState { context: DragContext::default(), position: DragPosition::default() }
    }
}

impl DragState {
    /// An item was picked up: it becomes the dragged item, at the event's
    /// position. Returns the event to pass on as the drag start.
    pub fn start(&mut self, event: DragEvent) -> (r: DragEvent)
        ensures
            final(self).context == (DragContext { dragged: Some(event.node), is_dragging: true }),
            final(self).position == event.position,
            r == event,
    {
        self.context = DragContext { dragged: Some(event.node), is_dragging: true };
        self.position = event.position;
        event
    }

    /// The pointer moved to `new_position`. The stored position becomes the
    /// restrained one, and the move is reported for the dragged item; there
    /// is nothing to report while no item was ever picked up.
    pub fn move_to(
        &mut self,
        new_position: DragPosition,
        area: Option<Rect>,
        contain: bool,
        direction: Option<Direction>,
    ) -> (r: Option<DragEvent>)
        ensures
            final(self).context == old(self).context,
            final(self).position == restrained_spec(
                old(self).position,
                new_position,
                area,
                contain,
                direction,
            ),
            r == match old(self).context.dragged {
                Some(node) => Some(DragEvent { position: final(self).position, node }),
                None => None,
            },
    {
        let restrained = self.position.restrained(new_position, area, contain, direction);
        self.position = restrained;
        match self.context.dragged {
            Some(node) => Some(DragEvent { position: restrained, node }),
            None => None,
        }
    }

    /// The pointer was released over `node`. A drop is reported only when
    /// `node` is the item being dragged; any other release is stale and
    /// ignored.
    pub fn drop(&mut self, node: usize) -> (r: Option<DragEvent>)
        ensures
            old(self).context.is_dragged_spec(node) ==> r == Some(
                DragEvent { position: old(self).position, node },
            ) && final(self).context == (DragContext {
                dragged: old(self).context.dragged,
                is_dragging: false,
            }) && final(self).position == old(self).position,
            !old(self).context.is_dragged_spec(node) ==> r is None && *final(self) == *old(self),
    {
        if self.context.is_dragged(node) {
            self.context.is_dragging = false;
            Some(DragEvent { position: self.position, node })
        } else {
            None
        }
    }
}

impl DragContext {
    pub open spec fn is_dragged_spec(&self, node: usize) -> bool {
        self.dragged == Some(node) && self.is_dragging
    }
}

/// The mouse button that picks an item up.
pub const PRIMARY_BUTTON: i16 = 0;

/// A pointer press with `button` at `position` on item `node`, whose element
/// has its top-left corner at `(left, top)`. Only the primary button starts
/// a drag; it returns the drag start and the grab offset, the distance from
/// the element's corner to the pointer.
pub fn pointer_down(button: i16, position: DragPosition, node: usize, left: i32, top: i32) -> (r:
    Option<(DragEvent, (i64, i64))>)
    ensures
        button != PRIMARY_BUTTON ==> r is None,
        button == PRIMARY_BUTTON ==> r == Some(
            (
                DragEvent { position, node },
                ((position.x - left) as i64, (position.y - top) as i64),
            ),
        ),
{
    if button == PRIMARY_BUTTON {
        let offset = (position.x as i64 - left as i64, position.y as i64 - top as i64);
        Some((DragEvent { position, node }, offset))
    } else {
        None
    }
}

/// Where the dragged element's top-left corner goes: the pointer less the
/// grab offset taken at pick-up.
pub fn dragged_origin(position: DragPosition, offset: (i64, i64)) -> (r: (i64, i64))
    requires
        i32::MIN - i32::MAX <= offset.0 <= i32::MAX - i32::MIN,
        i32::MIN - i32::MAX <= offset.1 <= i32::MAX - i32::MIN,
    ensures
        r == ((position.x - offset.0) as i64, (position.y - offset.1) as i64),
{
    (position.x as i64 - offset.0, position.y as i64 - offset.1)
}

/// What a drop target does after the shared drag state changed: whether
/// the pointer is now in it, and which notifications fire.
#[derive(Clone, Copy, Debug, PartialEq, Eq, Structural)]
pub struct DropUpdate {
    pub entered: bool,
    pub enter: bool,
    pub drag: bool,
    pub leave: bool,
    pub drop: bool,
}

/// Whether the pointer at `position` is over a drop target measured as
/// `area`; a target that is not measured holds no point.
pub open spec fn over_area(area: Option<Rect>, position: DragPosition) -> bool {
    area is Some && inside(area->Some_0, position.x as int, position.y as int)
}

/// A drop target re-evaluated after the drag state changed. While a drag is
/// on, being over the target fires `drag`, and `enter` only on the change
/// from outside to inside; leaving fires `leave` once. When the drag ends
/// over the target, `drop` and then `leave` fire.
pub fn droppable_update(entered: bool, is_dragging: bool, area: Option<Rect>, position: DragPosition)
    -> (r: DropUpdate)
    ensures
        r.entered == (is_dragging && over_area(area, position)),
        r.enter == (!entered && r.entered),
        r.leave == (entered && !r.entered),
        r.drag == r.entered,
        r.drop == (entered && !is_dragging),
{
    let over = match area {
        Some(a) => is_inside(&a, position.x, position.y),
        None => false,
    };
    if is_dragging {
        if over {
            DropUpdate { entered: true, enter: !entered, drag: true, leave: false, drop: false }
        } else {
            DropUpdate { entered: false, enter: false, drag: false, leave: entered, drop: false }
        }
    } else {
        DropUpdate { entered: false, enter: false, drag: false, leave: entered, drop: entered }
    }
}

} // verus!
