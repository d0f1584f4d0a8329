use vstd::prelude::*;

verus! {

/// The axis along which a list lays out its items.
#[derive(Clone, Copy, Debug, PartialEq, Eq, Structural)]
pub enum Direction {
    /// Items are stacked top to bottom.
    Column,
    /// Items are placed left to right.
    Row,
}

impl Default for Direction {
    fn default() -> (r: Self)
        ensures
            r == Direction::Column,
    {
        Direction::Column
    }
}

impl Direction {
    #[inline]
    pub fn is_vertical(&self) -> (r: bool)
        ensures
            r == (*self == Direction::Column),
    {
        matches!(self, Direction::Column)
    }

    #[inline]
    pub fn is_horizontal(&self) -> (r: bool)
        ensures
            r == (*self == Direction::Row),
    {
        matches!(self, Direction::Row)
    }

    #[inline]
    pub fn is_row(&self) -> (r: bool)
        ensures
            r == (*self == Direction::Row),
    {
        self.is_horizontal()
    }

    #[inline]
    pub fn is_column(&self) -> (r: bool)
        ensures
            r == (*self == Direction::Column),
    {
        self.is_vertical()
    }

    /// The lower-case name of the direction: `"column"` or `"row"`.
    pub fn name(&self) -> (r: &'static str)
        ensures
            *self == Direction::Column ==> r@ == "column"@,
            *self == Direction::Row ==> r@ == "row"@,
    {
        match self {
            Direction::Column => "column",
            Direction::Row => "row",
        }
    }
}

} // verus!
