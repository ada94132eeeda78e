use vstd::prelude::*;

use crate::position::Position;

verus! {

/// The colour an element is drawn in, as 8-bit channels.
#[derive(Clone, Copy, Debug, PartialEq, Eq, Structural)]
pub struct Color {
    pub r: u8,
    pub g: u8,
    pub b: u8,
    pub a: u8,
}

/// The number of columns and rows of a grid.
#[derive(Clone, Copy, Debug, PartialEq, Eq, Structural)]
pub struct GridSize {
    pub width: usize,
    pub height: usize,
}

/// `list` holds each entry of `m` exactly once and nothing else.
pub open spec fn lists_map(list: Seq<(Position, Color)>, m: Map<Position, Color>) -> bool {
    &&& forall|i: int|
        0 <= i < list.len() ==> #[trigger] m.contains_key(list[i].0) && m[list[i].0] == list[i].1
    &&& forall|p: Position| #[trigger] m.contains_key(p) ==> exists|i: int|
        0 <= i < list.len() && #[trigger] list[i].0 == p
    &&& forall|i: int, j: int|
        0 <= i < j < list.len() ==> #[trigger] list[i].0 != #[trigger] list[j].0
}

/// What is drawn: the bounds, the start and end cells, and a flat copy of
/// the persistent elements. The grid holds no game logic; it is refreshed
/// wholesale by its owner whenever the elements change.
pub struct Grid {
    pub size: GridSize,
    pub start: Position,
    pub end: Position,
    pub persistent_elements: Vec<(Position, Color)>,
}

impl Grid {
    pub fn new(
        start: Position,
        end: Position,
        size: GridSize,
        persistent_elements: Vec<(Position, Color)>,
    ) -> (g: Grid)
        ensures
            g.size == size,
            g.start == start,
            g.end == end,
            g.elements() == persistent_elements@,
    {
        Grid { size, start, end, persistent_elements }
    }

    /// The drawn copy of the persistent elements.
    pub open spec fn elements(&self) -> Seq<(Position, Color)> {
        self.persistent_elements@
    }

    /// Replaces the drawn copy of the persistent elements.
    pub fn update_persistent_element(&mut self, persistent_elements: Vec<(Position, Color)>)
        ensures
            final(self).elements() == persistent_elements@,
            final(self).size == old(self).size,
            final(self).start == old(self).start,
            final(self).end == old(self).end,
    {
        self.persistent_elements = persistent_elements;
    }

    pub fn persistent_elements(&self) -> (r: &Vec<(Position, Color)>)
        ensures
            r@ == self.elements(),
    {
        &self.persistent_elements
    }
}

} // verus!
