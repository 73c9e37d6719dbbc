//! Food: what the snake eats.
use vstd::prelude::*;
use crate::grid::{Grid, GridObject, ObjectType, in_grid};

verus! {

/// A piece of food on the field.
#[derive(Clone, Copy, Debug)]
pub struct Food {
    pub body: GridObject,
}

impl Food {
    /// Food worth `value`, drawn as `icon`, on a cell drawn at random.
    pub fn new(grid: Grid, value: i32, icon: char) -> (r: Self)
        requires
            grid.x > 0,
            grid.y > 0,
        ensures
            r.body.i == icon,
            r.body.obj_type == ObjectType::Food(value),
            r.body.direction.is_none(),
            in_grid(grid, r.body),
    {
        let mut body = GridObject::new(0, 0, icon, ObjectType::Food(value), None);
        body.reset(grid);
        Self { body }
    }

    /// Moves the food to a cell drawn at random.
    pub fn reset(&mut self, grid: Grid)
        requires
            grid.x > 0,
            grid.y > 0,
        ensures
            final(self).body.i == old(self).body.i,
            final(self).body.obj_type == old(self).body.obj_type,
            final(self).body.direction == old(self).body.direction,
            in_grid(grid, final(self).body),
    {
        self.body.reset(grid);
    }
}

} // verus!
