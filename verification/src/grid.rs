//! The playing field: its size, the objects that stand on it, and its text.
use vstd::prelude::*;
use crate::rng::random_below;
use crate::snake::SnakeDirection;

verus! {

/// The size of the field: `x` columns and `y` rows.
#[derive(Clone, Copy, Debug)]
pub struct Grid {
    pub x: usize,
    pub y: usize,
}

/// What an object on the field is, for collisions.
#[derive(Clone, Copy, Debug, PartialEq, Eq, Structural)]
pub enum ObjectType {
    Nothing,
    Snake,
    Food(i32),
}

/// One object on the field: its cell, the character that draws it, its kind
/// and, for the snake, the way it is heading.
#[derive(Clone, Copy, Debug)]
pub struct GridObject {
    pub x: i32,
    pub y: i32,
    pub i: char,
    pub obj_type: ObjectType,
    pub direction: Option<SnakeDirection>,
}

/// The character of the empty cell.
pub const EMPTY_CELL: char = '·';

/// The character shown at cell `(x, y)`: that of the first object standing
/// there, or the empty cell.
pub open spec fn cell_char(objects: Seq<GridObject>, x: i32, y: i32) -> char
    decreases objects.len(),
{
    if objects.len() == 0 {
        EMPTY_CELL
    } else if objects[0].x == x && objects[0].y == y {
        objects[0].i
    } else {
        cell_char(objects.drop_first(), x, y)
    }
}

/// Row `y` of the field's text, without its line break.
pub open spec fn row_text(objects: Seq<GridObject>, width: nat, y: int) -> Seq<char> {
    Seq::new(width, |x: int| cell_char(objects, x as i32, y as i32))
}

/// The first `rows` rows of the field's text, each ended by a line break.
pub open spec fn grid_text(objects: Seq<GridObject>, width: nat, rows: nat) -> Seq<char>
    decreases rows,
{
    if rows == 0 {
        Seq::empty()
    } else {
        grid_text(objects, width, (rows - 1) as nat) + row_text(objects, width, rows - 1)
            + seq!['\n']
    }
}

/// `String::push`: appends one character to the string.
#[verifier::external_body]
pub(crate) fn push_char(s: &mut String, c: char)
    ensures
        final(s)@ == old(s)@.push(c),
{
    s.push(c);
}

impl Grid {
    pub fn new(x: usize, y: usize) -> (r: Self)
        ensures
            r.x == x,
            r.y == y,
    {
        Self { x, y }
    }

    /// The text of the field: one line per row, top row first, each cell
    /// drawn by the first of `objects` that stands on it.
    pub fn gen_grid(&mut self, objects: Vec<GridObject>) -> (r: String)
        ensures
            *final(self) == *old(self),
            r@ == grid_text(objects@, old(self).x as nat, old(self).y as nat),
    {
        let mut grid = String::new();
        let mut y: usize = 0;
        while y < self.y
            invariant
                y <= self.y,
                *self == *old(self),
                grid@ == grid_text(objects@, self.x as nat, y as nat),
            decreases self.y - y,
        {
            let mut row = String::new();
            let mut x: usize = 0;
            while x < self.x
                invariant
                    x <= self.x,
                    y < self.y,
                    *self == *old(self),
                    row@ == row_text(objects@, x as nat, y as int),
                decreases self.x - x,
            {
                let c = self.gen_cell(&objects, x as i32, y as i32);
                push_char(&mut row, c);
                assert(row@ =~= row_text(objects@, (x + 1) as nat, y as int));
                x = x + 1;
            }
            push_char(&mut row, '\n');
            grid.append(row.as_str());
            assert(grid@ =~= grid_text(objects@, self.x as nat, (y + 1) as nat));
            y = y + 1;
        }
        grid
    }

    fn gen_cell(&mut self, objects: &Vec<GridObject>, x: i32, y: i32) -> (r: char)
        ensures
            *final(self) == *old(self),
            r == cell_char(objects@, x, y),
    {
        let mut k: usize = 0;
        assert(objects@.skip(0) =~= objects@);
        while k < objects.len()
            invariant
                k <= objects.len(),
                *self == *old(self),
                cell_char(objects@, x, y) == cell_char(objects@.skip(k as int), x, y),
            decreases objects.len() - k,
        {
            assert(objects@.skip(k as int).drop_first() =~= objects@.skip(k + 1));
            if objects[k].x == x && objects[k].y == y {
                return objects[k].i;
            }
            k = k + 1;
        }
        EMPTY_CELL
    }
}

impl GridObject {
    pub fn new(x: i32, y: i32, i: char, obj_type: ObjectType, direction: Option<SnakeDirection>) -> (r: Self)
        ensures
            r == (GridObject { x, y, i, obj_type, direction }),
    {
        Self { x, y, i, obj_type, direction }
    }

    /// Moves the object to column `column` and row `row` of the field, the
    /// numbers taken as `i32` as the game does.
    pub fn place(&mut self, column: usize, row: usize)
        ensures
            final(self).x == column as i32,
            final(self).y == row as i32,
            final(self).i == old(self).i,
            final(self).obj_type == old(self).obj_type,
            final(self).direction == old(self).direction,
    {
        self.x = column as i32;
        self.y = row as i32;
    }

    /// Moves the object to a cell of the field drawn at random.
    pub fn reset(&mut self, grid: Grid)
        requires
            grid.x > 0,
            grid.y > 0,
        ensures
            final(self).i == old(self).i,
            final(self).obj_type == old(self).obj_type,
            final(self).direction == old(self).direction,
            in_grid(grid, *final(self)),
    {
        let column = random_below(grid.x);
        let row = random_below(grid.y);
        self.place(column, row);
        assert(column as i32 == self.x && row as i32 == self.y);
    }
}

/// The object stands on a cell of the field: its column and row are numbers
/// below the field's width and height, taken as `i32` (a field wider or
/// taller than `i32` allows wraps them as `as i32` does).
pub open spec fn in_grid(grid: Grid, o: GridObject) -> bool {
    exists|column: usize, row: usize| #![trigger column as i32, row as i32]
        column < grid.x && row < grid.y && o.x == column as i32 && o.y == row as i32
}

/// On a field whose size fits in `i32`, an object on the field has a column
/// and a row within it.
pub proof fn law_in_grid_bounds(grid: Grid, o: GridObject)
    requires
        in_grid(grid, o),
        grid.x <= i32::MAX,
        grid.y <= i32::MAX,
    ensures
        0 <= o.x < grid.x,
        0 <= o.y < grid.y,
{
}

} // verus!
