//! The round's bookkeeping, the border wall and the resetting of items.
use vstd::prelude::*;
use crate::grid::{Grid, GridObject, ObjectType};
use crate::item::{Item, ItemType};
use crate::snake::Snake;

verus! {

/// A round: its number, its score and the score it must reach.
pub struct Game {
    round: u32,
    round_score: u32,
    round_goal: u32,
}

/// The character of a wall cell.
pub const WALL_ICON: char = '▮';

/// The wall object on cell `(x, y)`.
pub open spec fn wall_at(x: i32, y: i32) -> GridObject {
    GridObject { x, y, i: WALL_ICON, obj_type: ObjectType::Snake, direction: None }
}

/// Cell `(x, y)` lies on the edge of a field `width` by `height`.
pub open spec fn on_border(x: int, y: int, width: int, height: int) -> bool {
    x == 0 || x == width - 1 || y == 0 || y == height - 1
}

/// The wall cells of column `x`, top to bottom, among its first `rows` rows.
pub open spec fn wall_column(x: int, rows: int, width: int, height: int) -> Seq<GridObject>
    decreases rows,
{
    if rows <= 0 {
        Seq::empty()
    } else {
        let prev = wall_column(x, rows - 1, width, height);
        if on_border(x, rows - 1, width, height) {
            prev.push(wall_at(x as i32, (rows - 1) as i32))
        } else {
            prev
        }
    }
}

/// The wall cells of the first `columns` columns, column by column.
pub open spec fn wall_cells(columns: int, width: int, height: int) -> Seq<GridObject>
    decreases columns,
{
    if columns <= 0 {
        Seq::empty()
    } else {
        wall_cells(columns - 1, width, height) + wall_column(columns - 1, height, width, height)
    }
}

/// An item after a reset: `Foody` starts counting its triggers again.
pub open spec fn item_reset(it: Item) -> Item {
    if it.item_type == ItemType::Foody {
        Item { trigger_count: 0, ..it }
    } else {
        it
    }
}

impl Game {
    pub closed spec fn spec_round(&self) -> u32 {
        self.round
    }

    pub closed spec fn spec_round_score(&self) -> u32 {
        self.round_score
    }

    pub closed spec fn spec_round_goal(&self) -> u32 {
        self.round_goal
    }

    /// Round `round`, with nothing scored yet and `round_goal` to reach.
    pub fn new(round: u32, round_goal: u32) -> (r: Self)
        ensures
            r.spec_round() == round,
            r.spec_round_score() == 0,
            r.spec_round_goal() == round_goal,
    {
        Self { round, round_score: 0, round_goal }
    }

    #[verifier::when_used_as_spec(spec_round)]
    pub fn round(&self) -> (r: u32)
        ensures
            r == self.spec_round(),
    {
        self.round
    }

    #[verifier::when_used_as_spec(spec_round_score)]
    pub fn round_score(&self) -> (r: u32)
        ensures
            r == self.spec_round_score(),
    {
        self.round_score
    }

    #[verifier::when_used_as_spec(spec_round_goal)]
    pub fn round_goal(&self) -> (r: u32)
        ensures
            r == self.spec_round_goal(),
    {
        self.round_goal
    }

    /// A wall object on every cell of the field's edge, column by column
    /// and top to bottom; the sizes are taken as `i32`.
    pub fn build_border_wall(grid: Grid) -> (r: Vec<GridObject>)
        ensures
            r@ == wall_cells(grid.x as i32 as int, grid.x as i32 as int, grid.y as i32 as int),
    {
        let width = grid.x as i32;
        let height = grid.y as i32;
        let mut wall_objs: Vec<GridObject> = Vec::new();
        let mut x: i32 = 0;
        while x < width
            invariant
                width == grid.x as i32,
                height == grid.y as i32,
                0 <= x,
                width > 0 ==> x <= width,
                width <= 0 ==> x == 0,
                wall_objs@ == wall_cells(x as int, width as int, height as int),
            decreases width - x,
        {
            let mut y: i32 = 0;
            let ghost before = wall_objs@;
            while y < height
                invariant
                    width == grid.x as i32,
                    height == grid.y as i32,
                    0 <= x < width,
                    0 <= y,
                    height > 0 ==> y <= height,
                    height <= 0 ==> y == 0,
                    wall_objs@ == before + wall_column(x as int, y as int, width as int, height as int),
                decreases height - y,
            {
                if x == 0 || x == width - 1 || y == 0 || y == height - 1 {
                    wall_objs.push(GridObject::new(x, y, WALL_ICON, ObjectType::Snake, None));
                }
                assert(wall_objs@ =~= before + wall_column(x as int, y + 1, width as int, height as int));
                y = y + 1;
            }
            proof {
                if height <= 0 {
                    assert(wall_column(x as int, height as int, width as int, height as int) =~= Seq::empty());
                    assert(wall_column(x as int, 0, width as int, height as int) =~= Seq::empty());
                }
            }
            assert(wall_objs@ =~= wall_cells(x + 1, width as int, height as int));
            x = x + 1;
        }
        wall_objs
    }

    /// Sets the trigger count of every `Foody` item back to zero.
    pub fn reset_items(snake: &mut Snake)
        ensures
            final(snake).items@ == old(snake).items@.map_values(|it: Item| item_reset(it)),
            final(snake).head == old(snake).head,
            final(snake).body@ == old(snake).body@,
            final(snake).size == old(snake).size,
            final(snake).lives == old(snake).lives,
            final(snake).money == old(snake).money,
            final(snake).new_food_eaten == old(snake).new_food_eaten,
    {
        let n = snake.items.len();
        let mut j: usize = 0;
        while j < n
            invariant
                n == old(snake).items@.len(),
                j <= n,
                snake.items@.len() == n,
                forall|k: int| 0 <= k < j ==> #[trigger] snake.items@[k] == item_reset(old(snake).items@[k]),
                forall|k: int| j <= k < n ==> #[trigger] snake.items@[k] == old(snake).items@[k],
                snake.head == old(snake).head,
                snake.body@ == old(snake).body@,
                snake.size == old(snake).size,
                snake.lives == old(snake).lives,
                snake.money == old(snake).money,
                snake.new_food_eaten == old(snake).new_food_eaten,
            decreases n - j,
        {
            match snake.items[j].item_type {
                ItemType::Foody => snake.items[j].trigger_count = 0,
                _ => {},
            }
            j = j + 1;
        }
        assert(snake.items@ =~= old(snake).items@.map_values(|it: Item| item_reset(it)));
    }
}

/// Every object of column `x` stands in that column, among its first `rows`
/// rows, on the border.
pub proof fn lemma_column_members(x: int, rows: int, width: i32, height: i32)
    requires
        0 <= x < width,
        rows <= height,
    ensures
        forall|j: int| 0 <= j < wall_column(x, rows, width as int, height as int).len() ==> {
            let o = #[trigger] wall_column(x, rows, width as int, height as int)[j];
            &&& o.x == x
            &&& 0 <= o.y < rows
            &&& on_border(o.x as int, o.y as int, width as int, height as int)
            &&& o == wall_at(o.x, o.y)
        },
    decreases rows,
{
    if rows > 0 {
        lemma_column_members(x, rows - 1, width, height);
    }
}

/// Column `x` holds every border cell among its first `rows` rows.
pub proof fn lemma_column_holds(x: int, rows: int, y: int, width: i32, height: i32)
    requires
        0 <= x < width,
        0 <= y < rows <= height,
        on_border(x, y, width as int, height as int),
    ensures
        wall_column(x, rows, width as int, height as int).contains(wall_at(x as i32, y as i32)),
    decreases rows,
{
    let col = wall_column(x, rows, width as int, height as int);
    if y < rows - 1 {
        lemma_column_holds(x, rows - 1, y, width, height);
        let prev = wall_column(x, rows - 1, width as int, height as int);
        let k = choose|k: int| 0 <= k < prev.len() && prev[k] == wall_at(x as i32, y as i32);
        assert(col[k] == prev[k]);
    } else {
        assert(col[col.len() - 1] == wall_at(x as i32, y as i32));
    }
}

/// Every object of the first `columns` columns stands on the field's border.
pub proof fn lemma_cells_members(columns: int, width: i32, height: i32)
    requires
        columns <= width,
    ensures
        forall|j: int| 0 <= j < wall_cells(columns, width as int, height as int).len() ==> {
            let o = #[trigger] wall_cells(columns, width as int, height as int)[j];
            &&& 0 <= o.x < columns
            &&& 0 <= o.y < height
            &&& on_border(o.x as int, o.y as int, width as int, height as int)
            &&& o == wall_at(o.x, o.y)
        },
    decreases columns,
{
    if columns > 0 {
        lemma_cells_members(columns - 1, width, height);
        lemma_column_members(columns - 1, height as int, width, height);
        let prev = wall_cells(columns - 1, width as int, height as int);
        let col = wall_column(columns - 1, height as int, width as int, height as int);
        let all = wall_cells(columns, width as int, height as int);
        assert forall|j: int| 0 <= j < all.len() implies {
            let o = #[trigger] all[j];
            &&& 0 <= o.x < columns
            &&& 0 <= o.y < height
            &&& on_border(o.x as int, o.y as int, width as int, height as int)
            &&& o == wall_at(o.x, o.y)
        } by {
            if j < prev.len() {
                assert(all[j] == prev[j]);
            } else {
                assert(all[j] == col[j - prev.len()]);
            }
        }
    }
}

/// The wall stands on the border of the field and nowhere else: each of its
/// objects is a wall object on an edge cell of the field.
pub proof fn law_wall_on_border(width: i32, height: i32, j: int)
    requires
        0 <= j < wall_cells(width as int, width as int, height as int).len(),
    ensures
        ({
            let o = wall_cells(width as int, width as int, height as int)[j];
            &&& 0 <= o.x < width
            &&& 0 <= o.y < height
            &&& on_border(o.x as int, o.y as int, width as int, height as int)
            &&& o == wall_at(o.x, o.y)
        }),
{
    lemma_cells_members(width as int, width, height);
}

/// The wall closes the field: every edge cell holds a wall object.
pub proof fn law_border_walled(width: i32, height: i32, x: i32, y: i32)
    requires
        0 <= x < width,
        0 <= y < height,
        on_border(x as int, y as int, width as int, height as int),
    ensures
        wall_cells(width as int, width as int, height as int).contains(wall_at(x, y)),
{
    lemma_cells_holds(width as int, width, height, x as int, y as int);
}

/// The first `columns` columns hold every border cell among them.
pub proof fn lemma_cells_holds(columns: int, width: i32, height: i32, x: int, y: int)
    requires
        0 <= x < columns <= width,
        0 <= y < height,
        on_border(x, y, width as int, height as int),
    ensures
        wall_cells(columns, width as int, height as int).contains(wall_at(x as i32, y as i32)),
    decreases columns,
{
    let prev = wall_cells(columns - 1, width as int, height as int);
    let col = wall_column(columns - 1, height as int, width as int, height as int);
    let all = wall_cells(columns, width as int, height as int);
    if x < columns - 1 {
        lemma_cells_holds(columns - 1, width, height, x, y);
        let k = choose|k: int| 0 <= k < prev.len() && prev[k] == wall_at(x as i32, y as i32);
        assert(all[k] == prev[k]);
    } else {
        lemma_column_holds(x, height as int, y, width, height);
        let k = choose|k: int| 0 <= k < col.len() && col[k] == wall_at(x as i32, y as i32);
        assert(all[prev.len() + k] == col[k]);
    }
}

/// A reset leaves no `Foody` item with a trigger counted.
pub proof fn law_reset_clears_foody(it: Item)
    ensures
        item_reset(it).item_type == ItemType::Foody ==> item_reset(it).trigger_count == 0,
        item_reset(it).item_type != ItemType::Foody ==> item_reset(it) == it,
{
}

} // verus!
