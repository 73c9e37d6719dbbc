//! How the snake moves in one step: it grows by a segment when it is shorter
//! than its length, its body follows its head, and its head moves a cell.
use vstd::prelude::*;
use crate::grid::{Grid, GridObject, ObjectType};
use crate::snake::{Snake, SnakeDirection, body_glyph};
use crate::trigger::GameError;

verus! {

/// The character of a new body segment.
pub const SEGMENT_ICON: char = 'X';

/// Every segment of `body` knows the way it is heading.
pub open spec fn body_directed(body: Seq<GridObject>) -> bool {
    forall|j: int| 0 <= j < body.len() ==> (#[trigger] body[j]).direction.is_some()
}

/// The snake is shorter than its length: `size` taken as `usize`, as the
/// game compares them.
pub open spec fn wants_segment(s: Snake) -> bool {
    s.body@.len() < s.size as usize
}

/// The segment a growing snake adds: at its head when it has no body, else
/// on its tail, heading the same way and of the same kind as the tail (so
/// that a body the snake cannot run into stays so as it grows); the first
/// segment is part of the snake.
pub open spec fn new_segment(s: Snake) -> GridObject {
    let at = if s.body@.len() == 0 { s.head } else { s.body@.last() };
    let kind = if s.body@.len() == 0 { ObjectType::Snake } else { s.body@.last().obj_type };
    GridObject { x: at.x, y: at.y, i: SEGMENT_ICON, obj_type: kind, direction: at.direction }
}

/// The body after growing.
pub open spec fn grown_body(s: Snake) -> Seq<GridObject> {
    if wants_segment(s) {
        s.body@.push(new_segment(s))
    } else {
        s.body@
    }
}

/// The body after it follows `head` one cell: each segment takes the cell
/// and character of the one before it, and the first takes the head's cell
/// and way, drawn as the bend from its own way to the head's.
pub open spec fn followed_body(body: Seq<GridObject>, head: GridObject) -> Seq<GridObject> {
    Seq::new(
        body.len(),
        |j: int|
            if j == 0 {
                GridObject {
                    x: head.x,
                    y: head.y,
                    i: body_glyph(body[0].direction.unwrap(), head.direction.unwrap()),
                    obj_type: body[0].obj_type,
                    direction: head.direction,
                }
            } else {
                GridObject { x: body[j - 1].x, y: body[j - 1].y, i: body[j - 1].i, ..body[j] }
            },
    )
}

/// The head can move one cell its way without leaving `i32`.
pub open spec fn step_fits(head: GridObject) -> bool {
    match head.direction {
        Some(SnakeDirection::Up) => head.y > i32::MIN,
        Some(SnakeDirection::Down) => head.y < i32::MAX,
        Some(SnakeDirection::Left) => head.x > i32::MIN,
        Some(SnakeDirection::Right) => head.x < i32::MAX,
        None => true,
    }
}

/// The head moved one cell its way, drawn as a straight piece.
pub open spec fn stepped_head(head: GridObject) -> GridObject {
    let d = head.direction.unwrap();
    let x = match d {
        SnakeDirection::Left => head.x - 1,
        SnakeDirection::Right => head.x + 1,
        _ => head.x as int,
    };
    let y = match d {
        SnakeDirection::Up => head.y - 1,
        SnakeDirection::Down => head.y + 1,
        _ => head.y as int,
    };
    GridObject { x: x as i32, y: y as i32, i: body_glyph(d, d), ..head }
}

/// The head stands off the field.
pub open spec fn off_field(head: GridObject, grid: Grid) -> bool {
    head.x < 0 || head.y < 0 || head.x >= grid.x as i32 || head.y >= grid.y as i32
}

impl Snake {
    /// Adds a segment when the body is shorter than the length.
    pub fn grow(&mut self)
        ensures
            final(self).body@ == grown_body(*old(self)),
            final(self).head == old(self).head,
            final(self).size == old(self).size,
            final(self).lives == old(self).lives,
            final(self).items@ == old(self).items@,
            final(self).money == old(self).money,
            final(self).new_food_eaten == old(self).new_food_eaten,
    {
        if self.body.len() < self.size as usize {
            let body_node = if self.body.len() == 0 {
                GridObject::new(self.head.x, self.head.y, SEGMENT_ICON, ObjectType::Snake, self.head.direction)
            } else {
                let tail = self.body[self.body.len() - 1];
                GridObject::new(tail.x, tail.y, SEGMENT_ICON, tail.obj_type, tail.direction)
            };
            self.body.push(body_node);
        }
    }

    /// Whether the head stands off the field.
    pub fn head_off_field(&self, grid: Grid) -> (r: bool)
        ensures
            r == off_field(self.head, grid),
    {
        (self.head.x < 0 || self.head.y < 0) || (self.head.x >= grid.x as i32 || self.head.y >= grid.y as i32)
    }

    /// Moves every segment of the body one place along, the first onto the
    /// head's cell.
    pub fn follow_head(&mut self)
        requires
            old(self).head.direction.is_some(),
            body_directed(old(self).body@),
        ensures
            final(self).body@ == followed_body(old(self).body@, old(self).head),
            final(self).head == old(self).head,
            final(self).size == old(self).size,
            final(self).lives == old(self).lives,
            final(self).items@ == old(self).items@,
            final(self).money == old(self).money,
            final(self).new_food_eaten == old(self).new_food_eaten,
    {
        let n = self.body.len();
        if n == 0 {
            assert(self.body@ =~= followed_body(old(self).body@, old(self).head));
            return;
        }
        let ghost before = self.body@;
        let head = self.head;
        let mut previous = self.body[0];
        let glyph = Snake::update_body(previous, head);
        self.body[0].i = glyph;
        self.body[0].direction = head.direction;
        self.body[0].x = head.x;
        self.body[0].y = head.y;
        let mut j: usize = 1;
        while j < n
            invariant
                n == before.len(),
                1 <= j <= n,
                self.body@.len() == n,
                previous == before[j - 1],
                forall|k: int| 0 <= k < j ==> #[trigger] self.body@[k] == followed_body(before, head)[k],
                forall|k: int| j <= k < n ==> #[trigger] self.body@[k] == before[k],
                self.head == head,
                self.head == old(self).head,
                before == old(self).body@,
                self.size == old(self).size,
                self.lives == old(self).lives,
                self.items@ == old(self).items@,
                self.money == old(self).money,
                self.new_food_eaten == old(self).new_food_eaten,
            decreases n - j,
        {
            let current = self.body[j];
            self.body[j].i = previous.i;
            self.body[j].x = previous.x;
            self.body[j].y = previous.y;
            previous = current;
            j = j + 1;
        }
        assert(self.body@ =~= followed_body(before, head));
    }

    /// Moves the head one cell its way, or reports that its cell would leave
    /// `i32`.
    pub fn advance_head(&mut self) -> (r: Result<(), GameError>)
        requires
            old(self).head.direction.is_some(),
        ensures
            r is Ok <==> step_fits(old(self).head),
            r is Ok ==> final(self).head == stepped_head(old(self).head),
            r is Err ==> final(self).head == old(self).head,
            final(self).body@ == old(self).body@,
            final(self).size == old(self).size,
            final(self).lives == old(self).lives,
            final(self).items@ == old(self).items@,
            final(self).money == old(self).money,
            final(self).new_food_eaten == old(self).new_food_eaten,
    {
        let old_head = self.head;
        match self.head.direction.unwrap() {
            SnakeDirection::Up => {
                if self.head.y == i32::MIN {
                    return Err(GameError::Overflow);
                }
                self.head.y = self.head.y - 1;
            },
            SnakeDirection::Down => {
                if self.head.y == i32::MAX {
                    return Err(GameError::Overflow);
                }
                self.head.y = self.head.y + 1;
            },
            SnakeDirection::Right => {
                if self.head.x == i32::MAX {
                    return Err(GameError::Overflow);
                }
                self.head.x = self.head.x + 1;
            },
            SnakeDirection::Left => {
                if self.head.x == i32::MIN {
                    return Err(GameError::Overflow);
                }
                self.head.x = self.head.x - 1;
            },
        }
        self.head.i = Snake::update_body(self.head, old_head);
        Ok(())
    }
}

/// The head moves exactly one cell, to a neighbour, the way it heads, and
/// keeps its way.
pub proof fn law_head_moves_one_cell(head: GridObject)
    requires
        head.direction.is_some(),
        step_fits(head),
    ensures
        ({
            let h = stepped_head(head);
            let dx = h.x - head.x;
            let dy = h.y - head.y;
            &&& h.direction == head.direction
            &&& h.obj_type == head.obj_type
            &&& (if dx >= 0 { dx } else { -dx }) + (if dy >= 0 { dy } else { -dy }) == 1
            &&& (head.direction == Some(SnakeDirection::Up) ==> dy == -1)
            &&& (head.direction == Some(SnakeDirection::Down) ==> dy == 1)
            &&& (head.direction == Some(SnakeDirection::Left) ==> dx == -1)
            &&& (head.direction == Some(SnakeDirection::Right) ==> dx == 1)
        }),
{
}

/// The body follows the head: the first segment takes the head's cell and
/// way and is drawn as the bend from its own way to the head's; every other
/// segment takes the cell and the character of the one before it, and keeps
/// its own way and kind; the length stays.
pub proof fn law_body_follows(body: Seq<GridObject>, head: GridObject, j: int)
    requires
        0 <= j < body.len(),
    ensures
        followed_body(body, head).len() == body.len(),
        j == 0 ==> {
            &&& followed_body(body, head)[j].x == head.x
            &&& followed_body(body, head)[j].y == head.y
            &&& followed_body(body, head)[j].direction == head.direction
            &&& followed_body(body, head)[j].obj_type == body[0].obj_type
            &&& followed_body(body, head)[j].i == body_glyph(body[0].direction.unwrap(), head.direction.unwrap())
        },
        j > 0 ==> {
            &&& followed_body(body, head)[j].x == body[j - 1].x
            &&& followed_body(body, head)[j].y == body[j - 1].y
            &&& followed_body(body, head)[j].i == body[j - 1].i
            &&& followed_body(body, head)[j].direction == body[j].direction
            &&& followed_body(body, head)[j].obj_type == body[j].obj_type
        },
{
}

/// The head is off the field exactly when it stands on no cell of it: a
/// column outside `0..width` or a row outside `0..height` (for a field
/// whose size fits in `i32`).
pub proof fn law_off_field_exact(head: GridObject, grid: Grid)
    requires
        grid.x <= i32::MAX,
        grid.y <= i32::MAX,
    ensures
        off_field(head, grid) <==> !(0 <= head.x && head.x < grid.x && 0 <= head.y && head.y < grid.y),
{
}

/// A growing snake adds one segment, drawn `X`, on its head's cell when it
/// has no body and on its tail's cell otherwise, heading the same way.
pub proof fn law_new_segment_at_tail(s: Snake)
    requires
        wants_segment(s),
    ensures
        grown_body(s).len() == s.body@.len() + 1,
        grown_body(s).last().i == SEGMENT_ICON,
        s.body@.len() == 0 ==> grown_body(s).last().x == s.head.x && grown_body(s).last().y == s.head.y
            && grown_body(s).last().direction == s.head.direction
            && grown_body(s).last().obj_type == ObjectType::Snake,
        s.body@.len() > 0 ==> grown_body(s).last().x == s.body@[s.body@.len() - 1].x
            && grown_body(s).last().y == s.body@[s.body@.len() - 1].y
            && grown_body(s).last().direction == s.body@[s.body@.len() - 1].direction
            && grown_body(s).last().obj_type == s.body@[s.body@.len() - 1].obj_type,
{
}

/// A snake grows by at most one segment a step, and only while it is
/// shorter than its length.
pub proof fn law_grows_by_one(s: Snake)
    ensures
        grown_body(s).len() == s.body@.len() + (if wants_segment(s) { 1int } else { 0int }),
        grown_body(s).take(s.body@.len() as int) == s.body@,
        s.size > 0 && s.body@.len() < s.size ==> grown_body(s).len() == s.body@.len() + 1,
        s.size >= 0 && s.body@.len() >= s.size ==> grown_body(s) == s.body@,
{
    assert(grown_body(s).take(s.body@.len() as int) =~= s.body@);
}

/// A body that holds no part of the snake still holds none once it has grown
/// and followed the head.
pub proof fn law_harmless_body_stays_harmless(s: Snake)
    requires
        s.body@.len() > 0,
        forall|j: int| 0 <= j < s.body@.len() ==> (#[trigger] s.body@[j]).obj_type != ObjectType::Snake,
    ensures
        forall|j: int| 0 <= j < followed_body(grown_body(s), s.head).len() ==>
            (#[trigger] followed_body(grown_body(s), s.head)[j]).obj_type != ObjectType::Snake,
{
    let g = grown_body(s);
    assert(s.body@.last() == s.body@[s.body@.len() - 1]);
    assert forall|j: int| 0 <= j < g.len() implies (#[trigger] g[j]).obj_type != ObjectType::Snake by {
        if j < s.body@.len() {
            assert(g[j] == s.body@[j]);
        }
    }
    let f = followed_body(g, s.head);
    assert forall|j: int| 0 <= j < f.len() implies (#[trigger] f[j]).obj_type != ObjectType::Snake by {
        assert(g[j].obj_type != ObjectType::Snake);
    }
}

} // verus!
