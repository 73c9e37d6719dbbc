//! The snake: its head and body on the field, its length, lives, money and
//! items.
use vstd::prelude::*;
use crate::grid::{GridObject, ObjectType};
use crate::item::Item;

verus! {

/// The four ways the snake can head.
#[derive(Clone, Copy, Debug, PartialEq, Eq, Structural)]
pub enum SnakeDirection {
    Up,
    Down,
    Left,
    Right,
}

/// The most lives a snake can hold.
pub const MAX_LIVES: i32 = 5;

/// The character that draws the snake's head.
pub const HEAD_ICON: char = '●';

/// The snake.
#[derive(Clone)]
pub struct Snake {
    pub head: GridObject,
    pub body: Vec<GridObject>,
    pub size: i32,
    pub lives: i32,
    pub items: Vec<Item>,
    pub money: i32,
    pub new_food_eaten: u32,
}

/// The way opposite to `d`.
pub open spec fn opposite(d: SnakeDirection) -> SnakeDirection {
    match d {
        SnakeDirection::Up => SnakeDirection::Down,
        SnakeDirection::Down => SnakeDirection::Up,
        SnakeDirection::Left => SnakeDirection::Right,
        SnakeDirection::Right => SnakeDirection::Left,
    }
}

/// The way the head heads after the player asks for `wanted`: unchanged if
/// that is straight back, else `wanted`.
pub open spec fn steered(current: Option<SnakeDirection>, wanted: SnakeDirection) -> Option<SnakeDirection> {
    if current == Some(opposite(wanted)) {
        current
    } else {
        Some(wanted)
    }
}

/// The character of a body segment that was heading `from` and is followed
/// towards `to`: a straight piece, a corner, or a blank for a reversal.
pub open spec fn body_glyph(from: SnakeDirection, to: SnakeDirection) -> char {
    match (from, to) {
        (SnakeDirection::Right, SnakeDirection::Right) | (SnakeDirection::Left, SnakeDirection::Left) => '═',
        (SnakeDirection::Up, SnakeDirection::Up) | (SnakeDirection::Down, SnakeDirection::Down) => '║',
        (SnakeDirection::Right, SnakeDirection::Up) | (SnakeDirection::Down, SnakeDirection::Left) => '╝',
        (SnakeDirection::Right, SnakeDirection::Down) | (SnakeDirection::Up, SnakeDirection::Left) => '╗',
        (SnakeDirection::Left, SnakeDirection::Up) | (SnakeDirection::Down, SnakeDirection::Right) => '╚',
        (SnakeDirection::Left, SnakeDirection::Down) | (SnakeDirection::Up, SnakeDirection::Right) => '╔',
        _ => ' ',
    }
}

/// The lives after `gained` more are added one by one, stopping at the cap.
pub open spec fn lives_after_gain(lives: i32, gained: i32) -> i32 {
    if gained <= 0 || lives >= MAX_LIVES {
        lives
    } else if lives + gained >= MAX_LIVES {
        MAX_LIVES
    } else {
        (lives + gained) as i32
    }
}

/// The snake of `s` after a reset: head back at the corner heading right,
/// no body and no length; everything else kept.
pub open spec fn is_reset_of(s: Snake, t: Snake) -> bool {
    &&& t.head.x == 0
    &&& t.head.y == 0
    &&& t.head.i == s.head.i
    &&& t.head.obj_type == s.head.obj_type
    &&& t.head.direction == Some(SnakeDirection::Right)
    &&& t.body@ == Seq::<GridObject>::empty()
    &&& t.size == 0
    &&& t.lives == s.lives
    &&& t.items@ == s.items@
    &&& t.money == s.money
    &&& t.new_food_eaten == s.new_food_eaten
}

/// The way opposite to `d`.
pub fn opposite_of(d: SnakeDirection) -> (r: SnakeDirection)
    ensures
        r == opposite(d),
{
    match d {
        SnakeDirection::Up => SnakeDirection::Down,
        SnakeDirection::Down => SnakeDirection::Up,
        SnakeDirection::Left => SnakeDirection::Right,
        SnakeDirection::Right => SnakeDirection::Left,
    }
}

impl Snake {
    /// A snake with its head at `(x, y)` heading right, no body, five lives
    /// and nothing else.
    pub fn new(x: i32, y: i32) -> (r: Self)
        ensures
            r.head == (GridObject {
                x,
                y,
                i: HEAD_ICON,
                obj_type: ObjectType::Snake,
                direction: Some(SnakeDirection::Right),
            }),
            r.body@ == Seq::<GridObject>::empty(),
            r.size == 0,
            r.lives == MAX_LIVES,
            r.items@ == Seq::<Item>::empty(),
            r.money == 0,
            r.new_food_eaten == 0,
    {
        Self {
            head: GridObject::new(x, y, HEAD_ICON, ObjectType::Snake, Some(SnakeDirection::Right)),
            body: Vec::new(),
            size: 0,
            lives: MAX_LIVES,
            items: Vec::new(),
            money: 0,
            new_food_eaten: 0,
        }
    }

    /// Adds `lives` lives one at a time, stopping once the snake holds five.
    pub fn add_lives(&mut self, lives: i32)
        ensures
            final(self).lives == lives_after_gain(old(self).lives, lives),
            final(self).head == old(self).head,
            final(self).body@ == old(self).body@,
            final(self).size == old(self).size,
            final(self).items@ == old(self).items@,
            final(self).money == old(self).money,
            final(self).new_food_eaten == old(self).new_food_eaten,
    {
        let mut k: i32 = 0;
        while k < lives
            invariant
                0 <= k,
                lives > 0 ==> k <= lives,
                lives <= 0 ==> k == 0,
                old(self).lives >= MAX_LIVES ==> self.lives == old(self).lives,
                old(self).lives < MAX_LIVES ==> self.lives == if old(self).lives + k >= MAX_LIVES {
                    MAX_LIVES as int
                } else {
                    old(self).lives + k
                },
                self.head == old(self).head,
                self.body@ == old(self).body@,
                self.size == old(self).size,
                self.items@ == old(self).items@,
                self.money == old(self).money,
                self.new_food_eaten == old(self).new_food_eaten,
            decreases lives - k,
        {
            if self.lives < MAX_LIVES {
                self.lives = self.lives + 1;
            } else {
                return;
            }
            k = k + 1;
        }
    }

    /// Puts the head back at the corner heading right and drops the body
    /// and the length; lives, money and items stay.
    pub fn reset(&mut self)
        ensures
            is_reset_of(*old(self), *final(self)),
    {
        self.head.x = 0;
        self.head.y = 0;
        self.size = 0;
        self.head.direction = Some(SnakeDirection::Right);
        self.body.clear();
    }

    /// The character of the segment `current_node` when it is followed by
    /// `next_node`, from the ways the two are heading.
    pub fn update_body(current_node: GridObject, next_node: GridObject) -> (r: char)
        requires
            current_node.direction.is_some(),
            next_node.direction.is_some(),
        ensures
            r == body_glyph(current_node.direction.unwrap(), next_node.direction.unwrap()),
    {
        let current_dir = current_node.direction.unwrap();
        let next_dir = next_node.direction.unwrap();
        match (current_dir, next_dir) {
            (SnakeDirection::Right, SnakeDirection::Right)
            | (SnakeDirection::Left, SnakeDirection::Left) => '═',
            (SnakeDirection::Up, SnakeDirection::Up)
            | (SnakeDirection::Down, SnakeDirection::Down) => '║',
            (SnakeDirection::Right, SnakeDirection::Up)
            | (SnakeDirection::Down, SnakeDirection::Left) => '╝',
            (SnakeDirection::Right, SnakeDirection::Down)
            | (SnakeDirection::Up, SnakeDirection::Left) => '╗',
            (SnakeDirection::Left, SnakeDirection::Up)
            | (SnakeDirection::Down, SnakeDirection::Right) => '╚',
            (SnakeDirection::Left, SnakeDirection::Down)
            | (SnakeDirection::Up, SnakeDirection::Right) => '╔',
            (_, _) => ' ',
        }
    }

    /// Turns the head to `direction`, unless that would reverse it onto its
    /// own body.
    pub fn steer(&mut self, direction: SnakeDirection)
        ensures
            final(self).head.direction == steered(old(self).head.direction, direction),
            final(self).head.x == old(self).head.x,
            final(self).head.y == old(self).head.y,
            final(self).head.i == old(self).head.i,
            final(self).head.obj_type == old(self).head.obj_type,
            final(self).body@ == old(self).body@,
            final(self).size == old(self).size,
            final(self).lives == old(self).lives,
            final(self).items@ == old(self).items@,
            final(self).money == old(self).money,
            final(self).new_food_eaten == old(self).new_food_eaten,
    {
        let back = opposite_of(direction);
        let reverses = match self.head.direction {
            Some(d) => d == back,
            None => false,
        };
        if !reverses {
            self.head.direction = Some(direction);
        }
    }

    /// Buys `item` when the snake has the money for it: pays its price and
    /// keeps it. Returns whether it was bought.
    pub fn buy(&mut self, item: Item) -> (bought: bool)
        requires
            old(self).money >= item.value ==> old(self).money - item.value <= i32::MAX,
        ensures
            bought == (old(self).money >= item.value),
            bought ==> final(self).money == old(self).money - item.value
                && final(self).items@ == old(self).items@.push(item),
            !bought ==> final(self).money == old(self).money && final(self).items@ == old(self).items@,
            final(self).head == old(self).head,
            final(self).body@ == old(self).body@,
            final(self).size == old(self).size,
            final(self).lives == old(self).lives,
            final(self).new_food_eaten == old(self).new_food_eaten,
    {
        if self.money >= item.value {
            self.money = self.money - item.value;
            self.items.push(item);
            true
        } else {
            false
        }
    }
}

/// The snake never turns straight back onto its body: whatever way the
/// player asks for, the head does not end up heading opposite to where it
/// was heading.
pub proof fn law_never_reverses(current: SnakeDirection, wanted: SnakeDirection)
    ensures
        steered(Some(current), wanted) != Some(opposite(current)),
{
}

/// Lives never rise above five, and adding lives never takes one away.
pub proof fn law_lives_capped(lives: i32, gained: i32)
    requires
        lives <= MAX_LIVES,
    ensures
        lives <= lives_after_gain(lives, gained) <= MAX_LIVES,
{
}

/// Adding `gained` lives, one at a time up to five, to a snake holding
/// `lives`: nothing changes when `gained` is not positive or the snake
/// already holds five or more; otherwise it ends with the smaller of five
/// and `lives + gained`.
pub proof fn law_lives_gain_exact(lives: i32, gained: i32)
    ensures
        gained <= 0 || lives >= 5 ==> lives_after_gain(lives, gained) == lives,
        gained > 0 && lives < 5 && lives + gained >= 5 ==> lives_after_gain(lives, gained) == 5,
        gained > 0 && lives + gained < 5 ==> lives_after_gain(lives, gained) == lives + gained,
{
}

/// Steering turns the head the asked way, except straight back: asking for
/// down while heading up, up while heading down, right while heading left or
/// left while heading right keeps the way.
pub proof fn law_steering_exact(current: SnakeDirection, wanted: SnakeDirection)
    ensures
        ({
            let back = (current == SnakeDirection::Up && wanted == SnakeDirection::Down) || (current
                == SnakeDirection::Down && wanted == SnakeDirection::Up) || (current == SnakeDirection::Left
                && wanted == SnakeDirection::Right) || (current == SnakeDirection::Right && wanted
                == SnakeDirection::Left);
            &&& back ==> steered(Some(current), wanted) == Some(current)
            &&& !back ==> steered(Some(current), wanted) == Some(wanted)
        }),
        steered(None, wanted) == Some(wanted),
{
}

/// Resetting a snake twice leaves it as resetting it once does.
pub proof fn law_reset_idempotent(s: Snake, t: Snake, u: Snake)
    requires
        is_reset_of(s, t),
        is_reset_of(t, u),
    ensures
        is_reset_of(s, u),
{
}

/// A bend is drawn the same whichever way the snake runs through it: from
/// `a` into `b`, or back from the opposite of `b` into the opposite of `a`.
pub proof fn law_bend_drawn_both_ways(a: SnakeDirection, b: SnakeDirection)
    ensures
        body_glyph(a, b) == body_glyph(opposite(b), opposite(a)),
{
}

/// A segment heading on straight is a straight piece, and one the snake
/// would reverse through is blank.
pub proof fn law_straight_and_reversed_pieces(d: SnakeDirection)
    ensures
        body_glyph(d, d) == (if d == SnakeDirection::Left || d == SnakeDirection::Right { '═' } else { '║' }),
        body_glyph(d, opposite(d)) == ' ',
{
}

} // verus!
