//! A game in progress and the step that advances it: the shop between
//! rounds, and each tick of a round in which the snake's items go off, the
//! snake moves, eats and dies, and the round is won or lost.
use vstd::prelude::*;
use crate::audio::RakeAudioMessage;
use crate::food::Food;
use crate::grid::{Grid, GridObject, ObjectType, in_grid};
use crate::item::Item;
use crate::shop::{Rarity, Shop};
use crate::snake::{Snake, SnakeDirection, is_reset_of, lives_after_gain, steered};
use crate::trigger::{
    GameError, same_kind, snapshots, all_counting_fits, counted_item, possible_sheds,
    run_triggers, trigger_state_of, agrees, TriggerState, TriggerSnapshot, trigger_step, shed_times, shed_once,
};
use crate::motion::{grown_body, followed_body, stepped_head, step_fits, off_field, body_directed};
use crate::collision::{collisions, find_collisions};

verus! {

/// What one screen of a round shows.
pub struct Frame {
    pub objects: Vec<GridObject>,
    pub direction: SnakeDirection,
    pub round_score: i32,
    pub high_score: i32,
    pub round_goal: i32,
    pub money: i32,
    pub total_score: i32,
    pub round: i32,
    pub lives: i32,
    pub length: i32,
    pub items: Vec<Item>,
}

/// What a step asks of the screen, the speakers and the score file, in the
/// order it asks.
pub enum Action {
    /// Take down the screen on top.
    ClearScreen,
    /// Open the shop with these items.
    ShowShop(Vec<Item>),
    /// Play a sound.
    Sound(RakeAudioMessage),
    /// Keep this run score as the best.
    SaveScore(i32),
    /// The round was won and paid this many coins.
    RoundWin(i32),
    /// The round was lost with this many lives left.
    RoundFailed(i32),
    /// The last life is gone.
    DeathScreen,
    /// Show this frame of the round.
    Render(Frame),
}

/// What running into the collisions of a step adds up to.
pub struct Tally {
    pub size: i32,
    pub score: i32,
    pub eaten: u32,
    pub eats: nat,
    pub hit: bool,
}

/// One collision: food adds its value to length and score and counts as
/// eaten; the snake itself kills; anything else does nothing. `None` where a
/// counter would leave its type.
pub open spec fn tally_step(t: Tally, c: GridObject) -> Option<Tally> {
    match c.obj_type {
        ObjectType::Food(v) => if i32::MIN <= t.size + v <= i32::MAX && i32::MIN <= t.score + v <= i32::MAX
            && t.eaten < u32::MAX {
            Some(
                Tally {
                    size: (t.size + v) as i32,
                    score: (t.score + v) as i32,
                    eaten: (t.eaten + 1) as u32,
                    eats: t.eats + 1,
                    ..t
                },
            )
        } else {
            None
        },
        ObjectType::Snake => Some(Tally { hit: true, ..t }),
        ObjectType::Nothing => Some(t),
    }
}

/// The collisions in order.
pub open spec fn tally(t: Tally, collisions: Seq<GridObject>) -> Option<Tally>
    decreases collisions.len(),
{
    if collisions.len() == 0 {
        Some(t)
    } else {
        match tally(t, collisions.drop_last()) {
            Some(p) => tally_step(p, collisions.last()),
            None => None,
        }
    }
}

/// Some food collision of `collisions` lies on cell `(x, y)`.
pub open spec fn eaten_at(collisions: Seq<GridObject>, x: i32, y: i32) -> bool {
    exists|k: int|
        0 <= k < collisions.len() && (#[trigger] collisions[k]).obj_type is Food && collisions[k].x == x
            && collisions[k].y == y
}

/// The food after eating: the food that stood where food was eaten has
/// moved to a random cell; the rest stands where it stood.
pub open spec fn foods_after_eating(before: Seq<Food>, after: Seq<Food>, collisions: Seq<GridObject>, grid: Grid) -> bool {
    &&& after.len() == before.len()
    &&& forall|j: int| 0 <= j < before.len() ==> same_kind(#[trigger] after[j].body, before[j].body)
    &&& forall|j: int| 0 <= j < before.len() ==> if eaten_at(collisions, before[j].body.x, before[j].body.y) {
        in_grid(grid, (#[trigger] after[j]).body)
    } else {
        after[j] == before[j]
    }
}

/// The food after all of it moved to random cells.
pub open spec fn foods_scattered(before: Seq<Food>, after: Seq<Food>, grid: Grid) -> bool {
    &&& after.len() == before.len()
    &&& forall|j: int| 0 <= j < before.len() ==> same_kind(#[trigger] after[j].body, before[j].body)
        && in_grid(grid, after[j].body)
}

/// `n` eating sounds.
pub open spec fn eat_sounds(n: nat) -> Seq<Action> {
    Seq::new(n, |j: int| Action::Sound(RakeAudioMessage::EatFood))
}

/// The coins a won round pays: the score over the goal, rounded down.
pub open spec fn win_money(score: i32, goal: i32) -> int {
    score / goal
}

/// The goal of the round after a round won with `score` against `goal`:
/// half as much again, plus half the score times half the coins paid.
pub open spec fn next_goal(goal: i32, score: i32) -> int {
    goal + goal / 2 + (score / 2) * (win_money(score, goal) / 2)
}

/// The run score once the round's score is added.
pub open spec fn run_total(s: Sandbox) -> int {
    s.total_score + s.round_score
}

/// The round reached its goal.
pub open spec fn round_won(s: Sandbox) -> bool {
    s.round_score >= s.round_goal
}

/// Ending the round keeps every counter within its type.
pub open spec fn finish_fits(s: Sandbox) -> bool {
    &&& i32::MIN <= run_total(s) <= i32::MAX
    &&& if round_won(s) {
        &&& s.snake.money + win_money(s.round_score, s.round_goal) <= i32::MAX
        &&& s.round < i32::MAX
        &&& next_goal(s.round_goal, s.round_score) <= i32::MAX
    } else {
        s.snake.lives > i32::MIN
    }
}

/// What ending the round asks for after the crash sound: the score file
/// when the run beat the best score, then the screen for a won round, a lost
/// round or the end of the game.
pub open spec fn finish_requests(s: Sandbox) -> Seq<Action> {
    let save = if run_total(s) > s.high_score {
        seq![Action::SaveScore(run_total(s) as i32)]
    } else {
        Seq::empty()
    };
    let screen = if round_won(s) {
        Action::RoundWin(win_money(s.round_score, s.round_goal) as i32)
    } else if s.snake.lives - 1 <= 0 {
        Action::DeathScreen
    } else {
        Action::RoundFailed((s.snake.lives - 1) as i32)
    };
    seq![Action::Sound(RakeAudioMessage::Die)] + save + seq![screen]
}

/// `t` is `s` once the round has ended: the run score takes the round's
/// score; a won round pays its coins, adds lives for all coins but one,
/// resets the snake, counts the next round, raises the goal and opens the
/// shop; a lost round costs a life and resets the snake, unless it was the
/// last, which ends the game. The food has moved (see `foods_scattered`).
pub open spec fn finished_from(s: Sandbox, t: Sandbox) -> bool {
    &&& t.grid == s.grid
    &&& t.high_score == s.high_score
    &&& t.shop == s.shop
    &&& t.total_score == run_total(s)
    &&& if round_won(s) {
        let coins = win_money(s.round_score, s.round_goal);
        let paid = Snake {
            lives: lives_after_gain(s.snake.lives, (coins - 1) as i32),
            money: (s.snake.money + coins) as i32,
            ..s.snake
        };
        &&& is_reset_of(paid, t.snake)
        &&& t.round == s.round + 1
        &&& t.round_goal == next_goal(s.round_goal, s.round_score)
        &&& t.round_score == 0
        &&& !t.start_round
        &&& t.in_shop
        &&& t.finished == s.finished
    } else if s.snake.lives - 1 <= 0 {
        &&& t.snake == Snake { lives: (s.snake.lives - 1) as i32, ..s.snake }
        &&& t.round == s.round
        &&& t.round_goal == s.round_goal
        &&& t.round_score == s.round_score
        &&& t.start_round == s.start_round
        &&& t.in_shop == s.in_shop
        &&& t.finished
    } else {
        &&& is_reset_of(Snake { lives: (s.snake.lives - 1) as i32, ..s.snake }, t.snake)
        &&& t.round == s.round
        &&& t.round_goal == s.round_goal
        &&& t.round_score == 0
        &&& !t.start_round
        &&& t.in_shop == s.in_shop
        &&& t.finished == s.finished
    }
}

/// What stands on the field once the snake has grown and moved in step
/// `s`: the head, then the food, then the body.
pub open spec fn moved_objects(s: Sandbox) -> Seq<GridObject> {
    seq![stepped_head(s.snake.head)] + s.food_items@.map_values(|f: Food| f.body) + followed_body(
        grown_body(s.snake),
        s.snake.head,
    )
}

/// What the collisions of step `s` add up to, from the round's length and
/// score and no food eaten yet.
pub open spec fn step_tally(s: Sandbox) -> Option<Tally> {
    tally(
        Tally { size: s.snake.size, score: s.round_score, eaten: 0, eats: 0, hit: false },
        collisions(moved_objects(s)),
    )
}

/// `m` is `s` once the snake has grown and moved one cell and eaten what it
/// ran into, as `t` adds up.
pub open spec fn moved_and_fed(s: Sandbox, t: Tally, m: Sandbox) -> bool {
    &&& m.snake.head == stepped_head(s.snake.head)
    &&& m.snake.body@ == followed_body(grown_body(s.snake), s.snake.head)
    &&& m.snake.size == t.size
    &&& m.snake.new_food_eaten == t.eaten
    &&& m.snake.lives == s.snake.lives
    &&& m.snake.items@ == s.snake.items@
    &&& m.snake.money == s.snake.money
    &&& m.round_score == t.score
    &&& foods_after_eating(s.food_items@, m.food_items@, collisions(moved_objects(s)), s.grid)
    &&& m.grid == s.grid
    &&& m.high_score == s.high_score
    &&& m.shop == s.shop
    &&& m.round_goal == s.round_goal
    &&& m.total_score == s.total_score
    &&& m.round == s.round
    &&& m.start_round == s.start_round
    &&& m.in_shop == s.in_shop
    &&& m.finished == s.finished
}

/// `f` shows step `m`, whose objects were `objects`.
pub open spec fn shows(f: Frame, m: Sandbox, objects: Seq<GridObject>) -> bool {
    &&& f.objects@ == objects
    &&& Some(f.direction) == m.snake.head.direction
    &&& f.round_score == m.round_score
    &&& f.high_score == m.high_score
    &&& f.round_goal == m.round_goal
    &&& f.money == m.snake.money
    &&& f.total_score == m.total_score
    &&& f.round == m.round
    &&& f.lives == m.snake.lives
    &&& f.length == m.snake.size
    &&& f.items@ == m.snake.items@
}

/// The rest of step `s` once the items have gone off, ending in `e` and
/// taking the requests from `before` to `after`; `ok` tells whether it was
/// carried out.
pub open spec fn settled(s: Sandbox, e: Sandbox, before: Seq<Action>, after: Seq<Action>, ok: bool) -> bool {
    &&& ok ==> step_fits(s.snake.head) && step_tally(s) is Some
    &&& step_fits(s.snake.head) ==> (step_tally(s) matches Some(t) ==> {
        let die = off_field(s.snake.head, s.grid) || t.hit;
        if die {
            exists|m: Sandbox| {
                &&& #[trigger] moved_and_fed(s, t, m)
                &&& (ok <==> finish_fits(m))
                &&& ok ==> {
                    &&& finished_from(m, e)
                    &&& foods_scattered(m.food_items@, e.food_items@, s.grid)
                    &&& after == before + eat_sounds(t.eats) + finish_requests(m)
                }
            }
        } else {
            &&& ok
            &&& moved_and_fed(s, t, e)
            &&& after.len() == before.len() + t.eats + 1
            &&& after.take((before.len() + t.eats) as int) == before + eat_sounds(t.eats)
            &&& after.last() matches Action::Render(f) && shows(f, e, moved_objects(s))
        }
    })
}

/// `mid` is `s` once the food eaten has been counted on the snake's items
/// and the ready ones have gone off (see `Game::trigger_items`).
pub open spec fn items_went_off(s: Sandbox, mid: Sandbox) -> bool {
    let eaten = s.snake.new_food_eaten;
    let snaps = snapshots(s.snake.items@, eaten);
    &&& mid.snake.head == s.snake.head
    &&& mid.snake.lives == s.snake.lives
    &&& mid.snake.money == s.snake.money
    &&& mid.snake.new_food_eaten == eaten
    &&& all_counting_fits(s.snake.items@, eaten)
    &&& mid.snake.items@ == s.snake.items@.map_values(|it: Item| counted_item(it, eaten))
    &&& exists|sheds: Seq<nat>| {
        &&& possible_sheds(snaps, eaten, sheds)
        &&& #[trigger] run_triggers(trigger_state_of(s.snake, s.round_score, s.food_items@), snaps, eaten, sheds)
            matches Some(m)
        &&& agrees(mid.snake, mid.round_score, mid.food_items@, m, s.food_items@.len() as nat, s.grid)
    }
    &&& mid.grid == s.grid
    &&& mid.high_score == s.high_score
    &&& mid.shop == s.shop
    &&& mid.round_goal == s.round_goal
    &&& mid.total_score == s.total_score
    &&& mid.round == s.round
    &&& mid.start_round == s.start_round
    &&& mid.in_shop == s.in_shop
    &&& mid.finished == s.finished
}

/// Counting or an item's effect leaves a counter's type in step `s`, for
/// some roll of the dice.
pub open spec fn items_fail(s: Sandbox) -> bool {
    let eaten = s.snake.new_food_eaten;
    let snaps = snapshots(s.snake.items@, eaten);
    ||| !all_counting_fits(s.snake.items@, eaten)
    ||| exists|sheds: Seq<nat>| {
        &&& possible_sheds(snaps, eaten, sheds)
        &&& #[trigger] run_triggers(trigger_state_of(s.snake, s.round_score, s.food_items@), snaps, eaten, sheds)
            is None
    }
}

/// A step of the round from `s` to `e`: the screen is cleared, the items go
/// off, and the rest of the step follows (see `settled`). With `ok` the step
/// was carried out and asked for `acts`; without it, some counter would have
/// left its type.
pub open spec fn stepped_round(s: Sandbox, e: Sandbox, ok: bool, acts: Seq<Action>) -> bool {
    if ok {
        exists|mid: Sandbox| #[trigger] items_went_off(s, mid) && settled(mid, e, seq![Action::ClearScreen], acts, true)
    } else {
        ||| items_fail(s)
        ||| exists|mid: Sandbox| #[trigger] items_went_off(s, mid) && settled(mid, e, seq![Action::ClearScreen], seq![], false)
    }
}

/// The shop offers `items`: each is one of its stock.
pub open spec fn offered(shop: Shop, items: Seq<Item>) -> bool {
    forall|j: int| 0 <= j < items.len() ==> #[trigger] in_stock(shop, items[j])
}

/// `it` is one of the shop's stock.
pub open spec fn in_stock(shop: Shop, it: Item) -> bool {
    exists|rarity: Rarity| #[trigger] shop.stock(rarity).contains(it)
}

/// How many items the shop offers.
pub const OFFER_SIZE: usize = 3;
/// The first food of a game: worth ten, drawn as `o`.
pub const FIRST_FOOD_VALUE: i32 = 10;
pub const FIRST_FOOD_ICON: char = 'o';
/// The goal of the first round.
pub const FIRST_GOAL: i32 = 2;

/// A game in progress.
pub struct Sandbox {
    pub grid: Grid,
    pub high_score: i32,
    pub shop: Shop,
    pub snake: Snake,
    pub food_items: Vec<Food>,
    pub round_goal: i32,
    pub round_score: i32,
    pub total_score: i32,
    pub round: i32,
    pub start_round: bool,
    pub in_shop: bool,
    pub finished: bool,
}

/// Runs into each collision in order: food is eaten, the food on its cell
/// moves to a random cell and an eating sound is asked for. Returns whether
/// the snake ran into itself.
fn eat(
    snake: &mut Snake,
    foods: &mut Vec<Food>,
    score: &mut i32,
    collisions: &Vec<GridObject>,
    grid: Grid,
    actions: &mut Vec<Action>,
) -> (r: Result<bool, GameError>)
    requires
        grid.x > 0,
        grid.y > 0,
    ensures
        final(snake).head == old(snake).head,
        final(snake).body@ == old(snake).body@,
        final(snake).lives == old(snake).lives,
        final(snake).items@ == old(snake).items@,
        final(snake).money == old(snake).money,
        match tally(
            Tally { size: old(snake).size, score: *old(score), eaten: old(snake).new_food_eaten, eats: 0, hit: false },
            collisions@,
        ) {
            Some(t) => r == Ok::<bool, GameError>(t.hit) && final(snake).size == t.size && *final(score) == t.score
                && final(snake).new_food_eaten == t.eaten && final(actions)@ == old(actions)@ + eat_sounds(t.eats)
                && foods_after_eating(old(foods)@, final(foods)@, collisions@, grid),
            None => r is Err,
        },
{
    let ghost t0 = Tally { size: snake.size, score: *score, eaten: snake.new_food_eaten, eats: 0, hit: false };
    let ghost foods0 = foods@;
    let ghost mut t = t0;
    let mut hit = false;
    let n = collisions.len();
    let mut k: usize = 0;
    assert(collisions@.take(0) =~= Seq::<GridObject>::empty());
    while k < n
        invariant
            n == collisions@.len(),
            k <= n,
            grid.x > 0,
            grid.y > 0,
            tally(t0, collisions@.take(k as int)) == Some(t),
            t.size == snake.size,
            t.score == *score,
            t.eaten == snake.new_food_eaten,
            t.hit == hit,
            actions@ == old(actions)@ + eat_sounds(t.eats),
            foods_after_eating(foods0, foods@, collisions@.take(k as int), grid),
            foods0 == old(foods)@,
            t0 == (Tally { size: old(snake).size, score: *old(score), eaten: old(snake).new_food_eaten, eats: 0, hit: false }),
            snake.head == old(snake).head,
            snake.body@ == old(snake).body@,
            snake.lives == old(snake).lives,
            snake.items@ == old(snake).items@,
            snake.money == old(snake).money,
        decreases n - k,
    {
        let c = collisions[k];
        let ghost seen = collisions@.take(k as int);
        let ghost seen2 = collisions@.take(k + 1);
        assert(seen2.drop_last() =~= seen);
        assert(seen2.last() == c);
        assert forall|x: i32, y: i32| eaten_at(seen, x, y) implies eaten_at(seen2, x, y) by {
            let w = choose|w: int| 0 <= w < seen.len() && (#[trigger] seen[w]).obj_type is Food && seen[w].x == x
                && seen[w].y == y;
            assert(seen2[w] == seen[w]);
        }
        match c.obj_type {
            ObjectType::Nothing => {},
            ObjectType::Food(value) => {
                if (snake.size as i64) + (value as i64) > (i32::MAX as i64)
                    || (snake.size as i64) + (value as i64) < (i32::MIN as i64)
                    || (*score as i64) + (value as i64) > (i32::MAX as i64)
                    || (*score as i64) + (value as i64) < (i32::MIN as i64)
                    || snake.new_food_eaten == u32::MAX {
                    proof {
                        lemma_tally_stops(t0, collisions@, k as int);
                    }
                    return Err(GameError::Overflow);
                }
                actions.push(Action::Sound(RakeAudioMessage::EatFood));
                snake.size = snake.size + value;
                *score = *score + value;
                snake.new_food_eaten = snake.new_food_eaten + 1;
                let ghost before_reset = foods@;
                let m = foods.len();
                let mut j: usize = 0;
                while j < m
                    invariant
                        m == foods@.len(),
                        m == before_reset.len(),
                        j <= m,
                        grid.x > 0,
                        grid.y > 0,
                        forall|i: int| 0 <= i < m ==> same_kind(#[trigger] foods@[i].body, before_reset[i].body),
                        forall|i: int| 0 <= i < j ==> if before_reset[i].body.x == c.x && before_reset[i].body.y == c.y {
                            in_grid(grid, (#[trigger] foods@[i]).body)
                        } else {
                            foods@[i] == before_reset[i]
                        },
                        forall|i: int| j <= i < m ==> #[trigger] foods@[i] == before_reset[i],
                    decreases m - j,
                {
                    if foods[j].body.x == c.x && foods[j].body.y == c.y {
                        foods[j].reset(grid);
                    }
                    j = j + 1;
                }
                proof {
                    assert forall|i: int| 0 <= i < foods0.len() implies (if eaten_at(seen2, foods0[i].body.x, foods0[i].body.y) {
                        in_grid(grid, (#[trigger] foods@[i]).body)
                    } else {
                        foods@[i] == foods0[i]
                    }) by {
                        if eaten_at(seen, foods0[i].body.x, foods0[i].body.y) {
                        } else if foods0[i].body.x == c.x && foods0[i].body.y == c.y {
                            assert(seen2[k as int] == c);
                        } else {
                            assert forall|w: int| 0 <= w < seen2.len() && (#[trigger] seen2[w]).obj_type is Food implies
                                !(seen2[w].x == foods0[i].body.x && seen2[w].y == foods0[i].body.y) by {
                                if w < k {
                                    assert(seen2[w] == seen[w]);
                                }
                            }
                        }
                    }
                    t = tally_step(t, c).unwrap();
                    assert(eat_sounds(t.eats) =~= eat_sounds((t.eats - 1) as nat).push(
                        Action::Sound(RakeAudioMessage::EatFood),
                    ));
                }
            },
            ObjectType::Snake => {
                hit = true;
                proof {
                    t = tally_step(t, c).unwrap();
                }
            },
        }
        proof {
            if !(c.obj_type is Food) {
                assert forall|i: int| 0 <= i < foods0.len() implies (if eaten_at(seen2, foods0[i].body.x, foods0[i].body.y) {
                    in_grid(grid, (#[trigger] foods@[i]).body)
                } else {
                    foods@[i] == foods0[i]
                }) by {
                    if !eaten_at(seen, foods0[i].body.x, foods0[i].body.y) {
                        assert forall|w: int| 0 <= w < seen2.len() && (#[trigger] seen2[w]).obj_type is Food implies
                            !(seen2[w].x == foods0[i].body.x && seen2[w].y == foods0[i].body.y) by {
                            if w < k {
                                assert(seen2[w] == seen[w]);
                            }
                        }
                    }
                }
            }
        }
        k = k + 1;
    }
    assert(collisions@.take(n as int) =~= collisions@);
    Ok(hit)
}

/// Copies of the items, in order.
pub fn copy_items(items: &Vec<Item>) -> (r: Vec<Item>)
    ensures
        r@ == items@,
{
    let mut out: Vec<Item> = Vec::new();
    let n = items.len();
    let mut j: usize = 0;
    while j < n
        invariant
            n == items@.len(),
            j <= n,
            out@ == items@.take(j as int),
        decreases n - j,
    {
        out.push(items[j].duplicate());
        assert(out@ =~= items@.take(j + 1));
        j = j + 1;
    }
    assert(items@.take(n as int) =~= items@);
    out
}

/// Shedding keeps every segment's way.
pub proof fn lemma_shed_keeps_directed(m: TriggerState, sheds: nat)
    requires
        body_directed(m.body),
    ensures
        body_directed(shed_times(m, sheds).body),
    decreases sheds,
{
    if sheds > 0 {
        lemma_shed_keeps_directed(m, (sheds - 1) as nat);
        let p = shed_times(m, (sheds - 1) as nat);
        let q = shed_once(p);
        assert forall|j: int| 0 <= j < q.body.len() implies (#[trigger] q.body[j]).direction.is_some() by {
            assert(q.body[j] == p.body[j]);
        }
    }
}

/// No item's effect takes a segment's way.
pub proof fn lemma_run_keeps_directed(m: TriggerState, snaps: Seq<TriggerSnapshot>, eaten: u32, sheds: Seq<nat>)
    requires
        body_directed(m.body),
        run_triggers(m, snaps, eaten, sheds) is Some,
    ensures
        body_directed(run_triggers(m, snaps, eaten, sheds).unwrap().body),
    decreases snaps.len(),
{
    if snaps.len() > 0 {
        lemma_run_keeps_directed(m, snaps.drop_last(), eaten, sheds);
        let p = run_triggers(m, snaps.drop_last(), eaten, sheds).unwrap();
        let k = sheds[snaps.len() - 1];
        lemma_shed_keeps_directed(p, k);
        let q = trigger_step(p, snaps.last(), eaten, k).unwrap();
        if snaps.last().item_type != crate::item::ItemType::Shedding {
            assert forall|j: int| 0 <= j < q.body.len() implies (#[trigger] q.body[j]).direction.is_some() by {
                assert(p.body[j].direction.is_some());
            }
        }
    }
}

/// Growing and following the head keep every segment's way.
pub proof fn lemma_moved_body_directed(snake: Snake)
    requires
        snake.head.direction.is_some(),
        body_directed(snake.body@),
    ensures
        body_directed(followed_body(grown_body(snake), snake.head)),
{
    let g = grown_body(snake);
    assert forall|j: int| 0 <= j < g.len() implies (#[trigger] g[j]).direction.is_some() by {
        if j < snake.body@.len() {
            assert(g[j] == snake.body@[j]);
        } else if snake.body@.len() > 0 {
            assert(snake.body@.last() == snake.body@[snake.body@.len() - 1]);
        }
    }
    let f = followed_body(g, snake.head);
    assert forall|j: int| 0 <= j < f.len() implies (#[trigger] f[j]).direction.is_some() by {
        if j > 0 {
            assert(g[j].direction.is_some());
        }
    }
}

/// A won round never lowers the goal.
pub proof fn lemma_next_goal_grows(goal: i32, score: i32)
    requires
        0 < goal <= score,
    ensures
        next_goal(goal, score) >= goal,
{
    let coins = win_money(score, goal);
    assert(coins >= 1) by (nonlinear_arith)
        requires
            0 < goal <= score,
            coins == score / goal,
    {}
    let a = score / 2;
    let b = coins / 2;
    assert(a * b >= 0) by (nonlinear_arith)
        requires
            a >= 0,
            b >= 0,
    {}
}

/// A tally over collisions of which none is part of the snake never counts
/// a run into the snake.
pub proof fn lemma_tally_no_hit(t: Tally, collisions: Seq<GridObject>)
    requires
        !t.hit,
        forall|k: int| 0 <= k < collisions.len() ==> (#[trigger] collisions[k]).obj_type != ObjectType::Snake,
        tally(t, collisions) is Some,
    ensures
        !tally(t, collisions).unwrap().hit,
    decreases collisions.len(),
{
    if collisions.len() > 0 {
        let prev = collisions.drop_last();
        assert forall|k: int| 0 <= k < prev.len() implies (#[trigger] prev[k]).obj_type != ObjectType::Snake by {
            assert(prev[k] == collisions[k]);
        }
        lemma_tally_no_hit(t, prev);
        assert(collisions.last() == collisions[collisions.len() - 1]);
    }
}

/// What `PhantomSnake` promises: once no segment of the body is part of the
/// snake (as `PhantomSnake` leaves it when it goes off) and no food is, the
/// snake cannot run into itself in the step: no collision is a part of the
/// snake and the step's tally counts no such hit.
pub proof fn law_phantom_snake_never_hits_itself(s: Sandbox)
    requires
        s.snake.head.direction.is_some(),
        step_fits(s.snake.head),
        forall|j: int| 0 <= j < s.snake.body@.len() ==> (#[trigger] s.snake.body@[j]).obj_type != ObjectType::Snake,
        forall|j: int| 0 <= j < s.food_items@.len() ==> (#[trigger] s.food_items@[j]).body.obj_type != ObjectType::Snake,
    ensures
        forall|k: int| 0 <= k < collisions(moved_objects(s)).len() ==>
            (#[trigger] collisions(moved_objects(s))[k]).obj_type != ObjectType::Snake,
        step_tally(s) matches Some(t) ==> !t.hit,
{
    let objects = moved_objects(s);
    let h = stepped_head(s.snake.head);
    let foods = s.food_items@.map_values(|f: Food| f.body);
    let nf = foods.len();
    let moved = followed_body(grown_body(s.snake), s.snake.head);
    assert(objects[0] == h);
    assert forall|i: int| 1 <= i < 1 + nf implies (#[trigger] objects[i]).obj_type != ObjectType::Snake by {
        assert(objects[i] == foods[i - 1]);
        assert(foods[i - 1] == s.food_items@[i - 1].body);
    }
    assert forall|i: int| 1 + nf <= i < objects.len() implies #[trigger] objects[i] == moved[i - 1 - nf] by {}
    if s.snake.body@.len() > 0 {
        crate::motion::law_harmless_body_stays_harmless(s.snake);
        assert forall|i: int| 1 + nf <= i < objects.len() implies (#[trigger] objects[i]).obj_type != ObjectType::Snake by {
            assert(objects[i] == moved[i - 1 - nf]);
        }
    } else {
        assert forall|i: int| 1 + nf <= i < objects.len() implies (#[trigger] objects[i]).x == s.snake.head.x
            && objects[i].y == s.snake.head.y && i == 1 + nf by {
            assert(objects[i] == moved[i - 1 - nf]);
        }
    }
    assert forall|a: int, b: int|
        0 <= a < objects.len() && 0 <= b < objects.len() && a != b && (#[trigger] objects[a]).obj_type
            == ObjectType::Snake && (#[trigger] objects[b]).obj_type == ObjectType::Snake implies !(objects[a].x
            == objects[b].x && objects[a].y == objects[b].y) by {
        crate::motion::law_head_moves_one_cell(s.snake.head);
    }
    assert forall|k: int| 0 <= k < collisions(objects).len() implies
        (#[trigger] collisions(objects)[k]).obj_type != ObjectType::Snake by {
        crate::collision::law_parts_apart_never_hit(objects, k);
    }
    if step_tally(s) is Some {
        lemma_tally_no_hit(
            Tally { size: s.snake.size, score: s.round_score, eaten: 0, eats: 0, hit: false },
            collisions(objects),
        );
    }
}

/// A won round with score `s` against goal `g` pays `s / g` coins, raises
/// the goal by `g / 2` plus `(s / 2) * ((s / g) / 2)`, and asks for the
/// win screen with those coins last.
pub proof fn law_won_round_pays(s: Sandbox, t: Sandbox)
    requires
        finished_from(s, t),
        finish_fits(s),
        round_won(s),
        s.round_goal > 0,
    ensures
        t.snake.money == s.snake.money + s.round_score / s.round_goal,
        t.round_goal == s.round_goal + s.round_goal / 2 + (s.round_score / 2) * ((s.round_score / s.round_goal) / 2),
        finish_requests(s).last() == Action::RoundWin((s.round_score / s.round_goal) as i32),
        finish_requests(s)[0] == Action::Sound(RakeAudioMessage::Die),
{
}

/// Ending a round asks for the crash sound first, then for keeping the run
/// score exactly when the run score with this round's beats the best score,
/// and last for one screen: the win, the end of the game when no life is
/// left, or the lost round with the lives that remain.
pub proof fn law_finish_requests(s: Sandbox)
    requires
        i32::MIN <= s.total_score + s.round_score <= i32::MAX,
        s.round_score >= s.round_goal ==> s.round_goal > 0,
        s.snake.lives > i32::MIN,
    ensures
        finish_requests(s)[0] == Action::Sound(RakeAudioMessage::Die),
        s.total_score + s.round_score > s.high_score ==> finish_requests(s).len() == 3 && finish_requests(s)[1]
            == Action::SaveScore((s.total_score + s.round_score) as i32),
        s.total_score + s.round_score <= s.high_score ==> finish_requests(s).len() == 2,
        s.round_score < s.round_goal && s.snake.lives - 1 <= 0 ==> finish_requests(s).last() == Action::DeathScreen,
        s.round_score < s.round_goal && s.snake.lives - 1 > 0 ==> finish_requests(s).last() == Action::RoundFailed(
            (s.snake.lives - 1) as i32,
        ),
        s.round_score >= s.round_goal ==> finish_requests(s).last() == Action::RoundWin(
            (s.round_score / s.round_goal) as i32,
        ),
{
}

/// Every collision with food adds its value to length and score and counts
/// one food eaten; a collision with the snake marks a hit and changes nothing
/// else; a collision with anything else changes nothing.
pub proof fn law_collision_effects(t: Tally, c: GridObject)
    ensures
        c.obj_type matches ObjectType::Food(v) ==> (
            (i32::MIN <= t.size + v <= i32::MAX && i32::MIN <= t.score + v <= i32::MAX && t.eaten < u32::MAX) ==> (
                tally_step(t, c) matches Some(n) && n.size == t.size + v && n.score == t.score + v && n.eaten
                    == t.eaten + 1 && n.eats == t.eats + 1 && n.hit == t.hit)),
        c.obj_type == ObjectType::Snake ==> (tally_step(t, c) matches Some(n) && n.hit && n.size == t.size
            && n.score == t.score && n.eaten == t.eaten && n.eats == t.eats),
        c.obj_type == ObjectType::Nothing ==> tally_step(t, c) == Some(t),
{
}

/// Every round's score is added to the run score when the round ends.
pub proof fn law_run_score_accumulates(s: Sandbox, t: Sandbox)
    requires
        finished_from(s, t),
    ensures
        t.total_score == s.total_score + s.round_score,
{
}

/// A lost round costs exactly one life and leaves the round and its goal as
/// they were; the game ends exactly when that was the last life.
pub proof fn law_lost_round_costs_a_life(s: Sandbox, t: Sandbox)
    requires
        finished_from(s, t),
        finish_fits(s),
        !round_won(s),
    ensures
        t.snake.lives == s.snake.lives - 1,
        t.round == s.round,
        t.round_goal == s.round_goal,
        t.finished <==> (s.finished || s.snake.lives - 1 <= 0),
{
}

/// A won round pays at least one coin, moves on to the next round with a
/// goal no lower, opens the shop and starts the score again; lives stay at
/// most five.
pub proof fn law_won_round_moves_on(s: Sandbox, t: Sandbox)
    requires
        finished_from(s, t),
        finish_fits(s),
        round_won(s),
        s.round_goal > 0,
        s.snake.lives <= crate::snake::MAX_LIVES,
    ensures
        t.snake.money >= s.snake.money + 1,
        t.round == s.round + 1,
        t.round_goal >= s.round_goal,
        t.in_shop,
        !t.start_round,
        t.round_score == 0,
        t.snake.lives <= crate::snake::MAX_LIVES,
        t.snake.body@.len() == 0,
{
    let coins = win_money(s.round_score, s.round_goal);
    assert(coins >= 1) by (nonlinear_arith)
        requires
            0 < s.round_goal <= s.round_score,
            coins == s.round_score / s.round_goal,
    {}
    lemma_next_goal_grows(s.round_goal, s.round_score);
}

impl Sandbox {
    /// The game's invariant: a field with cells, a stocked shop, a snake
    /// whose head and every segment know their way, and a goal above zero.
    pub open spec fn wf(self) -> bool {
        &&& self.grid.x > 0
        &&& self.grid.y > 0
        &&& self.shop.is_stocked()
        &&& self.snake.head.direction.is_some()
        &&& body_directed(self.snake.body@)
        &&& self.round_goal > 0
    }

    /// What stands on the field: the head, then the food, then the body.
    fn field_objects(&self) -> (r: Vec<GridObject>)
        ensures
            r@ == seq![self.snake.head] + self.food_items@.map_values(|f: Food| f.body) + self.snake.body@,
    {
        let mut objects: Vec<GridObject> = Vec::new();
        objects.push(self.snake.head);
        let n = self.food_items.len();
        let mut j: usize = 0;
        while j < n
            invariant
                n == self.food_items@.len(),
                j <= n,
                objects@ == seq![self.snake.head] + self.food_items@.take(j as int).map_values(|f: Food| f.body),
            decreases n - j,
        {
            objects.push(self.food_items[j].body);
            assert(self.food_items@.take(j + 1).map_values(|f: Food| f.body) =~= self.food_items@.take(
                j as int,
            ).map_values(|f: Food| f.body).push(self.food_items@[j as int].body));
            j = j + 1;
        }
        assert(self.food_items@.take(n as int) =~= self.food_items@);
        let ghost front = objects@;
        let m = self.snake.body.len();
        let mut k: usize = 0;
        while k < m
            invariant
                m == self.snake.body@.len(),
                k <= m,
                objects@ == front + self.snake.body@.take(k as int),
            decreases m - k,
        {
            objects.push(self.snake.body[k]);
            assert(objects@ =~= front + self.snake.body@.take(k + 1));
            k = k + 1;
        }
        assert(self.snake.body@.take(m as int) =~= self.snake.body@);
        objects
    }

    /// The rest of a step once the items have gone off: the snake grows,
    /// its body follows its head, its head moves a cell, and it runs into
    /// what stands on its cells; if it left the field or ran into itself the
    /// round ends, else the frame is shown.
    fn settle(&mut self, actions: &mut Vec<Action>) -> (r: Result<(), GameError>)
        requires
            old(self).grid.x > 0,
            old(self).grid.y > 0,
            old(self).round_goal > 0,
            old(self).snake.head.direction.is_some(),
            body_directed(old(self).snake.body@),
        ensures
            settled(*old(self), *final(self), old(actions)@, final(actions)@, r is Ok),
    {
        let ghost s = *self;
        self.snake.new_food_eaten = 0;
        self.snake.grow();
        let off = self.snake.head_off_field(self.grid);
        proof {
            assert forall|j: int| 0 <= j < self.snake.body@.len() implies (#[trigger] self.snake.body@[j]).direction.is_some() by {
                if j >= s.snake.body@.len() {
                    if s.snake.body@.len() > 0 {
                        assert(s.snake.body@.last() == s.snake.body@[s.snake.body@.len() - 1]);
                    }
                } else {
                    assert(self.snake.body@[j] == s.snake.body@[j]);
                }
            }
        }
        self.snake.follow_head();
        match self.snake.advance_head() {
            Ok(_) => {},
            Err(e) => return Err(e),
        }
        let objects = self.field_objects();
        assert(objects@ =~= moved_objects(s));
        let hits = find_collisions(&objects);
        let grid = self.grid;
        let hit = match eat(&mut self.snake, &mut self.food_items, &mut self.round_score, &hits, grid, actions) {
            Ok(h) => h,
            Err(e) => return Err(e),
        };
        let ghost t = step_tally(s).unwrap();
        let ghost m = *self;
        assert(moved_and_fed(s, t, m));
        if off || hit {
            let fin = self.finish_round(actions);
            proof {
                assert(moved_and_fed(s, t, m));
            }
            fin
        } else {
            let direction = self.snake.head.direction.unwrap();
            let frame = Frame {
                objects,
                direction,
                round_score: self.round_score,
                high_score: self.high_score,
                round_goal: self.round_goal,
                money: self.snake.money,
                total_score: self.total_score,
                round: self.round,
                lives: self.snake.lives,
                length: self.snake.size,
                items: copy_items(&self.snake.items),
            };
            let ghost before = actions@;
            actions.push(Action::Render(frame));
            assert(actions@.take(before.len() as int) =~= before);
            Ok(())
        }
    }

    /// A game on `grid` against the best score `high_score`: a fresh shop, a
    /// snake at the corner heading right with five lives, one food worth ten
    /// at a random cell, round one with a goal of two, waiting to start.
    pub fn new(grid: Grid, high_score: i32) -> (r: Self)
        requires
            grid.x > 0,
            grid.y > 0,
        ensures
            r.wf(),
            r.grid == grid,
            r.high_score == high_score,
            crate::shop::is_common_stock(r.shop.common_items@),
            crate::shop::is_rare_stock(r.shop.rare_items@),
            crate::shop::is_ultra_rare_stock(r.shop.ultra_rare_items@),
            r.snake.head == (GridObject {
                x: 0,
                y: 0,
                i: crate::snake::HEAD_ICON,
                obj_type: ObjectType::Snake,
                direction: Some(SnakeDirection::Right),
            }),
            r.snake.body@.len() == 0,
            r.snake.size == 0,
            r.snake.lives == crate::snake::MAX_LIVES,
            r.snake.items@.len() == 0,
            r.snake.money == 0,
            r.snake.new_food_eaten == 0,
            r.food_items@.len() == 1,
            r.food_items@[0].body.i == FIRST_FOOD_ICON,
            r.food_items@[0].body.obj_type == ObjectType::Food(FIRST_FOOD_VALUE),
            r.food_items@[0].body.direction.is_none(),
            in_grid(grid, r.food_items@[0].body),
            r.round_goal == FIRST_GOAL,
            r.round_score == 0,
            r.total_score == 0,
            r.round == 1,
            r.start_round,
            !r.in_shop,
            !r.finished,
    {
        let shop = Shop::new();
        let mut snake = Snake::new(1, 1);
        snake.reset();
        let mut food_items: Vec<Food> = Vec::new();
        food_items.push(Food::new(grid, FIRST_FOOD_VALUE, FIRST_FOOD_ICON));
        Sandbox {
            grid,
            high_score,
            shop,
            snake,
            food_items,
            round_goal: FIRST_GOAL,
            round_score: 0,
            total_score: 0,
            round: 1,
            start_round: true,
            in_shop: false,
            finished: false,
        }
    }

    /// An arrow key: turns the snake, unless that would reverse it.
    pub fn steer(&mut self, direction: SnakeDirection)
        ensures
            old(self).wf() ==> final(self).wf(),
            final(self).snake.head.direction == steered(old(self).snake.head.direction, direction),
            final(self).snake.head.x == old(self).snake.head.x,
            final(self).snake.head.y == old(self).snake.head.y,
            final(self).snake.head.i == old(self).snake.head.i,
            final(self).snake.head.obj_type == old(self).snake.head.obj_type,
            final(self).snake.body@ == old(self).snake.body@,
            final(self).snake.size == old(self).snake.size,
            final(self).snake.lives == old(self).snake.lives,
            final(self).snake.items@ == old(self).snake.items@,
            final(self).snake.money == old(self).snake.money,
            final(self).snake.new_food_eaten == old(self).snake.new_food_eaten,
            *final(self) == (Sandbox { snake: final(self).snake, ..*old(self) }),
    {
        self.snake.steer(direction);
    }

    /// The start key, or leaving the shop: the next round may start.
    pub fn request_start(&mut self)
        ensures
            *final(self) == (Sandbox { start_round: true, ..*old(self) }),
    {
        self.start_round = true;
    }

    /// A buy button of the shop: buys `item` if the snake can pay for it.
    /// Returns whether it did.
    pub fn buy(&mut self, item: Item) -> (bought: bool)
        requires
            old(self).snake.money >= item.value ==> old(self).snake.money - item.value <= i32::MAX,
        ensures
            bought == (old(self).snake.money >= item.value),
            bought ==> final(self).snake.money == old(self).snake.money - item.value
                && final(self).snake.items@ == old(self).snake.items@.push(item),
            !bought ==> final(self).snake.money == old(self).snake.money
                && final(self).snake.items@ == old(self).snake.items@,
            final(self).snake.head == old(self).snake.head,
            final(self).snake.body@ == old(self).snake.body@,
            final(self).snake.size == old(self).snake.size,
            final(self).snake.lives == old(self).snake.lives,
            final(self).snake.new_food_eaten == old(self).snake.new_food_eaten,
            *final(self) == (Sandbox { snake: final(self).snake, ..*old(self) }),
    {
        self.snake.buy(item)
    }

    /// Leaves the shop screen's flags behind and picks three items to offer,
    /// each drawn as `Shop::get_shop_item` draws.
    pub fn open_shop(&mut self) -> (r: Vec<Item>)
        requires
            old(self).shop.is_stocked(),
        ensures
            r@.len() == 3,
            offered(old(self).shop, r@),
            *final(self) == (Sandbox { start_round: false, in_shop: false, ..*old(self) }),
    {
        self.start_round = false;
        self.in_shop = false;
        let ghost shop0 = self.shop;
        let mut items: Vec<Item> = Vec::new();
        let mut k: usize = 0;
        while k < OFFER_SIZE
            invariant
                k <= OFFER_SIZE,
                items@.len() == k,
                self.shop == shop0,
                shop0 == old(self).shop,
                shop0.is_stocked(),
                offered(shop0, items@),
                *self == (Sandbox { start_round: false, in_shop: false, ..*old(self) }),
            decreases OFFER_SIZE - k,
        {
            match self.shop.get_shop_item() {
                Some(it) => {
                    let copy = it.duplicate();
                    assert(in_stock(shop0, copy));
                    items.push(copy);
                },
                None => {},
            }
            assert(offered(shop0, items@)) by {
                assert forall|j: int| 0 <= j < items@.len() implies #[trigger] in_stock(shop0, items@[j]) by {
                    if j < k {
                    }
                }
            }
            k = k + 1;
        }
        items
    }

    /// One step of the game, as its loop takes it: once the game has ended,
    /// nothing; when the shop is due and a start was asked for, the shop
    /// opens; when a start was asked for outside the shop, a step of the
    /// round; otherwise nothing.
    pub fn tick(&mut self) -> (r: Result<Vec<Action>, GameError>)
        requires
            old(self).wf(),
        ensures
            r is Ok ==> final(self).wf(),
            if old(self).finished || (!old(self).start_round) {
                &&& r matches Ok(acts) && acts@.len() == 0
                &&& *final(self) == *old(self)
            } else if old(self).in_shop {
                &&& r matches Ok(acts) && acts@.len() == 1
                    && (acts@[0] matches Action::ShowShop(items) && items@.len() == 3 && offered(old(self).shop, items@))
                &&& *final(self) == (Sandbox { start_round: false, in_shop: false, ..*old(self) })
            } else {
                &&& r matches Ok(acts) ==> stepped_round(*old(self), *final(self), true, acts@)
                &&& r is Err ==> stepped_round(*old(self), *final(self), false, seq![])
            },
    {
        if self.finished {
            return Ok(Vec::new());
        }
        if self.in_shop && self.start_round {
            let items = self.open_shop();
            let mut actions: Vec<Action> = Vec::new();
            actions.push(Action::ShowShop(items));
            return Ok(actions);
        }
        if self.start_round && !self.in_shop {
            return self.step_round();
        }
        Ok(Vec::new())
    }

    /// One step of a round: the screen is cleared, the snake's items go off,
    /// and the snake moves and eats, dies or is shown.
    pub fn step_round(&mut self) -> (r: Result<Vec<Action>, GameError>)
        requires
            old(self).wf(),
        ensures
            r is Ok ==> final(self).wf(),
            r matches Ok(acts) ==> stepped_round(*old(self), *final(self), true, acts@),
            r is Err ==> stepped_round(*old(self), *final(self), false, seq![]),
    {
        let ghost s = *self;
        let mut actions: Vec<Action> = Vec::new();
        actions.push(Action::ClearScreen);
        let grid = self.grid;
        match crate::game::Game::trigger_items(&mut self.snake, &mut self.food_items, grid, &mut self.round_score) {
            Ok(_) => {},
            Err(e) => {
                assert(items_fail(s));
                return Err(e);
            },
        }
        let ghost mid = *self;
        assert(items_went_off(s, mid));
        proof {
            let eaten = s.snake.new_food_eaten;
            let snaps = snapshots(s.snake.items@, eaten);
            let m0 = trigger_state_of(s.snake, s.round_score, s.food_items@);
            let sheds = choose|sheds: Seq<nat>| {
                &&& possible_sheds(snaps, eaten, sheds)
                &&& #[trigger] run_triggers(m0, snaps, eaten, sheds) matches Some(m)
                &&& agrees(mid.snake, mid.round_score, mid.food_items@, m, s.food_items@.len() as nat, s.grid)
            };
            lemma_run_keeps_directed(m0, snaps, eaten, sheds);
        }
        let ghost pre_settle = actions@;
        let settled_ok = self.settle(&mut actions);
        proof {
            assert(pre_settle =~= seq![Action::ClearScreen]);
        }
        match settled_ok {
            Ok(_) => {
                proof {
                    let t = step_tally(mid).unwrap();
                    lemma_moved_body_directed(mid.snake);
                    if off_field(mid.snake.head, mid.grid) || t.hit {
                        let m = choose|m: Sandbox| {
                            &&& #[trigger] moved_and_fed(mid, t, m)
                            &&& (true <==> finish_fits(m))
                            &&& true ==> {
                                &&& finished_from(m, *self)
                                &&& foods_scattered(m.food_items@, self.food_items@, mid.grid)
                                &&& actions@ == pre_settle + eat_sounds(t.eats) + finish_requests(m)
                            }
                        };
                        if round_won(m) {
                            lemma_next_goal_grows(m.round_goal, m.round_score);
                        }
                    }
                    assert(stepped_round(s, *self, true, actions@));
                }
                Ok(actions)
            },
            Err(e) => {
                assert(stepped_round(s, *self, false, seq![]));
                Err(e)
            },
        }
    }

    /// Ends the round after the snake died: moves all food, adds the round's
    /// score to the run, keeps a new best score, and then pays out a won
    /// round or takes a life for a lost one.
    fn finish_round(&mut self, actions: &mut Vec<Action>) -> (r: Result<(), GameError>)
        requires
            old(self).grid.x > 0,
            old(self).grid.y > 0,
            old(self).round_goal > 0,
        ensures
            r is Ok <==> finish_fits(*old(self)),
            r is Ok ==> {
                &&& finished_from(*old(self), *final(self))
                &&& foods_scattered(old(self).food_items@, final(self).food_items@, old(self).grid)
                &&& final(actions)@ == old(actions)@ + finish_requests(*old(self))
            },
    {
        let ghost s = *self;
        actions.push(Action::Sound(RakeAudioMessage::Die));
        let n = self.food_items.len();
        let mut j: usize = 0;
        while j < n
            invariant
                n == self.food_items@.len(),
                j <= n,
                self.grid == s.grid,
                self.grid.x > 0,
                self.grid.y > 0,
                forall|i: int| 0 <= i < j ==> same_kind((#[trigger] self.food_items@[i]).body, s.food_items@[i].body)
                    && in_grid(s.grid, self.food_items@[i].body),
                forall|i: int| j <= i < n ==> #[trigger] self.food_items@[i] == s.food_items@[i],
                s.food_items@.len() == n,
                self.high_score == s.high_score,
                self.shop == s.shop,
                self.snake == s.snake,
                self.round_goal == s.round_goal,
                self.round_score == s.round_score,
                self.total_score == s.total_score,
                self.round == s.round,
                self.start_round == s.start_round,
                self.in_shop == s.in_shop,
                self.finished == s.finished,
            decreases n - j,
        {
            self.food_items[j].reset(self.grid);
            j = j + 1;
        }
        let total = (self.total_score as i64) + (self.round_score as i64);
        if total > (i32::MAX as i64) || total < (i32::MIN as i64) {
            return Err(GameError::Overflow);
        }
        self.total_score = total as i32;
        if self.total_score > self.high_score {
            actions.push(Action::SaveScore(self.total_score));
        }
        if self.round_score >= self.round_goal {
            let new_money = self.round_score / self.round_goal;
            assert(new_money >= 1) by (nonlinear_arith)
                requires
                    self.round_score >= self.round_goal,
                    self.round_goal > 0,
                    new_money == self.round_score / self.round_goal,
            {}
            assert(new_money == win_money(s.round_score, s.round_goal));
            let goal_half: i64 = (self.round_goal as i64) / 2;
            let score_half: i64 = (self.round_score as i64) / 2;
            let money_half: i64 = (new_money as i64) / 2;
            assert(0 <= score_half * money_half <= 0x4000_0000_0000_0000) by (nonlinear_arith)
                requires
                    0 <= score_half <= 0x4000_0000,
                    0 <= money_half <= 0x4000_0000,
            {}
            let goal = (self.round_goal as i64) + goal_half + score_half * money_half;
            if self.snake.money > i32::MAX - new_money || self.round == i32::MAX || goal > (i32::MAX as i64) {
                return Err(GameError::Overflow);
            }
            self.start_round = false;
            self.snake.add_lives(new_money - 1);
            self.snake.money = self.snake.money + new_money;
            self.snake.reset();
            actions.push(Action::RoundWin(new_money));
            self.round = self.round + 1;
            self.round_goal = goal as i32;
            self.round_score = 0;
            self.in_shop = true;
        } else {
            if self.snake.lives == i32::MIN {
                return Err(GameError::Overflow);
            }
            self.snake.lives = self.snake.lives - 1;
            if self.snake.lives <= 0 {
                actions.push(Action::DeathScreen);
                self.finished = true;
            } else {
                self.start_round = false;
                self.snake.reset();
                let lives = self.snake.lives;
                actions.push(Action::RoundFailed(lives));
                self.round_score = 0;
            }
        }
        assert(actions@ =~= old(actions)@ + finish_requests(s));
        Ok(())
    }
}

/// Once a collision would leave a counter's type, so does the whole tally.
pub proof fn lemma_tally_stops(t: Tally, collisions: Seq<GridObject>, k: int)
    requires
        0 <= k < collisions.len(),
        tally(t, collisions.take(k)) matches Some(p) && tally_step(p, collisions[k]) is None,
    ensures
        tally(t, collisions) is None,
{
    assert(collisions.take(k + 1).drop_last() =~= collisions.take(k));
    lemma_tally_none_extends(t, collisions, k + 1);
}

/// A tally that failed on a prefix fails on the whole.
pub proof fn lemma_tally_none_extends(t: Tally, collisions: Seq<GridObject>, k: int)
    requires
        0 <= k <= collisions.len(),
        tally(t, collisions.take(k)) is None,
    ensures
        tally(t, collisions) is None,
    decreases collisions.len() - k,
{
    if k < collisions.len() {
        assert(collisions.take(k + 1).drop_last() =~= collisions.take(k));
        lemma_tally_none_extends(t, collisions, k + 1);
    } else {
        assert(collisions.take(k) =~= collisions);
    }
}

} // verus!
