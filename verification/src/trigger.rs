//! What the snake's items do at the start of each step of a round.
use vstd::prelude::*;
use crate::food::Food;
use crate::grid::{Grid, GridObject, ObjectType, in_grid};
use crate::item::{Item, ItemType};
use crate::rng::random_below;
use crate::snake::Snake;
use crate::game::Game;

verus! {

/// A step of the game could not be carried out: adding to a counter (a
/// length, a score, a value, a count or a cell) would take it out of the
/// range of its integer type.
#[derive(Clone, Copy, Debug, PartialEq, Eq, Structural)]
pub enum GameError {
    Overflow,
}

/// What an item that goes off hands to its effect: its kind and its two
/// counters as they stand once the food eaten has been counted.
#[derive(Clone, Copy, Debug)]
pub struct TriggerSnapshot {
    pub item_type: ItemType,
    pub trigger_count: u32,
    pub food_count: u32,
}

/// The part of the game that item effects change: the snake's length and
/// body, the round's score and the food on the field.
pub struct TriggerState {
    pub size: i32,
    pub score: i32,
    pub body: Seq<GridObject>,
    pub foods: Seq<Food>,
}

/// The food that the `Double` item adds: worth one, drawn as `x`.
pub const SPAWN_VALUE: i32 = 1;
pub const SPAWN_ICON: char = 'x';
/// The length that the `LongBoi` item sets.
pub const LONG_BOI_SIZE: i32 = 500;
/// What the `GoldenSnack` item adds to length and score.
pub const GOLDEN_SNACK_BONUS: i32 = 300;
/// The `Snackception` item raises food values each time its count reaches
/// this many snacks; the snacks past it count toward the next time.
pub const SNACKCEPTION_PERIOD: u32 = 5;
/// The `Shedding` item sheds on one roll in this many.
pub const SHED_SIDES: usize = 10;

// ---------------------------------------------------------------- counting

/// The food count of `it` after `eaten` more food, as an integer.
pub open spec fn counted_food(it: Item, eaten: u32) -> int {
    it.food_count + eaten
}

/// The trigger count of `it` after the count: a `Foody` item that is not
/// spent counts one more whenever food was eaten.
pub open spec fn counted_triggers(it: Item, eaten: u32) -> int {
    if !it.triggered && it.item_type == ItemType::Foody && eaten > 0 {
        it.trigger_count + 1
    } else {
        it.trigger_count as int
    }
}

/// Counting `eaten` on `it` keeps its counters within `u32`.
pub open spec fn counting_fits(it: Item, eaten: u32) -> bool {
    counted_food(it, eaten) <= u32::MAX && counted_triggers(it, eaten) <= u32::MAX
}

/// Whether an item stays ready to go off again once it has.
pub open spec fn rearms(t: ItemType) -> bool {
    match t {
        ItemType::LongBoi | ItemType::PhantomSnake | ItemType::Shedding | ItemType::GoldenSnack
        | ItemType::Foody | ItemType::Snackception => true,
        _ => false,
    }
}

/// The item after the food eaten has been counted on it: a spent item only
/// adds to its food count; a ready one also counts its triggers and is spent
/// unless it rearms, and `Snackception` takes five off its food count once it
/// reaches five, keeping the rest for the next time.
pub open spec fn counted_item(it: Item, eaten: u32) -> Item {
    let fc = counted_food(it, eaten);
    if it.triggered {
        Item { food_count: fc as u32, ..it }
    } else {
        let tc = counted_triggers(it, eaten) as u32;
        let fc2 = if it.item_type == ItemType::Snackception && fc >= SNACKCEPTION_PERIOD {
            (fc - SNACKCEPTION_PERIOD) as u32
        } else {
            fc as u32
        };
        Item { food_count: fc2, trigger_count: tc, triggered: !rearms(it.item_type), ..it }
    }
}

/// What a ready item hands to its effect.
pub open spec fn snapshot_of(it: Item, eaten: u32) -> TriggerSnapshot {
    TriggerSnapshot {
        item_type: it.item_type,
        trigger_count: counted_triggers(it, eaten) as u32,
        food_count: counted_food(it, eaten) as u32,
    }
}

/// The items that go off, in order, with what each hands to its effect.
pub open spec fn snapshots(items: Seq<Item>, eaten: u32) -> Seq<TriggerSnapshot>
    decreases items.len(),
{
    if items.len() == 0 {
        Seq::empty()
    } else {
        let prev = snapshots(items.drop_last(), eaten);
        if items.last().triggered {
            prev
        } else {
            prev.push(snapshot_of(items.last(), eaten))
        }
    }
}

/// Counting fits on every item.
pub open spec fn all_counting_fits(items: Seq<Item>, eaten: u32) -> bool {
    forall|j: int| 0 <= j < items.len() ==> #[trigger] counting_fits(items[j], eaten)
}

// ---------------------------------------------------------------- effects

/// The food that `Double` adds, before it is placed.
pub open spec fn spawned_food() -> Food {
    Food {
        body: GridObject {
            x: 0,
            y: 0,
            i: SPAWN_ICON,
            obj_type: ObjectType::Food(SPAWN_VALUE),
            direction: None,
        },
    }
}

/// Doubling the value of `f` stays within `i32`.
pub open spec fn doubling_fits(f: Food) -> bool {
    match f.body.obj_type {
        ObjectType::Food(v) => i32::MIN <= 2 * v <= i32::MAX,
        _ => true,
    }
}

/// `f` with its value doubled; other objects are kept.
pub open spec fn doubled(f: Food) -> Food {
    match f.body.obj_type {
        ObjectType::Food(v) => Food { body: GridObject { obj_type: ObjectType::Food((2 * v) as i32), ..f.body } },
        _ => f,
    }
}

/// Raising the value of `f` by one stays within `i32`.
pub open spec fn raising_fits(f: Food) -> bool {
    match f.body.obj_type {
        ObjectType::Food(v) => v < i32::MAX,
        _ => true,
    }
}

/// `f` with its value raised by one; other objects are kept.
pub open spec fn raised(f: Food) -> Food {
    match f.body.obj_type {
        ObjectType::Food(v) => Food { body: GridObject { obj_type: ObjectType::Food((v + 1) as i32), ..f.body } },
        _ => f,
    }
}

/// `x / 10` as Rust computes it on integers: rounded toward zero.
pub open spec fn tenth(x: int) -> int {
    if x >= 0 {
        x / 10
    } else {
        -((-x) / 10)
    }
}

/// One shed: the body loses a tenth of the length from its tail, and so does
/// the length.
pub open spec fn shed_once(m: TriggerState) -> TriggerState {
    let cut = tenth(m.size as int);
    let keep = if cut <= 0 {
        m.body.len() as int
    } else if cut >= m.body.len() {
        0
    } else {
        m.body.len() - cut
    };
    TriggerState { size: (m.size - cut) as i32, body: m.body.take(keep), ..m }
}

/// `sheds` sheds one after another.
pub open spec fn shed_times(m: TriggerState, sheds: nat) -> TriggerState
    decreases sheds,
{
    if sheds == 0 {
        m
    } else {
        shed_once(shed_times(m, (sheds - 1) as nat))
    }
}

/// Shedding changes only the length and the body.
pub proof fn lemma_shed_keeps(m: TriggerState, sheds: nat)
    ensures
        shed_times(m, sheds).score == m.score,
        shed_times(m, sheds).foods == m.foods,
    decreases sheds,
{
    if sheds > 0 {
        lemma_shed_keeps(m, (sheds - 1) as nat);
    }
}

/// The snacks counted in this step are the item's first: its food count
/// left zero just now.
pub open spec fn is_first_snack(s: TriggerSnapshot, eaten: u32) -> bool {
    eaten > 0 && s.food_count == eaten
}

/// The effect of one item going off, given how many sheds the dice gave a
/// `Shedding` item; `None` where a value would leave `i32`.
pub open spec fn trigger_step(m: TriggerState, s: TriggerSnapshot, eaten: u32, sheds: nat) -> Option<TriggerState> {
    match s.item_type {
        ItemType::Double => Some(
            TriggerState { foods: m.foods + Seq::new(m.foods.len(), |j: int| spawned_food()), ..m },
        ),
        ItemType::Snacks => if forall|j: int| 0 <= j < m.foods.len() ==> #[trigger] doubling_fits(m.foods[j]) {
            Some(TriggerState { foods: m.foods.map_values(|f: Food| doubled(f)), ..m })
        } else {
            None
        },
        ItemType::LongBoi => Some(TriggerState { size: LONG_BOI_SIZE, ..m }),
        ItemType::PhantomSnake => Some(
            TriggerState {
                body: m.body.map_values(|o: GridObject| GridObject { obj_type: ObjectType::Nothing, ..o }),
                ..m
            },
        ),
        ItemType::Shedding => Some(shed_times(m, sheds)),
        ItemType::Foody => {
            let gain = eaten * s.trigger_count;
            if m.size + gain <= i32::MAX && m.score + gain <= i32::MAX {
                Some(TriggerState { size: (m.size + gain) as i32, score: (m.score + gain) as i32, ..m })
            } else {
                None
            }
        },
        ItemType::GoldenSnack => if is_first_snack(s, eaten) {
            if m.size + GOLDEN_SNACK_BONUS <= i32::MAX && m.score + GOLDEN_SNACK_BONUS <= i32::MAX {
                Some(
                    TriggerState {
                        size: (m.size + GOLDEN_SNACK_BONUS) as i32,
                        score: (m.score + GOLDEN_SNACK_BONUS) as i32,
                        ..m
                    },
                )
            } else {
                None
            }
        } else {
            Some(m)
        },
        ItemType::Snackception => if s.food_count >= SNACKCEPTION_PERIOD {
            if forall|j: int| 0 <= j < m.foods.len() ==> #[trigger] raising_fits(m.foods[j]) {
                Some(TriggerState { foods: m.foods.map_values(|f: Food| raised(f)), ..m })
            } else {
                None
            }
        } else {
            Some(m)
        },
        _ => Some(m),
    }
}

/// The effects of the items in `snaps`, in order, the `j`-th given `sheds[j]`
/// sheds; `None` once one of them would leave `i32`.
pub open spec fn run_triggers(m: TriggerState, snaps: Seq<TriggerSnapshot>, eaten: u32, sheds: Seq<nat>) -> Option<TriggerState>
    decreases snaps.len(),
{
    if snaps.len() == 0 {
        Some(m)
    } else {
        match run_triggers(m, snaps.drop_last(), eaten, sheds) {
            Some(p) => trigger_step(p, snaps.last(), eaten, sheds[snaps.len() - 1]),
            None => None,
        }
    }
}

/// Shed counts that the dice can give: at most one per food eaten, and none
/// for an item other than `Shedding`.
pub open spec fn possible_sheds(snaps: Seq<TriggerSnapshot>, eaten: u32, sheds: Seq<nat>) -> bool {
    &&& sheds.len() == snaps.len()
    &&& forall|j: int| 0 <= j < snaps.len() ==> #[trigger] sheds[j] <= eaten
    &&& forall|j: int| 0 <= j < snaps.len() && snaps[j].item_type != ItemType::Shedding ==> #[trigger] sheds[j] == 0
}

/// `a` and `b` are the same objects, but for where they stand.
pub open spec fn same_kind(a: GridObject, b: GridObject) -> bool {
    a.i == b.i && a.obj_type == b.obj_type && a.direction == b.direction
}

/// The food `actual` on the field is `model` but for where the food that
/// was added past the first `placed` stands, which is on the field.
pub open spec fn foods_agree(actual: Seq<Food>, model: Seq<Food>, placed: nat, grid: Grid) -> bool {
    &&& actual.len() == model.len()
    &&& placed <= actual.len()
    &&& forall|j: int| 0 <= j < placed ==> #[trigger] actual[j] == model[j]
    &&& forall|j: int| placed <= j < actual.len() ==> same_kind(#[trigger] actual[j].body, model[j].body)
        && in_grid(grid, actual[j].body)
}

/// The state that item effects start from.
pub open spec fn trigger_state_of(snake: Snake, score: i32, foods: Seq<Food>) -> TriggerState {
    TriggerState { size: snake.size, score, body: snake.body@, foods }
}

/// `snake`, `score` and `foods` stand as `m` says, up to where added food
/// was placed.
pub open spec fn agrees(snake: Snake, score: i32, foods: Seq<Food>, m: TriggerState, placed: nat, grid: Grid) -> bool {
    &&& snake.size == m.size
    &&& score == m.score
    &&& snake.body@ == m.body
    &&& foods_agree(foods, m.foods, placed, grid)
}

/// A ready `Double` item stands among `items`.
pub open spec fn has_ready_double(items: Seq<Item>) -> bool {
    exists|j: int| 0 <= j < items.len() && !(#[trigger] items[j]).triggered && items[j].item_type == ItemType::Double
}

// ---------------------------------------------------------------- lemmas

/// Every item that goes off is a ready item of the same kind.
pub proof fn lemma_snapshot_from_ready(items: Seq<Item>, eaten: u32, j: int)
    requires
        0 <= j < snapshots(items, eaten).len(),
    ensures
        exists|k: int| 0 <= k < items.len() && !(#[trigger] items[k]).triggered
            && items[k].item_type == snapshots(items, eaten)[j].item_type,
    decreases items.len(),
{
    let prev = snapshots(items.drop_last(), eaten);
    if j < prev.len() {
        lemma_snapshot_from_ready(items.drop_last(), eaten, j);
        let k = choose|k: int| 0 <= k < items.drop_last().len() && !(#[trigger] items.drop_last()[k]).triggered
            && items.drop_last()[k].item_type == prev[j].item_type;
        assert(items[k] == items.drop_last()[k]);
    } else {
        assert(items[items.len() - 1] == items.last());
    }
}

/// The run of effects reads only the shed counts of the items it runs.
pub proof fn lemma_run_reads_prefix(m: TriggerState, snaps: Seq<TriggerSnapshot>, eaten: u32, s1: Seq<nat>, s2: Seq<nat>)
    requires
        s1.len() >= snaps.len(),
        s2.len() >= snaps.len(),
        forall|i: int| 0 <= i < snaps.len() ==> s1[i] == s2[i],
    ensures
        run_triggers(m, snaps, eaten, s1) == run_triggers(m, snaps, eaten, s2),
    decreases snaps.len(),
{
    if snaps.len() > 0 {
        lemma_run_reads_prefix(m, snaps.drop_last(), eaten, s1, s2);
    }
}

/// Once an effect would leave `i32`, so does the whole run.
pub proof fn lemma_run_stops(m: TriggerState, snaps: Seq<TriggerSnapshot>, eaten: u32, sheds: Seq<nat>, j: int)
    requires
        0 <= j <= snaps.len(),
        run_triggers(m, snaps.take(j), eaten, sheds) is None,
    ensures
        run_triggers(m, snaps, eaten, sheds) is None,
    decreases snaps.len() - j,
{
    if j < snaps.len() {
        assert(snaps.take(j + 1).drop_last() =~= snaps.take(j));
        lemma_run_stops(m, snaps, eaten, sheds, j + 1);
    } else {
        assert(snaps.take(j) =~= snaps);
    }
}

// ---------------------------------------------------------------- laws

/// `Double` doubles the food on the field: every food stays and as many
/// again are added, each worth one.
pub proof fn law_double_doubles_food(m: TriggerState, s: TriggerSnapshot, eaten: u32, sheds: nat)
    requires
        s.item_type == ItemType::Double,
    ensures
        trigger_step(m, s, eaten, sheds) matches Some(n) && n.foods.len() == 2 * m.foods.len()
            && n.foods.take(m.foods.len() as int) == m.foods
            && (forall|j: int| m.foods.len() <= j < n.foods.len() ==> #[trigger] n.foods[j] == spawned_food()),
{
    let n = trigger_step(m, s, eaten, sheds).unwrap();
    assert(n.foods.take(m.foods.len() as int) =~= m.foods);
}

/// `Foody` adds one to length and score for each food eaten and each time it
/// has gone off.
pub proof fn law_foody_gain(m: TriggerState, s: TriggerSnapshot, eaten: u32, sheds: nat)
    requires
        s.item_type == ItemType::Foody,
        trigger_step(m, s, eaten, sheds) is Some,
    ensures
        trigger_step(m, s, eaten, sheds).unwrap().size == m.size + eaten * s.trigger_count,
        trigger_step(m, s, eaten, sheds).unwrap().score == m.score + eaten * s.trigger_count,
        trigger_step(m, s, eaten, sheds).unwrap().body == m.body,
        trigger_step(m, s, eaten, sheds).unwrap().foods == m.foods,
{
}

/// Shedding only ever takes length away: from a length of zero or more, each
/// shed keeps it at zero or more and no longer than before, and the body
/// never grows.
pub proof fn law_shedding_shrinks(m: TriggerState, sheds: nat)
    requires
        m.size >= 0,
    ensures
        0 <= shed_times(m, sheds).size <= m.size,
        shed_times(m, sheds).body.len() <= m.body.len(),
    decreases sheds,
{
    if sheds > 0 {
        law_shedding_shrinks(m, (sheds - 1) as nat);
    }
}

/// `Snacks` makes every snack worth twice as much.
pub proof fn law_snacks_double_values(m: TriggerState, s: TriggerSnapshot, eaten: u32, sheds: nat, j: int, v: i32)
    requires
        s.item_type == ItemType::Snacks,
        0 <= j < m.foods.len(),
        m.foods[j].body.obj_type == ObjectType::Food(v),
        trigger_step(m, s, eaten, sheds) is Some,
    ensures
        trigger_step(m, s, eaten, sheds).unwrap().foods[j].body.obj_type == ObjectType::Food((2 * v) as i32),
        2 * v <= i32::MAX,
{
    assert(doubling_fits(m.foods[j]));
}

/// `LongBoi` sets the length to five hundred; `PhantomSnake` makes every
/// segment of the body something the snake cannot run into.
pub proof fn law_long_boi_and_phantom(m: TriggerState, s: TriggerSnapshot, eaten: u32, sheds: nat)
    ensures
        s.item_type == ItemType::LongBoi ==> (trigger_step(m, s, eaten, sheds) matches Some(n) && n.size == LONG_BOI_SIZE),
        s.item_type == ItemType::PhantomSnake ==> (trigger_step(m, s, eaten, sheds) matches Some(n)
            && n.body.len() == m.body.len()
            && (forall|j: int| 0 <= j < n.body.len() ==> (#[trigger] n.body[j]).obj_type == ObjectType::Nothing)),
{
}

/// `GoldenSnack` adds three hundred to length and score in the step in which
/// its food count first leaves zero, however many snacks that step counts,
/// and nothing otherwise.
pub proof fn law_golden_snack_first_only(m: TriggerState, s: TriggerSnapshot, eaten: u32, sheds: nat)
    requires
        s.item_type == ItemType::GoldenSnack,
        trigger_step(m, s, eaten, sheds) is Some,
    ensures
        ({
            let n = trigger_step(m, s, eaten, sheds).unwrap();
            if is_first_snack(s, eaten) {
                n.size == m.size + GOLDEN_SNACK_BONUS && n.score == m.score + GOLDEN_SNACK_BONUS
            } else {
                n == m
            }
        }),
{
}

/// A `Snackception` item goes off every fifth snack: once its food count
/// reaches five it hands that count on, so that snacks gain value, and keeps
/// the snacks past five toward the next time; below five it only counts.
pub proof fn law_snackception_every_fifth(it: Item, eaten: u32)
    requires
        it.item_type == ItemType::Snackception,
        !it.triggered,
        counting_fits(it, eaten),
    ensures
        counted_food(it, eaten) >= SNACKCEPTION_PERIOD ==> counted_item(it, eaten).food_count == counted_food(it, eaten)
            - SNACKCEPTION_PERIOD && snapshot_of(it, eaten).food_count >= SNACKCEPTION_PERIOD,
        counted_food(it, eaten) < SNACKCEPTION_PERIOD ==> counted_item(it, eaten).food_count == counted_food(it, eaten)
            && snapshot_of(it, eaten).food_count < SNACKCEPTION_PERIOD,
        !counted_item(it, eaten).triggered,
{
}

/// A `Snackception` item whose snacks reach five raises the value of every
/// snack on the field by one.
pub proof fn law_snackception_raises(m: TriggerState, s: TriggerSnapshot, eaten: u32, sheds: nat, j: int, v: i32)
    requires
        s.item_type == ItemType::Snackception,
        s.food_count >= SNACKCEPTION_PERIOD,
        0 <= j < m.foods.len(),
        m.foods[j].body.obj_type == ObjectType::Food(v),
        trigger_step(m, s, eaten, sheds) is Some,
    ensures
        trigger_step(m, s, eaten, sheds).unwrap().foods[j].body.obj_type == ObjectType::Food((v + 1) as i32),
        trigger_step(m, s, eaten, sheds).unwrap().foods[j].body.x == m.foods[j].body.x,
        trigger_step(m, s, eaten, sheds).unwrap().foods[j].body.y == m.foods[j].body.y,
        trigger_step(m, s, eaten, sheds).unwrap().size == m.size,
        trigger_step(m, s, eaten, sheds).unwrap().score == m.score,
{
}

/// A spent item stays spent and never goes off again; a ready one-shot item
/// (`Double`, `Snacks` and the rest that do not rearm) is spent once it has
/// gone off.
pub proof fn law_one_shot_items(it: Item, eaten: u32)
    ensures
        it.triggered ==> counted_item(it, eaten).triggered,
        !it.triggered && !rearms(it.item_type) ==> counted_item(it, eaten).triggered,
        !it.triggered && rearms(it.item_type) ==> !counted_item(it, eaten).triggered,
{
}

/// A spent item has no effect: wherever it stands among the snake's items,
/// the items that go off, and what they hand to their effects, are the same
/// as without it; so `Double`, `Snacks`, `Shears`, `Time` and `ForEver` act
/// in one step at most.
pub proof fn law_spent_items_have_no_effect(items: Seq<Item>, spent: Item, j: int, eaten: u32)
    requires
        spent.triggered,
        0 <= j <= items.len(),
    ensures
        snapshots(items.insert(j, spent), eaten) == snapshots(items, eaten),
    decreases items.len(),
{
    let with = items.insert(j, spent);
    if j == items.len() {
        assert(with.drop_last() =~= items);
        assert(with.last() == spent);
    } else {
        assert(with.drop_last() =~= items.drop_last().insert(j, spent));
        assert(with.last() == items.last());
        law_spent_items_have_no_effect(items.drop_last(), spent, j, eaten);
    }
}

/// Counting adds the food eaten to an item's food count (for a ready
/// `Snackception` that reaches five, less five) and, for a ready `Foody` when
/// food was eaten, one to its trigger count; a spent item only counts food.
pub proof fn law_counting(it: Item, eaten: u32)
    requires
        counting_fits(it, eaten),
    ensures
        counted_item(it, eaten).item_type == it.item_type,
        counted_item(it, eaten).value == it.value,
        counted_item(it, eaten).item_name == it.item_name,
        counted_item(it, eaten).description == it.description,
        !(it.item_type == ItemType::Snackception && !it.triggered) ==> counted_item(it, eaten).food_count
            == it.food_count + eaten,
        it.item_type == ItemType::Snackception && !it.triggered && it.food_count + eaten >= 5 ==> counted_item(
            it,
            eaten,
        ).food_count == it.food_count + eaten - 5,
        it.item_type == ItemType::Snackception && !it.triggered && it.food_count + eaten < 5 ==> counted_item(
            it,
            eaten,
        ).food_count == it.food_count + eaten,
        it.item_type == ItemType::Foody && !it.triggered && eaten > 0 ==> counted_item(it, eaten).trigger_count
            == it.trigger_count + 1,
        !(it.item_type == ItemType::Foody && !it.triggered && eaten > 0) ==> counted_item(it, eaten).trigger_count
            == it.trigger_count,
        it.triggered ==> counted_item(it, eaten).triggered,
{
}

/// Which items are spent once they go off and which stay ready: `Double`,
/// `Snacks`, `Shears`, `Time` and `ForEver` are spent; `LongBoi`,
/// `PhantomSnake`, `Shedding`, `GoldenSnack`, `Foody` and `Snackception`
/// stay ready.
pub proof fn law_spent_after_going_off(it: Item, eaten: u32)
    requires
        !it.triggered,
    ensures
        (it.item_type == ItemType::Double || it.item_type == ItemType::Snacks || it.item_type == ItemType::Shears
            || it.item_type == ItemType::Time || it.item_type == ItemType::ForEver) ==> counted_item(it, eaten).triggered,
        (it.item_type == ItemType::LongBoi || it.item_type == ItemType::PhantomSnake || it.item_type
            == ItemType::Shedding || it.item_type == ItemType::GoldenSnack || it.item_type == ItemType::Foody
            || it.item_type == ItemType::Snackception) ==> !counted_item(it, eaten).triggered,
{
}

/// A `Snacks` item doubles the food once: the first count hands it on to
/// its effect, and every later count hands nothing on, so later steps leave
/// the food as it is.
pub proof fn law_snacks_act_once(it: Item, first: u32, later: u32, m: TriggerState, sheds: Seq<nat>)
    requires
        it.item_type == ItemType::Snacks,
        !it.triggered,
    ensures
        snapshots(seq![it], first).len() == 1,
        snapshots(seq![it], first)[0].item_type == ItemType::Snacks,
        counted_item(it, first).triggered,
        snapshots(seq![counted_item(it, first)], later).len() == 0,
        run_triggers(m, snapshots(seq![counted_item(it, first)], later), later, sheds) == Some(m),
{
    let one = seq![it];
    assert(one.drop_last() =~= Seq::<Item>::empty());
    assert(one.last() == it);
    assert(snapshots(Seq::<Item>::empty(), first).len() == 0);
    assert(snapshots(one, first) == snapshots(one.drop_last(), first).push(snapshot_of(it, first)));
    let spent = seq![counted_item(it, first)];
    assert(spent.drop_last() =~= Seq::<Item>::empty());
    assert(spent.last() == counted_item(it, first));
    assert(counted_item(it, first).triggered);
    assert(snapshots(Seq::<Item>::empty(), later).len() == 0);
    assert(snapshots(spent, later) == snapshots(spent.drop_last(), later));
    assert(snapshots(spent, later) =~= Seq::<TriggerSnapshot>::empty());
}

/// Only ready items go off.
pub proof fn law_only_ready_items_go_off(items: Seq<Item>, eaten: u32)
    requires
        forall|j: int| 0 <= j < items.len() ==> (#[trigger] items[j]).triggered,
    ensures
        snapshots(items, eaten).len() == 0,
    decreases items.len(),
{
    if items.len() > 0 {
        assert(items.drop_last().len() == items.len() - 1);
        assert forall|j: int| 0 <= j < items.drop_last().len() implies (#[trigger] items.drop_last()[j]).triggered by {
            assert(items.drop_last()[j] == items[j]);
        }
        law_only_ready_items_go_off(items.drop_last(), eaten);
        assert(items[items.len() - 1].triggered);
    }
}

// ---------------------------------------------------------------- execution

/// Counts the food eaten on every item and collects, in order, what each
/// ready item hands to its effect.
fn count_items(snake: &mut Snake) -> (r: Result<Vec<TriggerSnapshot>, GameError>)
    ensures
        final(snake).head == old(snake).head,
        final(snake).body@ == old(snake).body@,
        final(snake).size == old(snake).size,
        final(snake).lives == old(snake).lives,
        final(snake).money == old(snake).money,
        final(snake).new_food_eaten == old(snake).new_food_eaten,
        match r {
            Ok(snaps) => {
                &&& all_counting_fits(old(snake).items@, old(snake).new_food_eaten)
                &&& snaps@ == snapshots(old(snake).items@, old(snake).new_food_eaten)
                &&& final(snake).items@ == old(snake).items@.map_values(
                    |it: Item| counted_item(it, old(snake).new_food_eaten),
                )
            },
            Err(_) => !all_counting_fits(old(snake).items@, old(snake).new_food_eaten),
        },
{
    let eaten = snake.new_food_eaten;
    let ghost items0 = snake.items@;
    let mut snaps: Vec<TriggerSnapshot> = Vec::new();
    let n = snake.items.len();
    let mut j: usize = 0;
    assert(items0.take(0) =~= Seq::<Item>::empty());
    while j < n
        invariant
            eaten == old(snake).new_food_eaten,
            items0 == old(snake).items@,
            n == snake.items@.len(),
            n == items0.len(),
            j <= n,
            forall|k: int| 0 <= k < j ==> #[trigger] counting_fits(items0[k], eaten),
            forall|k: int| 0 <= k < j ==> #[trigger] snake.items@[k] == counted_item(items0[k], eaten),
            forall|k: int| j <= k < n ==> #[trigger] snake.items@[k] == items0[k],
            snaps@ == snapshots(items0.take(j as int), eaten),
            snake.head == old(snake).head,
            snake.body@ == old(snake).body@,
            snake.size == old(snake).size,
            snake.lives == old(snake).lives,
            snake.money == old(snake).money,
            snake.new_food_eaten == old(snake).new_food_eaten,
        decreases n - j,
    {
        let fc = snake.items[j].food_count;
        let triggered = snake.items[j].triggered;
        let t = snake.items[j].item_type;
        let tc = snake.items[j].trigger_count;
        if fc > u32::MAX - eaten {
            assert(!counting_fits(items0[j as int], eaten));
            return Err(GameError::Overflow);
        }
        let foody_counts = !triggered && t == ItemType::Foody && eaten > 0;
        if foody_counts && tc == u32::MAX {
            assert(!counting_fits(items0[j as int], eaten));
            return Err(GameError::Overflow);
        }
        assert(counting_fits(items0[j as int], eaten));
        snake.items[j].food_count = fc + eaten;
        if !triggered {
            if foody_counts {
                snake.items[j].trigger_count = tc + 1;
            }
            snaps.push(
                TriggerSnapshot {
                    item_type: t,
                    trigger_count: snake.items[j].trigger_count,
                    food_count: snake.items[j].food_count,
                },
            );
            match t {
                ItemType::LongBoi => snake.items[j].triggered = false,
                ItemType::PhantomSnake => snake.items[j].triggered = false,
                ItemType::Shedding => snake.items[j].triggered = false,
                ItemType::GoldenSnack => snake.items[j].triggered = false,
                ItemType::Foody => snake.items[j].triggered = false,
                ItemType::Snackception => {
                    snake.items[j].triggered = false;
                    if snake.items[j].food_count >= SNACKCEPTION_PERIOD {
                        snake.items[j].food_count = snake.items[j].food_count - SNACKCEPTION_PERIOD;
                    }
                },
                _ => snake.items[j].triggered = true,
            }
        }
        assert(items0.take(j + 1).drop_last() =~= items0.take(j as int));
        assert(snake.items@[j as int] == counted_item(items0[j as int], eaten));
        j = j + 1;
    }
    assert(items0.take(n as int) =~= items0);
    assert(snake.items@ =~= items0.map_values(|it: Item| counted_item(it, eaten)));
    Ok(snaps)
}

/// Adds, for every food on the field, one more worth one at a random cell.
fn spawn_copies(foods: &mut Vec<Food>, grid: Grid, Ghost(model): Ghost<Seq<Food>>, Ghost(placed): Ghost<nat>)
    requires
        foods_agree(old(foods)@, model, placed, grid),
        old(foods)@.len() > 0 ==> grid.x > 0 && grid.y > 0,
    ensures
        foods_agree(
            final(foods)@,
            model + Seq::new(model.len(), |j: int| spawned_food()),
            placed,
            grid,
        ),
{
    let n = foods.len();
    let ghost old_foods = foods@;
    let mut k: usize = 0;
    while k < n
        invariant
            n == old_foods.len(),
            old_foods == old(foods)@,
            foods_agree(old_foods, model, placed, grid),
            n > 0 ==> grid.x > 0 && grid.y > 0,
            k <= n,
            foods@.len() == n + k,
            forall|i: int| 0 <= i < n ==> #[trigger] foods@[i] == old_foods[i],
            forall|i: int| n <= i < n + k ==> same_kind(#[trigger] foods@[i].body, spawned_food().body)
                && in_grid(grid, foods@[i].body),
        decreases n - k,
    {
        foods.push(Food::new(grid, SPAWN_VALUE, SPAWN_ICON));
        k = k + 1;
    }
    let ghost target = model + Seq::new(model.len(), |j: int| spawned_food());
    assert forall|j: int| placed <= j < foods@.len() implies same_kind(#[trigger] foods@[j].body, target[j].body)
        && in_grid(grid, foods@[j].body) by {
        if j < n {
            assert(foods@[j] == old_foods[j]);
        }
    }
}

/// Doubles the value of every food, or reports that one would leave `i32`.
fn double_values(foods: &mut Vec<Food>, grid: Grid, Ghost(model): Ghost<Seq<Food>>, Ghost(placed): Ghost<nat>) -> (r: Result<(), GameError>)
    requires
        foods_agree(old(foods)@, model, placed, grid),
    ensures
        match r {
            Ok(_) => (forall|j: int| 0 <= j < model.len() ==> #[trigger] doubling_fits(model[j]))
                && foods_agree(final(foods)@, model.map_values(|f: Food| doubled(f)), placed, grid),
            Err(_) => !(forall|j: int| 0 <= j < model.len() ==> #[trigger] doubling_fits(model[j])),
        },
{
    let n = foods.len();
    let ghost old_foods = foods@;
    let mut k: usize = 0;
    while k < n
        invariant
            n == old_foods.len(),
            foods_agree(old_foods, model, placed, grid),
            k <= n,
            foods@.len() == n,
            forall|i: int| 0 <= i < k ==> #[trigger] doubling_fits(model[i]),
            forall|i: int| 0 <= i < k ==> #[trigger] foods@[i] == doubled(old_foods[i]),
            forall|i: int| k <= i < n ==> #[trigger] foods@[i] == old_foods[i],
        decreases n - k,
    {
        assert(same_kind(old_foods[k as int].body, model[k as int].body));
        match foods[k].body.obj_type {
            ObjectType::Food(v) => {
                if v < -1073741824 || v > 1073741823 {
                    assert(!doubling_fits(model[k as int]));
                    return Err(GameError::Overflow);
                }
                foods[k].body.obj_type = ObjectType::Food(v * 2);
            },
            _ => {},
        }
        k = k + 1;
    }
    let ghost target = model.map_values(|f: Food| doubled(f));
    assert forall|j: int| 0 <= j < placed implies #[trigger] foods@[j] == target[j] by {
        assert(old_foods[j] == model[j]);
    }
    assert forall|j: int| placed <= j < foods@.len() implies same_kind(#[trigger] foods@[j].body, target[j].body)
        && in_grid(grid, foods@[j].body) by {
        assert(same_kind(old_foods[j].body, model[j].body));
    }
    Ok(())
}

/// Raises the value of every food by one, or reports that one would leave
/// `i32`.
fn raise_values(foods: &mut Vec<Food>, grid: Grid, Ghost(model): Ghost<Seq<Food>>, Ghost(placed): Ghost<nat>) -> (r: Result<(), GameError>)
    requires
        foods_agree(old(foods)@, model, placed, grid),
    ensures
        match r {
            Ok(_) => (forall|j: int| 0 <= j < model.len() ==> #[trigger] raising_fits(model[j]))
                && foods_agree(final(foods)@, model.map_values(|f: Food| raised(f)), placed, grid),
            Err(_) => !(forall|j: int| 0 <= j < model.len() ==> #[trigger] raising_fits(model[j])),
        },
{
    let n = foods.len();
    let ghost old_foods = foods@;
    let mut k: usize = 0;
    while k < n
        invariant
            n == old_foods.len(),
            foods_agree(old_foods, model, placed, grid),
            k <= n,
            foods@.len() == n,
            forall|i: int| 0 <= i < k ==> #[trigger] raising_fits(model[i]),
            forall|i: int| 0 <= i < k ==> #[trigger] foods@[i] == raised(old_foods[i]),
            forall|i: int| k <= i < n ==> #[trigger] foods@[i] == old_foods[i],
        decreases n - k,
    {
        assert(same_kind(old_foods[k as int].body, model[k as int].body));
        match foods[k].body.obj_type {
            ObjectType::Food(v) => {
                if v == i32::MAX {
                    assert(!raising_fits(model[k as int]));
                    return Err(GameError::Overflow);
                }
                foods[k].body.obj_type = ObjectType::Food(v + 1);
            },
            _ => {},
        }
        k = k + 1;
    }
    let ghost target = model.map_values(|f: Food| raised(f));
    assert forall|j: int| 0 <= j < placed implies #[trigger] foods@[j] == target[j] by {
        assert(old_foods[j] == model[j]);
    }
    assert forall|j: int| placed <= j < foods@.len() implies same_kind(#[trigger] foods@[j].body, target[j].body)
        && in_grid(grid, foods@[j].body) by {
        assert(same_kind(old_foods[j].body, model[j].body));
    }
    Ok(())
}

/// How many of `rolls` came up one.
pub open spec fn ones(rolls: Seq<usize>) -> nat
    decreases rolls.len(),
{
    if rolls.len() == 0 {
        0
    } else {
        ones(rolls.drop_last()) + if rolls.last() == 1 { 1nat } else { 0nat }
    }
}

/// No more rolls come up one than were rolled.
pub proof fn lemma_ones_bounded(rolls: Seq<usize>)
    ensures
        ones(rolls) <= rolls.len(),
    decreases rolls.len(),
{
    if rolls.len() > 0 {
        lemma_ones_bounded(rolls.drop_last());
    }
}

/// The state that shedding works on: the snake's length and body.
pub open spec fn shed_state_of(s: Snake) -> TriggerState {
    TriggerState { size: s.size, score: 0, body: s.body@, foods: Seq::empty() }
}

/// Shedding reads only the length and the body.
pub proof fn lemma_shed_reads_size_and_body(m1: TriggerState, m2: TriggerState, sheds: nat)
    requires
        m1.size == m2.size,
        m1.body == m2.body,
    ensures
        shed_times(m1, sheds).size == shed_times(m2, sheds).size,
        shed_times(m1, sheds).body == shed_times(m2, sheds).body,
    decreases sheds,
{
    if sheds > 0 {
        lemma_shed_reads_size_and_body(m1, m2, (sheds - 1) as nat);
    }
}

/// Sheds once for every roll of the `Shedding` die that came up one: each
/// shed takes a tenth of the length (rounded toward zero) off the length
/// and as many segments off the tail of the body. Returns the number of
/// sheds.
pub fn shed_for_rolls(snake: &mut Snake, rolls: &Vec<usize>) -> (k: usize)
    ensures
        k == ones(rolls@),
        final(snake).size == shed_times(shed_state_of(*old(snake)), k as nat).size,
        final(snake).body@ == shed_times(shed_state_of(*old(snake)), k as nat).body,
        final(snake).head == old(snake).head,
        final(snake).lives == old(snake).lives,
        final(snake).money == old(snake).money,
        final(snake).items@ == old(snake).items@,
        final(snake).new_food_eaten == old(snake).new_food_eaten,
{
    let ghost m = shed_state_of(*snake);
    let n = rolls.len();
    let mut k: usize = 0;
    let mut r: usize = 0;
    assert(rolls@.take(0) =~= Seq::<usize>::empty());
    while r < n
        invariant
            n == rolls@.len(),
            k <= r <= n,
            k == ones(rolls@.take(r as int)),
            m == shed_state_of(*old(snake)),
            snake.size == shed_times(m, k as nat).size,
            snake.body@ == shed_times(m, k as nat).body,
            snake.head == old(snake).head,
            snake.lives == old(snake).lives,
            snake.money == old(snake).money,
            snake.items@ == old(snake).items@,
            snake.new_food_eaten == old(snake).new_food_eaten,
        decreases n - r,
    {
        let roll = rolls[r];
        assert(rolls@.take(r + 1).drop_last() =~= rolls@.take(r as int));
        if roll == 1 {
            let ghost before = shed_times(m, k as nat);
            let cut = snake.size / 10;
            assert(cut == tenth(snake.size as int));
            let mut c: i32 = 0;
            while c < cut
                invariant
                    0 <= c,
                    cut > 0 ==> c <= cut,
                    cut <= 0 ==> c == 0,
                    snake.size == before.size,
                    snake.body@ == before.body.take(
                        if c >= before.body.len() { 0 } else { before.body.len() - c },
                    ),
                    snake.head == old(snake).head,
                    snake.lives == old(snake).lives,
                    snake.money == old(snake).money,
                    snake.items@ == old(snake).items@,
                    snake.new_food_eaten == old(snake).new_food_eaten,
                decreases cut - c,
            {
                snake.body.pop();
                c = c + 1;
            }
            snake.size = snake.size - snake.size / 10;
            k = k + 1;
            assert(snake.body@ =~= shed_times(m, k as nat).body);
        }
        r = r + 1;
    }
    assert(rolls@.take(n as int) =~= rolls@);
    k
}

/// For every food eaten, rolls the `Shedding` die and sheds on a one.
/// Returns the number of sheds and the rolls, in order.
fn shed_by_dice(snake: &mut Snake, Ghost(m): Ghost<TriggerState>) -> (r: (u32, Vec<usize>))
    requires
        old(snake).size == m.size,
        old(snake).body@ == m.body,
    ensures
        r.1@.len() == old(snake).new_food_eaten,
        forall|i: int| 0 <= i < r.1@.len() ==> #[trigger] r.1@[i] < SHED_SIDES,
        r.0 == ones(r.1@),
        r.0 <= old(snake).new_food_eaten,
        final(snake).size == shed_times(m, r.0 as nat).size,
        final(snake).body@ == shed_times(m, r.0 as nat).body,
        final(snake).head == old(snake).head,
        final(snake).lives == old(snake).lives,
        final(snake).money == old(snake).money,
        final(snake).items@ == old(snake).items@,
        final(snake).new_food_eaten == old(snake).new_food_eaten,
{
    let eaten = snake.new_food_eaten;
    let mut rolls: Vec<usize> = Vec::new();
    let mut r: u32 = 0;
    while r < eaten
        invariant
            eaten == old(snake).new_food_eaten,
            r <= eaten,
            rolls@.len() == r,
            forall|i: int| 0 <= i < rolls@.len() ==> #[trigger] rolls@[i] < SHED_SIDES,
        decreases eaten - r,
    {
        let roll = random_below(SHED_SIDES);
        rolls.push(roll);
        r = r + 1;
    }
    let k = shed_for_rolls(snake, &rolls);
    proof {
        lemma_ones_bounded(rolls@);
        lemma_shed_reads_size_and_body(m, shed_state_of(*old(snake)), k as nat);
    }
    (k as u32, rolls)
}

/// Carries out the effect of one item that goes off. Returns the number of
/// sheds that the dice gave a `Shedding` item (none for any other).
fn apply_trigger(
    snake: &mut Snake,
    foods: &mut Vec<Food>,
    grid: Grid,
    score: &mut i32,
    s: TriggerSnapshot,
    Ghost(m): Ghost<TriggerState>,
    Ghost(placed): Ghost<nat>,
) -> (r: Result<u32, GameError>)
    requires
        agrees(*old(snake), *old(score), old(foods)@, m, placed, grid),
        s.item_type == ItemType::Double && old(foods)@.len() > 0 ==> grid.x > 0 && grid.y > 0,
    ensures
        final(snake).head == old(snake).head,
        final(snake).lives == old(snake).lives,
        final(snake).money == old(snake).money,
        final(snake).items@ == old(snake).items@,
        final(snake).new_food_eaten == old(snake).new_food_eaten,
        match r {
            Ok(k) => {
                &&& k <= old(snake).new_food_eaten
                &&& (s.item_type != ItemType::Shedding ==> k == 0)
                &&& trigger_step(m, s, old(snake).new_food_eaten, k as nat) matches Some(m2)
                    && agrees(*final(snake), *final(score), final(foods)@, m2, placed, grid)
            },
            Err(_) => {
                &&& s.item_type != ItemType::Shedding
                &&& trigger_step(m, s, old(snake).new_food_eaten, 0) is None
            },
        },
{
    let eaten = snake.new_food_eaten;
    match s.item_type {
        ItemType::Double => {
            spawn_copies(foods, grid, Ghost(m.foods), Ghost(placed));
            Ok(0)
        },
        ItemType::Snacks => {
            match double_values(foods, grid, Ghost(m.foods), Ghost(placed)) {
                Ok(_) => Ok(0),
                Err(e) => Err(e),
            }
        },
        ItemType::LongBoi => {
            snake.size = LONG_BOI_SIZE;
            Ok(0)
        },
        ItemType::PhantomSnake => {
            let n = snake.body.len();
            let mut j: usize = 0;
            while j < n
                invariant
                    n == m.body.len(),
                    j <= n,
                    snake.body@.len() == n,
                    forall|i: int| 0 <= i < j ==> #[trigger] snake.body@[i] == (GridObject {
                        obj_type: ObjectType::Nothing,
                        ..m.body[i]
                    }),
                    forall|i: int| j <= i < n ==> #[trigger] snake.body@[i] == m.body[i],
                    snake.head == old(snake).head,
                    snake.size == old(snake).size,
                    snake.lives == old(snake).lives,
                    snake.money == old(snake).money,
                    snake.items@ == old(snake).items@,
                    snake.new_food_eaten == old(snake).new_food_eaten,
                decreases n - j,
            {
                snake.body[j].obj_type = ObjectType::Nothing;
                j = j + 1;
            }
            assert(snake.body@ =~= m.body.map_values(
                |o: GridObject| GridObject { obj_type: ObjectType::Nothing, ..o },
            ));
            Ok(0)
        },
        ItemType::Shedding => {
            let (k, _rolls) = shed_by_dice(snake, Ghost(m));
            proof {
                lemma_shed_keeps(m, k as nat);
            }
            Ok(k)
        },
        ItemType::Foody => {
            let a = eaten as u64;
            let b = s.trigger_count as u64;
            assert(a * b <= 0xffff_fffe_0000_0001) by (nonlinear_arith)
                requires
                    a <= 0xffff_ffff,
                    b <= 0xffff_ffff,
            {}
            let gain: u64 = a * b;
            if (snake.size as i128) + (gain as i128) > (i32::MAX as i128)
                || (*score as i128) + (gain as i128) > (i32::MAX as i128) {
                return Err(GameError::Overflow);
            }
            snake.size = ((snake.size as i128) + (gain as i128)) as i32;
            *score = ((*score as i128) + (gain as i128)) as i32;
            Ok(0)
        },
        ItemType::GoldenSnack => {
            if eaten > 0 && s.food_count == eaten {
                if snake.size > i32::MAX - GOLDEN_SNACK_BONUS || *score > i32::MAX - GOLDEN_SNACK_BONUS {
                    return Err(GameError::Overflow);
                }
                snake.size = snake.size + GOLDEN_SNACK_BONUS;
                *score = *score + GOLDEN_SNACK_BONUS;
            }
            Ok(0)
        },
        ItemType::Snackception => {
            if s.food_count >= SNACKCEPTION_PERIOD {
                match raise_values(foods, grid, Ghost(m.foods), Ghost(placed)) {
                    Ok(_) => Ok(0),
                    Err(e) => Err(e),
                }
            } else {
                Ok(0)
            }
        },
        _ => Ok(0),
    }
}

impl Game {
    /// Counts the food eaten since the last step on every item, then carries out
    /// the effects of the ready items in order. The `Shedding` dice and the cells
    /// of the food that `Double` adds are drawn at random; everything else is as
    /// `run_triggers` says for the shed counts that came up. Fails where a
    /// counter would leave its integer type.
    pub fn trigger_items(snake: &mut Snake, food_items: &mut Vec<Food>, grid: Grid, round_score: &mut i32) -> (r: Result<(), GameError>)
        requires
            old(food_items)@.len() > 0 && has_ready_double(old(snake).items@) ==> grid.x > 0 && grid.y > 0,
        ensures
            final(snake).head == old(snake).head,
            final(snake).lives == old(snake).lives,
            final(snake).money == old(snake).money,
            final(snake).new_food_eaten == old(snake).new_food_eaten,
            match r {
                Ok(_) => {
                    &&& all_counting_fits(old(snake).items@, old(snake).new_food_eaten)
                    &&& final(snake).items@ == old(snake).items@.map_values(
                        |it: Item| counted_item(it, old(snake).new_food_eaten),
                    )
                    &&& exists|sheds: Seq<nat>| {
                        &&& possible_sheds(snapshots(old(snake).items@, old(snake).new_food_eaten), old(snake).new_food_eaten, sheds)
                        &&& #[trigger] run_triggers(
                            trigger_state_of(*old(snake), *old(round_score), old(food_items)@),
                            snapshots(old(snake).items@, old(snake).new_food_eaten),
                            old(snake).new_food_eaten,
                            sheds,
                        ) matches Some(m)
                        &&& agrees(
                            *final(snake),
                            *final(round_score),
                            final(food_items)@,
                            m,
                            old(food_items)@.len() as nat,
                            grid,
                        )
                    }
                },
                Err(_) => !all_counting_fits(old(snake).items@, old(snake).new_food_eaten) || exists|sheds: Seq<nat>|
                    possible_sheds(snapshots(old(snake).items@, old(snake).new_food_eaten), old(snake).new_food_eaten, sheds)
                    && #[trigger] run_triggers(
                        trigger_state_of(*old(snake), *old(round_score), old(food_items)@),
                        snapshots(old(snake).items@, old(snake).new_food_eaten),
                        old(snake).new_food_eaten,
                        sheds,
                    ) is None,
            },
    {
        let eaten = snake.new_food_eaten;
        let ghost items0 = snake.items@;
        let ghost m0 = trigger_state_of(*snake, *round_score, food_items@);
        let ghost placed = food_items@.len() as nat;
        let snaps = match count_items(snake) {
            Ok(v) => v,
            Err(e) => return Err(e),
        };
        let ghost all = snaps@;
        let ghost counted = snake.items@;
        proof {
            if !(grid.x > 0 && grid.y > 0) && m0.foods.len() > 0 {
                assert forall|i: int| 0 <= i < all.len() implies #[trigger] all[i].item_type != ItemType::Double by {
                    lemma_snapshot_from_ready(items0, eaten, i);
                }
            }
            assert(all.take(0) =~= Seq::<TriggerSnapshot>::empty());
        }
        let ghost mut sheds: Seq<nat> = Seq::empty();
        let ghost mut m = m0;
        let n = snaps.len();
        let mut j: usize = 0;
        while j < n
            invariant
                n == all.len(),
                all == snaps@,
                all == snapshots(items0, eaten),
                eaten == old(snake).new_food_eaten,
                items0 == old(snake).items@,
                m0 == trigger_state_of(*old(snake), *old(round_score), old(food_items)@),
                placed == old(food_items)@.len(),
                j <= n,
                sheds.len() == j,
                forall|i: int| 0 <= i < j ==> #[trigger] sheds[i] <= eaten,
                forall|i: int| 0 <= i < j && all[i].item_type != ItemType::Shedding ==> #[trigger] sheds[i] == 0,
                run_triggers(m0, all.take(j as int), eaten, sheds) == Some(m),
                agrees(*snake, *round_score, food_items@, m, placed, grid),
                (grid.x > 0 && grid.y > 0) || m.foods.len() == 0
                    || (forall|i: int| 0 <= i < all.len() ==> #[trigger] all[i].item_type != ItemType::Double),
                snake.head == old(snake).head,
                snake.lives == old(snake).lives,
                snake.money == old(snake).money,
                snake.new_food_eaten == old(snake).new_food_eaten,
                snake.items@ == counted,
            decreases n - j,
        {
            let s = snaps[j];
            assert(all.take(j + 1).drop_last() =~= all.take(j as int));
            match apply_trigger(snake, food_items, grid, round_score, s, Ghost(m), Ghost(placed)) {
                Ok(k) => {
                    proof {
                        let next = sheds.push(k as nat);
                        lemma_run_reads_prefix(m0, all.take(j as int), eaten, sheds, next);
                        sheds = next;
                        lemma_shed_keeps(m, k as nat);
                        m = trigger_step(m, s, eaten, k as nat).unwrap();
                    }
                },
                Err(e) => {
                    proof {
                        let full = sheds + Seq::new((n - j) as nat, |i: int| 0nat);
                        lemma_run_reads_prefix(m0, all.take(j as int), eaten, sheds, full);
                        assert(full[j as int] == 0);
                        lemma_run_stops(m0, all, eaten, full, j + 1);
                        assert forall|i: int| 0 <= i < all.len() && all[i].item_type != ItemType::Shedding implies
                            #[trigger] full[i] == 0 by {
                            if i >= j {
                                assert(full[i] == 0);
                            }
                        }
                        assert(possible_sheds(all, eaten, full));
                        assert(run_triggers(m0, all, eaten, full) is None);
                    }
                    return Err(e);
                },
            }
            j = j + 1;
        }
        proof {
            assert(all.take(n as int) =~= all);
            assert(possible_sheds(all, eaten, sheds));
        }
        Ok(())
    }
}

} // verus!
