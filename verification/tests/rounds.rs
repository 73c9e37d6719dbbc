use rake::audio::RakeAudioMessage;
use rake::collision::find_collisions;
use rake::display::{lives_banner, round_tracker};
use rake::food::Food;
use rake::grid::{Grid, GridObject, ObjectType};
use rake::item::{Item, ItemType};
use rake::sandbox::{Action, Sandbox};
use rake::snake::{Snake, SnakeDirection};
use rake::game::Game;
use rake::trigger::{shed_for_rolls, GameError};

fn item(t: ItemType) -> Item {
    Item::new(format!("{:?}", t), 1, String::new(), t)
}

fn food_at(x: i32, y: i32, value: i32) -> Food {
    Food { body: GridObject::new(x, y, 'o', ObjectType::Food(value), None) }
}

fn seg(x: i32, y: i32, d: SnakeDirection) -> GridObject {
    GridObject::new(x, y, 'X', ObjectType::Snake, Some(d))
}

#[test]
fn long_boi_sets_length_500() {
    let grid = Grid::new(30, 20);
    let mut snake = Snake::new(0, 0);
    snake.items.push(item(ItemType::LongBoi));
    let mut foods = vec![food_at(3, 3, 10)];
    let mut score = 0;
    Game::trigger_items(&mut snake, &mut foods, grid, &mut score).unwrap();
    assert_eq!(snake.size, 500);
    assert!(!snake.items[0].triggered);
    assert_eq!(score, 0);
}

#[test]
fn double_doubles_the_food_once() {
    let grid = Grid::new(30, 20);
    let mut snake = Snake::new(0, 0);
    snake.items.push(item(ItemType::Double));
    let mut foods = vec![food_at(3, 3, 10), food_at(4, 4, 7)];
    let mut score = 0;
    Game::trigger_items(&mut snake, &mut foods, grid, &mut score).unwrap();
    assert_eq!(foods.len(), 4);
    assert_eq!((foods[0].body.x, foods[0].body.y), (3, 3));
    for f in &foods[2..] {
        assert_eq!(f.body.obj_type, ObjectType::Food(1));
        assert_eq!(f.body.i, 'x');
        assert!(f.body.x >= 0 && f.body.x < 30 && f.body.y >= 0 && f.body.y < 20);
    }
    assert!(snake.items[0].triggered);
    Game::trigger_items(&mut snake, &mut foods, grid, &mut score).unwrap();
    assert_eq!(foods.len(), 4);
}

#[test]
fn snacks_double_food_values() {
    let grid = Grid::new(30, 20);
    let mut snake = Snake::new(0, 0);
    snake.items.push(item(ItemType::Snacks));
    let mut foods = vec![food_at(3, 3, 10), food_at(4, 4, -3)];
    let mut score = 0;
    Game::trigger_items(&mut snake, &mut foods, grid, &mut score).unwrap();
    assert_eq!(foods[0].body.obj_type, ObjectType::Food(20));
    assert_eq!(foods[1].body.obj_type, ObjectType::Food(-6));
}

#[test]
fn snacks_overflow_is_an_error() {
    let grid = Grid::new(30, 20);
    let mut snake = Snake::new(0, 0);
    snake.items.push(item(ItemType::Snacks));
    let mut foods = vec![food_at(3, 3, i32::MAX)];
    let mut score = 0;
    assert_eq!(Game::trigger_items(&mut snake, &mut foods, grid, &mut score), Err(GameError::Overflow));
}

#[test]
fn golden_snack_pays_for_the_first_snack_only() {
    let grid = Grid::new(30, 20);
    let mut snake = Snake::new(0, 0);
    snake.items.push(item(ItemType::GoldenSnack));
    let mut foods = vec![food_at(3, 3, 10)];
    let mut score = 5;
    snake.new_food_eaten = 1;
    Game::trigger_items(&mut snake, &mut foods, grid, &mut score).unwrap();
    assert_eq!(snake.size, 300);
    assert_eq!(score, 305);
    assert_eq!(snake.items[0].food_count, 1);
    Game::trigger_items(&mut snake, &mut foods, grid, &mut score).unwrap();
    assert_eq!(snake.size, 300);
    assert_eq!(snake.items[0].food_count, 2);
}

#[test]
fn foody_grows_with_its_triggers() {
    let grid = Grid::new(30, 20);
    let mut snake = Snake::new(0, 0);
    snake.items.push(item(ItemType::Foody));
    let mut foods = vec![food_at(3, 3, 10)];
    let mut score = 0;
    snake.new_food_eaten = 2;
    Game::trigger_items(&mut snake, &mut foods, grid, &mut score).unwrap();
    assert_eq!(snake.items[0].trigger_count, 1);
    assert_eq!((snake.size, score), (2, 2));
    Game::trigger_items(&mut snake, &mut foods, grid, &mut score).unwrap();
    assert_eq!(snake.items[0].trigger_count, 2);
    assert_eq!((snake.size, score), (6, 6));
    snake.new_food_eaten = 0;
    Game::trigger_items(&mut snake, &mut foods, grid, &mut score).unwrap();
    assert_eq!(snake.items[0].trigger_count, 2);
    assert_eq!(snake.size, 6);
}

#[test]
fn snackception_raises_values_every_fifth_snack() {
    let grid = Grid::new(30, 20);
    let mut snake = Snake::new(0, 0);
    snake.items.push(item(ItemType::Snackception));
    let mut foods = vec![food_at(3, 3, 10)];
    let mut score = 0;
    snake.new_food_eaten = 1;
    for _ in 0..4 {
        Game::trigger_items(&mut snake, &mut foods, grid, &mut score).unwrap();
        assert_eq!(foods[0].body.obj_type, ObjectType::Food(10));
    }
    Game::trigger_items(&mut snake, &mut foods, grid, &mut score).unwrap();
    assert_eq!(foods[0].body.obj_type, ObjectType::Food(11));
    assert_eq!(snake.items[0].food_count, 0);
}

#[test]
fn phantom_snake_clears_body_kinds() {
    let grid = Grid::new(30, 20);
    let mut snake = Snake::new(2, 0);
    snake.body.push(seg(1, 0, SnakeDirection::Right));
    snake.body.push(seg(0, 0, SnakeDirection::Right));
    snake.items.push(item(ItemType::PhantomSnake));
    let mut foods = Vec::new();
    let mut score = 0;
    Game::trigger_items(&mut snake, &mut foods, grid, &mut score).unwrap();
    assert!(snake.body.iter().all(|o| o.obj_type == ObjectType::Nothing));
    assert_eq!(snake.body[0].x, 1);
}

#[test]
fn shedding_never_grows_the_snake() {
    let grid = Grid::new(30, 20);
    for _ in 0..50 {
        let mut snake = Snake::new(0, 0);
        snake.size = 100;
        for k in 0..100 {
            snake.body.push(seg(k, 1, SnakeDirection::Right));
        }
        snake.items.push(item(ItemType::Shedding));
        snake.new_food_eaten = 3;
        let mut foods = Vec::new();
        let mut score = 0;
        Game::trigger_items(&mut snake, &mut foods, grid, &mut score).unwrap();
        assert!([100, 90, 81, 73].contains(&snake.size));
        assert_eq!(snake.body.len() as i32, snake.size);
    }
}

#[test]
fn growth_and_movement() {
    let mut snake = Snake::new(5, 5);
    snake.size = 2;
    snake.grow();
    assert_eq!(snake.body.len(), 1);
    assert_eq!((snake.body[0].x, snake.body[0].y), (5, 5));
    snake.follow_head();
    snake.advance_head().unwrap();
    assert_eq!((snake.head.x, snake.head.y), (6, 5));
    assert_eq!(snake.head.i, '═');
    snake.steer(SnakeDirection::Down);
    snake.grow();
    assert_eq!(snake.body.len(), 2);
    snake.follow_head();
    assert_eq!((snake.body[0].x, snake.body[0].y), (6, 5));
    assert_eq!(snake.body[0].i, '╗');
    assert_eq!((snake.body[1].x, snake.body[1].y), (5, 5));
    snake.advance_head().unwrap();
    assert_eq!((snake.head.x, snake.head.y), (6, 6));
    assert_eq!(snake.head.i, '║');
    snake.grow();
    assert_eq!(snake.body.len(), 2);
    assert!(!snake.head_off_field(Grid::new(10, 10)));
    assert!(snake.head_off_field(Grid::new(6, 10)));
}

#[test]
fn head_at_the_edge_of_i32_cannot_move() {
    let mut snake = Snake::new(i32::MAX, 0);
    assert_eq!(snake.advance_head(), Err(GameError::Overflow));
    assert_eq!(snake.head.x, i32::MAX);
}

#[test]
fn collisions_find_what_shares_a_cell() {
    let head = GridObject::new(2, 2, '═', ObjectType::Snake, Some(SnakeDirection::Right));
    let food = GridObject::new(2, 2, 'o', ObjectType::Food(10), None);
    let other = GridObject::new(4, 4, 'o', ObjectType::Food(3), None);
    let ghost = GridObject::new(2, 2, 'X', ObjectType::Nothing, Some(SnakeDirection::Right));
    let hits = find_collisions(&vec![head, food, other, ghost]);
    let kinds: Vec<ObjectType> = hits.iter().map(|o| o.obj_type).collect();
    assert_eq!(kinds, vec![ObjectType::Food(10), ObjectType::Nothing]);
    let body = seg(2, 2, SnakeDirection::Right);
    let hits = find_collisions(&vec![head, body]);
    assert_eq!(hits.len(), 2);
}

#[test]
fn tracker_and_lives_text() {
    assert_eq!(round_tracker(1), "----S----S----S----S----S----S\n^");
    assert_eq!(round_tracker(51), "----S----S----S----S----S----B\n^");
    assert_eq!(round_tracker(171).len(), 32);
    assert_eq!(lives_banner(3), "(=)(=)(=)");
    assert_eq!(lives_banner(0), "");
}

fn game() -> Sandbox {
    let mut g = Sandbox::new(Grid::new(30, 20), 0);
    g.food_items = vec![food_at(10, 10, 10)];
    g
}

fn kinds(actions: &[Action]) -> Vec<String> {
    actions
        .iter()
        .map(|a| match a {
            Action::ClearScreen => String::from("clear"),
            Action::ShowShop(items) => format!("shop{}", items.len()),
            Action::Sound(RakeAudioMessage::EatFood) => String::from("eat"),
            Action::Sound(RakeAudioMessage::Die) => String::from("die"),
            Action::Sound(RakeAudioMessage::Buy) => String::from("buy"),
            Action::SaveScore(s) => format!("save{}", s),
            Action::RoundWin(m) => format!("win{}", m),
            Action::RoundFailed(l) => format!("failed{}", l),
            Action::DeathScreen => String::from("dead"),
            Action::Render(_) => String::from("render"),
        })
        .collect()
}

#[test]
fn new_game_waits_at_the_corner() {
    let g = Sandbox::new(Grid::new(30, 20), 7);
    assert_eq!((g.snake.head.x, g.snake.head.y), (0, 0));
    assert_eq!(g.snake.lives, 5);
    assert_eq!((g.round, g.round_goal, g.round_score, g.total_score, g.high_score), (1, 2, 0, 0, 7));
    assert_eq!(g.food_items.len(), 1);
    assert_eq!(g.food_items[0].body.obj_type, ObjectType::Food(10));
    assert!(g.start_round && !g.in_shop && !g.finished);
}

#[test]
fn a_step_moves_and_renders() {
    let mut g = game();
    let acts = g.tick().unwrap();
    assert_eq!(kinds(&acts), vec!["clear", "render"]);
    assert_eq!((g.snake.head.x, g.snake.head.y), (1, 0));
    match &acts[1] {
        Action::Render(f) => {
            assert_eq!(f.objects.len(), 2);
            assert_eq!((f.objects[0].x, f.objects[0].y), (1, 0));
            assert_eq!(f.direction, SnakeDirection::Right);
            assert_eq!((f.round, f.lives, f.round_goal), (1, 5, 2));
        }
        _ => panic!("expected a frame"),
    }
}

#[test]
fn nothing_happens_before_start() {
    let mut g = game();
    g.start_round = false;
    assert!(g.tick().unwrap().is_empty());
    assert_eq!((g.snake.head.x, g.snake.head.y), (0, 0));
    g.request_start();
    assert!(g.start_round);
}

#[test]
fn eating_food_scores_its_value() {
    let mut g = game();
    g.food_items = vec![food_at(1, 0, 10)];
    let acts = g.tick().unwrap();
    assert_eq!(kinds(&acts), vec!["clear", "eat", "render"]);
    assert_eq!(g.snake.size, 10);
    assert_eq!(g.round_score, 10);
    assert_eq!(g.snake.new_food_eaten, 1);
    let acts = g.tick().unwrap();
    assert_eq!(kinds(&acts).last().unwrap(), "render");
    assert_eq!(g.snake.body.len(), 1);
    assert_eq!(g.snake.new_food_eaten, 0);
}

#[test]
fn leaving_the_field_wins_a_round_that_met_its_goal() {
    let mut g = game();
    g.snake.head.x = 29;
    g.snake.head.y = 3;
    g.round_score = 5;
    let acts = g.tick().unwrap();
    let acts = kinds(&acts);
    assert_eq!(acts, vec!["clear", "render"]);
    let acts = kinds(&g.tick().unwrap());
    assert_eq!(acts, vec!["clear", "die", "save5", "win2"]);
    assert_eq!(g.snake.money, 2);
    assert_eq!(g.snake.lives, 5);
    assert_eq!(g.round, 2);
    assert_eq!(g.round_goal, 2 + 1 + 2 * 1);
    assert_eq!(g.round_score, 0);
    assert_eq!(g.total_score, 5);
    assert!(g.in_shop && !g.start_round);
    assert_eq!((g.snake.head.x, g.snake.head.y), (0, 0));
    assert!(g.tick().unwrap().is_empty());
    g.request_start();
    let acts = g.tick().unwrap();
    assert_eq!(kinds(&acts), vec!["shop3"]);
    assert!(!g.in_shop && !g.start_round);
    g.request_start();
    assert_eq!(kinds(&g.tick().unwrap()), vec!["clear", "render"]);
}

#[test]
fn losing_a_round_costs_a_life() {
    let mut g = game();
    g.snake.head.direction = Some(SnakeDirection::Up);
    assert_eq!(kinds(&g.tick().unwrap()), vec!["clear", "render"]);
    assert_eq!(g.snake.head.y, -1);
    let acts = kinds(&g.tick().unwrap());
    assert_eq!(acts, vec!["clear", "die", "failed4"]);
    assert_eq!((g.snake.head.x, g.snake.head.y), (0, 0));
    assert_eq!(g.snake.lives, 4);
    assert!(!g.start_round);
    assert_eq!(g.total_score, 0);
}

#[test]
fn the_last_life_ends_the_game() {
    let mut g = game();
    g.snake.lives = 1;
    g.snake.head.direction = Some(SnakeDirection::Up);
    g.tick().unwrap();
    let acts = kinds(&g.tick().unwrap());
    assert_eq!(acts, vec!["clear", "die", "dead"]);
    assert!(g.finished);
    assert_eq!(g.snake.lives, 0);
    assert!(g.tick().unwrap().is_empty());
}

#[test]
fn running_into_the_body_kills() {
    let mut g = game();
    g.snake.head.x = 5;
    g.snake.head.y = 5;
    g.snake.head.direction = Some(SnakeDirection::Down);
    g.snake.size = 4;
    g.snake.body = vec![
        seg(4, 5, SnakeDirection::Right),
        seg(4, 6, SnakeDirection::Up),
        seg(5, 6, SnakeDirection::Left),
        seg(6, 6, SnakeDirection::Left),
    ];
    let acts = kinds(&g.tick().unwrap());
    assert_eq!(acts, vec!["clear", "die", "failed4"]);
}

#[test]
fn steering_in_the_game() {
    let mut g = game();
    g.steer(SnakeDirection::Left);
    assert_eq!(g.snake.head.direction, Some(SnakeDirection::Right));
    g.steer(SnakeDirection::Down);
    g.tick().unwrap();
    assert_eq!((g.snake.head.x, g.snake.head.y), (0, 1));
}

#[test]
fn shop_purchase_in_the_game() {
    let mut g = game();
    g.snake.money = 9;
    let offer = g.open_shop();
    assert_eq!(offer.len(), 3);
    let it = Item::new(String::from("LongBoi"), 9, String::new(), ItemType::LongBoi);
    assert!(g.buy(it));
    assert_eq!(g.snake.money, 0);
    g.start_round = true;
    g.tick().unwrap();
    assert_eq!(g.snake.size, 500);
}

#[test]
fn score_overflow_is_an_error() {
    let mut g = game();
    g.food_items = vec![food_at(1, 0, 10)];
    g.round_score = i32::MAX - 5;
    assert_eq!(g.tick().err(), Some(GameError::Overflow));
}

#[test]
fn golden_snack_pays_when_two_first_snacks_come_at_once() {
    let grid = Grid::new(30, 20);
    let mut snake = Snake::new(0, 0);
    snake.items.push(item(ItemType::GoldenSnack));
    let mut foods = vec![food_at(3, 3, 10)];
    let mut score = 0;
    snake.new_food_eaten = 2;
    Game::trigger_items(&mut snake, &mut foods, grid, &mut score).unwrap();
    assert_eq!((snake.size, score), (300, 300));
    assert_eq!(snake.items[0].food_count, 2);
    Game::trigger_items(&mut snake, &mut foods, grid, &mut score).unwrap();
    assert_eq!((snake.size, score), (300, 300));
    assert_eq!(snake.items[0].food_count, 4);
}

#[test]
fn snackception_carries_snacks_past_five() {
    let grid = Grid::new(30, 20);
    let mut snake = Snake::new(0, 0);
    let mut it = item(ItemType::Snackception);
    it.food_count = 4;
    snake.items.push(it);
    let mut foods = vec![food_at(3, 3, 10), food_at(5, 5, 1)];
    let mut score = 0;
    snake.new_food_eaten = 2;
    Game::trigger_items(&mut snake, &mut foods, grid, &mut score).unwrap();
    assert_eq!(foods[0].body.obj_type, ObjectType::Food(11));
    assert_eq!(foods[1].body.obj_type, ObjectType::Food(2));
    assert_eq!((foods[0].body.x, foods[0].body.y), (3, 3));
    assert_eq!(snake.items[0].food_count, 1);
    assert_eq!((snake.size, score), (0, 0));
}

#[test]
fn sheds_follow_the_rolls() {
    let mut snake = Snake::new(0, 0);
    snake.size = 100;
    for k in 0..100 {
        snake.body.push(seg(k, 1, SnakeDirection::Right));
    }
    assert_eq!(shed_for_rolls(&mut snake, &vec![1, 0, 5, 1]), 2);
    assert_eq!(snake.size, 81);
    assert_eq!(snake.body.len(), 81);
    assert_eq!(snake.body[80].x, 80);
    assert_eq!(shed_for_rolls(&mut snake, &vec![0, 2, 9]), 0);
    assert_eq!(snake.size, 81);
}

#[test]
fn a_harmless_body_grows_harmless() {
    let mut snake = Snake::new(5, 5);
    snake.size = 3;
    let mut tail = seg(4, 5, SnakeDirection::Right);
    tail.obj_type = ObjectType::Nothing;
    snake.body.push(tail);
    snake.grow();
    assert_eq!(snake.body.len(), 2);
    assert_eq!(snake.body[1].obj_type, ObjectType::Nothing);
    let mut plain = Snake::new(5, 5);
    plain.size = 1;
    plain.grow();
    assert_eq!(plain.body[0].obj_type, ObjectType::Snake);
}

#[test]
fn phantom_snake_survives_running_into_its_body() {
    let mut g = game();
    g.snake.items.push(item(ItemType::PhantomSnake));
    g.snake.head.x = 5;
    g.snake.head.y = 5;
    g.snake.head.direction = Some(SnakeDirection::Down);
    g.snake.size = 4;
    g.snake.body = vec![
        seg(4, 5, SnakeDirection::Right),
        seg(4, 6, SnakeDirection::Up),
        seg(5, 6, SnakeDirection::Left),
    ];
    let acts = kinds(&g.tick().unwrap());
    assert_eq!(acts, vec!["clear", "render"]);
    assert_eq!((g.snake.head.x, g.snake.head.y), (5, 6));
    assert_eq!(g.snake.lives, 5);
}

#[test]
fn steering_keeps_the_rest_of_the_snake() {
    let mut g = game();
    g.snake.money = 7;
    g.snake.lives = 3;
    g.snake.size = 4;
    g.steer(SnakeDirection::Up);
    assert_eq!(g.snake.head.direction, Some(SnakeDirection::Up));
    assert_eq!((g.snake.money, g.snake.lives, g.snake.size), (7, 3, 4));
    assert_eq!(g.snake.head.i, '●');
}
