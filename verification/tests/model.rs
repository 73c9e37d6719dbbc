use rake::food::Food;
use rake::game::Game;
use rake::grid::{Grid, GridObject, ObjectType};
use rake::item::{Item, ItemType};
use rake::shop::{rarity_of_roll, Rarity, Shop};
use rake::snake::{Snake, SnakeDirection};

fn obj(x: i32, y: i32, i: char, t: ObjectType) -> GridObject {
    GridObject::new(x, y, i, t, None)
}

#[test]
fn grid_text_shows_first_object_on_each_cell() {
    let mut grid = Grid::new(3, 2);
    let objects = vec![
        obj(0, 0, 'o', ObjectType::Food(1)),
        obj(1, 1, 'X', ObjectType::Snake),
        obj(0, 0, 'z', ObjectType::Snake),
    ];
    assert_eq!(grid.gen_grid(objects), "o··\n·X·\n");
    assert_eq!(grid.x, 3);
    assert_eq!(grid.y, 2);
}

#[test]
fn grid_text_of_empty_field() {
    let mut grid = Grid::new(4, 0);
    assert_eq!(grid.gen_grid(Vec::new()), "");
    let mut grid = Grid::new(2, 2);
    assert_eq!(grid.gen_grid(Vec::new()), "··\n··\n");
}

#[test]
fn grid_text_ignores_objects_off_the_field() {
    let mut grid = Grid::new(2, 1);
    let objects = vec![obj(5, 0, 'q', ObjectType::Snake), obj(-1, 0, 'q', ObjectType::Snake)];
    assert_eq!(grid.gen_grid(objects), "··\n");
}

#[test]
fn reset_places_object_on_the_field() {
    let grid = Grid::new(3, 2);
    for _ in 0..200 {
        let mut o = GridObject::new(100, -7, 'k', ObjectType::Snake, Some(SnakeDirection::Up));
        o.reset(grid);
        assert!(0 <= o.x && o.x < 3);
        assert!(0 <= o.y && o.y < 2);
        assert_eq!(o.i, 'k');
        assert_eq!(o.direction, Some(SnakeDirection::Up));
    }
}

#[test]
fn place_moves_to_the_given_cell() {
    let mut o = obj(1, 1, 'a', ObjectType::Nothing);
    o.place(7, 9);
    assert_eq!((o.x, o.y, o.i), (7, 9, 'a'));
}

#[test]
fn food_is_placed_on_the_field() {
    let grid = Grid::new(1, 1);
    let f = Food::new(grid, 10, 'o');
    assert_eq!((f.body.x, f.body.y), (0, 0));
    assert_eq!(f.body.i, 'o');
    assert_eq!(f.body.obj_type, ObjectType::Food(10));
    assert_eq!(f.body.direction, None);
    let grid = Grid::new(30, 20);
    for _ in 0..100 {
        let mut f = Food::new(grid, 3, 'x');
        f.reset(grid);
        assert!(f.body.x >= 0 && f.body.x < 30 && f.body.y >= 0 && f.body.y < 20);
        assert_eq!(f.body.obj_type, ObjectType::Food(3));
    }
}

#[test]
fn new_item_has_counters_at_zero() {
    let it = Item::new(String::from("Foody"), 5, String::from("desc"), ItemType::Foody);
    assert_eq!(it.item_name, "Foody");
    assert_eq!(it.value, 5);
    assert_eq!(it.description, "desc");
    assert_eq!(it.item_type, ItemType::Foody);
    assert!(!it.triggered);
    assert_eq!(it.trigger_count, 0);
    assert_eq!(it.food_count, 0);
    assert_eq!(it.duplicate(), it);
}

#[test]
fn shop_opens_with_its_stock() {
    let shop = Shop::new();
    let common: Vec<(&str, i32, ItemType)> = shop
        .common_items
        .iter()
        .map(|i| (i.item_name.as_str(), i.value, i.item_type))
        .collect();
    assert_eq!(
        common,
        vec![
            ("Double", 6, ItemType::Double),
            ("Snacks", 7, ItemType::Snacks),
            ("Foody", 5, ItemType::Foody),
            ("Shedding", 6, ItemType::Shedding),
            ("Snackception", 8, ItemType::Snackception),
        ]
    );
    assert_eq!(shop.rare_items.len(), 1);
    assert_eq!(shop.rare_items[0].item_name, "GoldenSnack");
    assert_eq!(shop.rare_items[0].description, "First snack gives 300 food");
    assert_eq!(shop.ultra_rare_items.len(), 2);
    assert_eq!(shop.ultra_rare_items[0].item_name, "Phantom Snake");
    assert_eq!(shop.ultra_rare_items[1].item_name, "LongBoi");
    assert_eq!(shop.ultra_rare_items[1].value, 9);
}

#[test]
fn rolls_pick_their_stock() {
    assert_eq!(rarity_of_roll(0), Rarity::Common);
    assert_eq!(rarity_of_roll(92), Rarity::Common);
    assert_eq!(rarity_of_roll(93), Rarity::Rare);
    assert_eq!(rarity_of_roll(95), Rarity::Rare);
    assert_eq!(rarity_of_roll(97), Rarity::Rare);
    assert_eq!(rarity_of_roll(98), Rarity::UltraRare);
    assert_eq!(rarity_of_roll(99), Rarity::UltraRare);
}

#[test]
fn shop_offers_one_of_its_items() {
    let mut shop = Shop::new();
    let names: Vec<String> = shop
        .common_items
        .iter()
        .chain(shop.rare_items.iter())
        .chain(shop.ultra_rare_items.iter())
        .map(|i| i.item_name.clone())
        .collect();
    for _ in 0..300 {
        let it = shop.get_shop_item().unwrap().clone();
        assert!(names.contains(&it.item_name));
    }
}

#[test]
fn empty_stock_offers_nothing() {
    let mut shop = Shop { common_items: Vec::new(), rare_items: Vec::new(), ultra_rare_items: Vec::new() };
    assert!(shop.get_shop_item().is_none());
    assert_eq!(shop.stock_of(Rarity::Rare).len(), 0);
}

#[test]
fn new_snake_heads_right_with_five_lives() {
    let s = Snake::new(3, 4);
    assert_eq!((s.head.x, s.head.y), (3, 4));
    assert_eq!(s.head.i, '●');
    assert_eq!(s.head.obj_type, ObjectType::Snake);
    assert_eq!(s.head.direction, Some(SnakeDirection::Right));
    assert_eq!(s.lives, 5);
    assert_eq!((s.size, s.money, s.new_food_eaten), (0, 0, 0));
    assert!(s.body.is_empty() && s.items.is_empty());
}

#[test]
fn lives_stop_at_five() {
    let mut s = Snake::new(0, 0);
    s.lives = 3;
    s.add_lives(1);
    assert_eq!(s.lives, 4);
    s.add_lives(10);
    assert_eq!(s.lives, 5);
    s.add_lives(3);
    assert_eq!(s.lives, 5);
    s.lives = 2;
    s.add_lives(-1);
    assert_eq!(s.lives, 2);
    s.lives = 7;
    s.add_lives(2);
    assert_eq!(s.lives, 7);
}

#[test]
fn reset_keeps_lives_money_and_items() {
    let mut s = Snake::new(5, 6);
    s.head.direction = Some(SnakeDirection::Up);
    s.size = 12;
    s.lives = 3;
    s.money = 9;
    s.body.push(obj(5, 7, 'X', ObjectType::Snake));
    s.items.push(Item::new(String::from("a"), 1, String::new(), ItemType::Double));
    s.reset();
    assert_eq!((s.head.x, s.head.y), (0, 0));
    assert_eq!(s.head.direction, Some(SnakeDirection::Right));
    assert_eq!(s.size, 0);
    assert!(s.body.is_empty());
    assert_eq!((s.lives, s.money, s.items.len()), (3, 9, 1));
    s.reset();
    assert_eq!((s.head.x, s.head.y, s.size), (0, 0, 0));
}

#[test]
fn body_pieces_follow_the_bends() {
    let seg = |d| GridObject::new(0, 0, 'X', ObjectType::Snake, Some(d));
    let cases = [
        (SnakeDirection::Right, SnakeDirection::Right, '═'),
        (SnakeDirection::Left, SnakeDirection::Left, '═'),
        (SnakeDirection::Up, SnakeDirection::Up, '║'),
        (SnakeDirection::Down, SnakeDirection::Down, '║'),
        (SnakeDirection::Right, SnakeDirection::Up, '╝'),
        (SnakeDirection::Down, SnakeDirection::Left, '╝'),
        (SnakeDirection::Right, SnakeDirection::Down, '╗'),
        (SnakeDirection::Up, SnakeDirection::Left, '╗'),
        (SnakeDirection::Left, SnakeDirection::Up, '╚'),
        (SnakeDirection::Down, SnakeDirection::Right, '╚'),
        (SnakeDirection::Left, SnakeDirection::Down, '╔'),
        (SnakeDirection::Up, SnakeDirection::Right, '╔'),
        (SnakeDirection::Up, SnakeDirection::Down, ' '),
        (SnakeDirection::Left, SnakeDirection::Right, ' '),
    ];
    for (a, b, c) in cases {
        assert_eq!(Snake::update_body(seg(a), seg(b)), c);
    }
}

#[test]
fn steering_never_reverses() {
    let mut s = Snake::new(0, 0);
    s.steer(SnakeDirection::Left);
    assert_eq!(s.head.direction, Some(SnakeDirection::Right));
    s.steer(SnakeDirection::Up);
    assert_eq!(s.head.direction, Some(SnakeDirection::Up));
    s.steer(SnakeDirection::Down);
    assert_eq!(s.head.direction, Some(SnakeDirection::Up));
    s.steer(SnakeDirection::Left);
    assert_eq!(s.head.direction, Some(SnakeDirection::Left));
}

#[test]
fn buying_needs_the_money() {
    let mut s = Snake::new(0, 0);
    s.money = 10;
    let it = Item::new(String::from("Double"), 6, String::new(), ItemType::Double);
    assert!(s.buy(it.clone()));
    assert_eq!(s.money, 4);
    assert_eq!(s.items.len(), 1);
    assert!(!s.buy(it));
    assert_eq!(s.money, 4);
    assert_eq!(s.items.len(), 1);
}

#[test]
fn game_round_counters() {
    let g = Game::new(3, 40);
    assert_eq!((g.round(), g.round_score(), g.round_goal()), (3, 0, 40));
}

#[test]
fn border_wall_surrounds_the_field() {
    let wall = Game::build_border_wall(Grid::new(4, 3));
    assert_eq!(wall.len(), 10);
    let cells: Vec<(i32, i32)> = wall.iter().map(|o| (o.x, o.y)).collect();
    assert_eq!(
        cells,
        vec![(0, 0), (0, 1), (0, 2), (1, 0), (1, 2), (2, 0), (2, 2), (3, 0), (3, 1), (3, 2)]
    );
    assert!(wall.iter().all(|o| o.i == '▮' && o.obj_type == ObjectType::Snake && o.direction.is_none()));
    assert_eq!(Game::build_border_wall(Grid::new(1, 1)).len(), 1);
    assert_eq!(Game::build_border_wall(Grid::new(0, 5)).len(), 0);
    assert_eq!(Game::build_border_wall(Grid::new(30, 20)).len(), 96);
}

#[test]
fn reset_items_clears_foody_triggers() {
    let mut s = Snake::new(0, 0);
    let mut foody = Item::new(String::from("Foody"), 5, String::new(), ItemType::Foody);
    foody.trigger_count = 4;
    let mut snacks = Item::new(String::from("Snacks"), 7, String::new(), ItemType::Snacks);
    snacks.trigger_count = 2;
    s.items.push(foody);
    s.items.push(snacks);
    Game::reset_items(&mut s);
    assert_eq!(s.items[0].trigger_count, 0);
    assert_eq!(s.items[1].trigger_count, 2);
}

#[test]
fn offer_for_roll_uses_the_stock_the_roll_picks() {
    let shop = Shop::new();
    for _ in 0..50 {
        assert_eq!(shop.offer_for_roll(95).unwrap().item_name, "GoldenSnack");
        let ultra = shop.offer_for_roll(99).unwrap().item_name.clone();
        assert!(ultra == "Phantom Snake" || ultra == "LongBoi");
        let common = shop.offer_for_roll(10).unwrap();
        assert!(shop.common_items.iter().any(|i| i.item_name == common.item_name));
    }
    let empty = Shop { common_items: Vec::new(), rare_items: shop.rare_items.clone(), ultra_rare_items: Vec::new() };
    assert!(empty.offer_for_roll(0).is_none());
    assert!(empty.offer_for_roll(94).is_some());
}
