//! The shop: three stocks of items, of which a dice roll picks one to offer.
use vstd::prelude::*;
use crate::item::{Item, ItemType, is_fresh_item};
use crate::rng::{random_below, choose_item};

verus! {

/// A roll at or above this offers an ultra rare item.
pub const ULTRA_RARE_ITEM_VALUE: u32 = 98;
/// A roll at or above this (and below the ultra rare mark) offers a rare
/// item: two rolls in a hundred are ultra rare, five are rare.
pub const RARE_ITEM_VALUE: u32 = 93;
/// Rolls are drawn from `0..DICE_SIDES`.
pub const DICE_SIDES: usize = 100;

/// The stock a dice roll picks.
#[derive(Clone, Copy, Debug, PartialEq, Eq, Structural)]
pub enum Rarity {
    Common,
    Rare,
    UltraRare,
}

#[derive(Debug, Clone)]
pub struct Shop {
    pub common_items: Vec<Item>,
    pub rare_items: Vec<Item>,
    pub ultra_rare_items: Vec<Item>,
}

/// The stock that a roll picks.
pub open spec fn rarity_for(roll: u32) -> Rarity {
    if roll >= ULTRA_RARE_ITEM_VALUE {
        Rarity::UltraRare
    } else if roll >= RARE_ITEM_VALUE {
        Rarity::Rare
    } else {
        Rarity::Common
    }
}

/// `r` is what the shop may offer for `roll`: an item of the stock that the
/// roll picks, or nothing exactly when that stock is empty.
pub open spec fn offer_fits(shop: Shop, roll: u32, r: Option<&Item>) -> bool {
    &&& (r is None <==> shop.stock(rarity_for(roll)).len() == 0)
    &&& (r matches Some(it) ==> shop.stock(rarity_for(roll)).contains(*it))
}

/// The common stock as the shop opens.
pub open spec fn is_common_stock(items: Seq<Item>) -> bool {
    &&& items.len() == 5
    &&& is_fresh_item(items[0], ItemType::Double, "Double"@, 6, "Double the ammount of snacks"@)
    &&& is_fresh_item(items[1], ItemType::Snacks, "Snacks"@, 7, "Every Snack gives 2x"@)
    &&& is_fresh_item(
        items[2],
        ItemType::Foody,
        "Foody"@,
        5,
        "For each food eaten this item will give 1 food for each time it has been triggerd."@,
    )
    &&& is_fresh_item(
        items[3],
        ItemType::Shedding,
        "Shedding"@,
        6,
        "For each food eaten 10% chance to remove some size"@,
    )
    &&& is_fresh_item(
        items[4],
        ItemType::Snackception,
        "Snackception"@,
        8,
        "Every 5 snacks increases the value of a snack by 1"@,
    )
}

/// The rare stock as the shop opens.
pub open spec fn is_rare_stock(items: Seq<Item>) -> bool {
    &&& items.len() == 1
    &&& is_fresh_item(items[0], ItemType::GoldenSnack, "GoldenSnack"@, 9, "First snack gives 300 food"@)
}

/// The ultra rare stock as the shop opens.
pub open spec fn is_ultra_rare_stock(items: Seq<Item>) -> bool {
    &&& items.len() == 2
    &&& is_fresh_item(
        items[0],
        ItemType::PhantomSnake,
        "Phantom Snake"@,
        9,
        "Snake Cannot collide with itself."@,
    )
    &&& is_fresh_item(items[1], ItemType::LongBoi, "LongBoi"@, 9, "Start with a snake length of 500."@)
}

/// The stock that a roll picks.
pub fn rarity_of_roll(roll: u32) -> (r: Rarity)
    ensures
        r == rarity_for(roll),
{
    if roll >= ULTRA_RARE_ITEM_VALUE {
        Rarity::UltraRare
    } else if roll >= RARE_ITEM_VALUE && roll < ULTRA_RARE_ITEM_VALUE {
        Rarity::Rare
    } else {
        Rarity::Common
    }
}

impl Shop {
    pub open spec fn stock(self, rarity: Rarity) -> Seq<Item> {
        match rarity {
            Rarity::Common => self.common_items@,
            Rarity::Rare => self.rare_items@,
            Rarity::UltraRare => self.ultra_rare_items@,
        }
    }

    /// Every stock holds at least one item.
    pub open spec fn is_stocked(self) -> bool {
        &&& self.common_items@.len() > 0
        &&& self.rare_items@.len() > 0
        &&& self.ultra_rare_items@.len() > 0
    }

    /// A shop with its three stocks as the game opens them.
    pub fn new() -> (r: Self)
        ensures
            is_common_stock(r.common_items@),
            is_rare_stock(r.rare_items@),
            is_ultra_rare_stock(r.ultra_rare_items@),
            r.is_stocked(),
    {
        let common_items = Shop::common_tiems();
        let rare_items = Shop::rare_items();
        let ultra_rare_items = Shop::ultra_rare_items();
        Self { common_items, rare_items, ultra_rare_items }
    }

    /// The stock that `rarity` names.
    pub fn stock_of(&self, rarity: Rarity) -> (r: &Vec<Item>)
        ensures
            r@ == self.stock(rarity),
    {
        match rarity {
            Rarity::Common => &self.common_items,
            Rarity::Rare => &self.rare_items,
            Rarity::UltraRare => &self.ultra_rare_items,
        }
    }

    /// Offers an item, drawn at random, from the stock that `roll` picks:
    /// `None` exactly when that stock is empty.
    pub fn offer_for_roll(&self, roll: u32) -> (r: Option<&Item>)
        requires
            roll < DICE_SIDES,
        ensures
            offer_fits(*self, roll, r),
    {
        let rarity = rarity_of_roll(roll);
        let stock = self.stock_of(rarity);
        choose_item(stock)
    }

    /// Rolls a hundred-sided die and offers an item, drawn at random, from the
    /// stock that the roll picks: `None` only if that stock is empty.
    pub fn get_shop_item(&mut self) -> (r: Option<&Item>)
        ensures
            *final(self) == *old(self),
            exists|roll: u32| roll < DICE_SIDES && #[trigger] offer_fits(*old(self), roll, r),
            r matches Some(it) ==> exists|rarity: Rarity| #[trigger] old(self).stock(rarity).contains(*it),
            old(self).is_stocked() ==> r is Some,
    {
        let dice_roll = random_below(DICE_SIDES) as u32;
        let r = self.offer_for_roll(dice_roll);
        proof {
            assert(offer_fits(*old(self), dice_roll, r));
            if let Some(it) = r {
                assert(old(self).stock(rarity_for(dice_roll)).contains(*it));
            }
        }
        r
    }

    fn common_tiems() -> (items: Vec<Item>)
        ensures
            is_common_stock(items@),
    {
        let mut items = Vec::new();
        items.push(Item::new(
            String::from_str("Double"),
            6,
            String::from_str("Double the ammount of snacks"),
            ItemType::Double,
        ));
        items.push(Item::new(
            String::from_str("Snacks"),
            7,
            String::from_str("Every Snack gives 2x"),
            ItemType::Snacks,
        ));
        items.push(Item::new(
            String::from_str("Foody"),
            5,
            String::from_str(
                "For each food eaten this item will give 1 food for each time it has been triggerd.",
            ),
            ItemType::Foody,
        ));
        items.push(Item::new(
            String::from_str("Shedding"),
            6,
            String::from_str("For each food eaten 10% chance to remove some size"),
            ItemType::Shedding,
        ));
        items.push(Item::new(
            String::from_str("Snackception"),
            8,
            String::from_str("Every 5 snacks increases the value of a snack by 1"),
            ItemType::Snackception,
        ));
        items
    }

    fn rare_items() -> (items: Vec<Item>)
        ensures
            is_rare_stock(items@),
    {
        let mut items = Vec::new();
        items.push(Item::new(
            String::from_str("GoldenSnack"),
            9,
            String::from_str("First snack gives 300 food"),
            ItemType::GoldenSnack,
        ));
        items
    }

    fn ultra_rare_items() -> (items: Vec<Item>)
        ensures
            is_ultra_rare_stock(items@),
    {
        let mut items = Vec::new();
        items.push(Item::new(
            String::from_str("Phantom Snake"),
            9,
            String::from_str("Snake Cannot collide with itself."),
            ItemType::PhantomSnake,
        ));
        items.push(Item::new(
            String::from_str("LongBoi"),
            9,
            String::from_str("Start with a snake length of 500."),
            ItemType::LongBoi,
        ));
        items
    }
}

/// A roll of 98 or 99 offers an ultra rare item, a roll of 97 a rare one,
/// and any roll up to 96 a common one.
pub proof fn law_rarity_bands(roll: u32)
    ensures
        rarity_for(roll) == Rarity::UltraRare <==> roll >= 98,
        rarity_for(roll) == Rarity::Rare <==> 93 <= roll <= 97,
        rarity_for(roll) == Rarity::Common <==> roll <= 92,
{
}

/// A stock as the shop opens is fixed item by item: two such stocks agree on
/// every item's kind, name, price, description and counters.
pub proof fn law_stocks_determined(a: Seq<Item>, b: Seq<Item>)
    ensures
        is_common_stock(a) && is_common_stock(b) ==> same_stock(a, b),
        is_rare_stock(a) && is_rare_stock(b) ==> same_stock(a, b),
        is_ultra_rare_stock(a) && is_ultra_rare_stock(b) ==> same_stock(a, b),
{
}

/// `a` and `b` hold the same items, field by field, strings by their text.
pub open spec fn same_stock(a: Seq<Item>, b: Seq<Item>) -> bool {
    &&& a.len() == b.len()
    &&& forall|j: int| 0 <= j < a.len() ==> {
        &&& (#[trigger] a[j]).item_type == b[j].item_type
        &&& a[j].item_name@ == b[j].item_name@
        &&& a[j].value == b[j].value
        &&& a[j].description@ == b[j].description@
        &&& a[j].triggered == b[j].triggered
        &&& a[j].trigger_count == b[j].trigger_count
        &&& a[j].food_count == b[j].food_count
    }
}

} // verus!
