//! The items that the shop sells and that change how a round plays.
use vstd::prelude::*;

verus! {

/// What an item does.
#[derive(Debug, Clone, Copy, PartialEq, Eq, Structural)]
pub enum ItemType {
    Shears,
    Snacks,
    Double,
    Time,
    ForEver,
    LongBoi,
    PhantomSnake,
    Snackception,
    GoldenSnack,
    Foody,
    Shedding,
}

/// An item: its kind, name, price and description, and the counters that
/// the round keeps on it.
#[derive(Debug, Clone, PartialEq)]
pub struct Item {
    pub item_type: ItemType,
    pub item_name: String,
    pub value: i32,
    pub description: String,
    pub triggered: bool,
    pub trigger_count: u32,
    pub food_count: u32,
}

/// `it` is a new item of kind `t`, named `name`, priced `value` and described
/// by `description`, with its counters at zero.
pub open spec fn is_fresh_item(it: Item, t: ItemType, name: Seq<char>, value: i32, description: Seq<char>) -> bool {
    &&& it.item_type == t
    &&& it.item_name@ == name
    &&& it.value == value
    &&& it.description@ == description
    &&& !it.triggered
    &&& it.trigger_count == 0
    &&& it.food_count == 0
}

impl Item {
    pub fn new(item_name: String, value: i32, description: String, item_type: ItemType) -> (r: Self)
        ensures
            is_fresh_item(r, item_type, item_name@, value, description@),
            r.item_name == item_name,
            r.description == description,
    {
        Self {
            item_name,
            value,
            description,
            item_type,
            triggered: false,
            trigger_count: 0,
            food_count: 0,
        }
    }

    /// A copy of the item.
    pub fn duplicate(&self) -> (r: Item)
        ensures
            r == *self,
    {
        Item {
            item_type: self.item_type,
            item_name: self.item_name.clone(),
            value: self.value,
            description: self.description.clone(),
            triggered: self.triggered,
            trigger_count: self.trigger_count,
            food_count: self.food_count,
        }
    }
}

} // verus!
