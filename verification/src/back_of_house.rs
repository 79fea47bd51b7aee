//! The kitchen: what a customer may order, and what the chef decides.
use vstd::prelude::*;
use vstd::string::StringExecFns;

verus! {

/// A breakfast. The customer picks the toast; the fruit is the chef's choice
/// and cannot be set from outside.
#[derive(Debug, Clone, PartialEq, Eq)]
pub struct Breakfast {
    pub toast: String,
    seasonal_fruit: String,
}

/// What a breakfast consists of.
pub ghost struct BreakfastModel {
    pub toast: Seq<char>,
    pub seasonal_fruit: Seq<char>,
}

impl View for Breakfast {
    type V = BreakfastModel;

    closed spec fn view(&self) -> BreakfastModel {
        BreakfastModel { toast: self.toast@, seasonal_fruit: self.seasonal_fruit@ }
    }
}

impl Breakfast {
    /// A summer breakfast with the toast asked for; in summer the fruit is peaches.
    pub fn summer(toast: &str) -> (meal: Breakfast)
        ensures
            meal@.toast == toast@,
            meal@.seasonal_fruit == "peaches"@,
    {
        Breakfast { toast: String::from_str(toast), seasonal_fruit: String::from_str("peaches") }
    }

    /// The fruit that comes with this breakfast, for reading only.
    pub fn fruit(&self) -> (fruit: &str)
        ensures
            fruit@ == self@.seasonal_fruit,
    {
        self.seasonal_fruit.as_str()
    }
}

/// A starter.
#[derive(Debug, Clone, Copy, PartialEq, Eq)]
pub enum Appetizer {
    Soup,
    Salad,
}

/// What a customer ends up with who orders a summer breakfast with rye toast,
/// then changes the toast to wheat, and takes both starters.
pub fn order_food() -> (order: (Breakfast, Appetizer, Appetizer))
    ensures
        order.0@.toast == "Wheat"@,
        order.0@.seasonal_fruit == "peaches"@,
        order.1 == Appetizer::Soup,
        order.2 == Appetizer::Salad,
{
    let mut meal = Breakfast::summer("Rye");
    meal.toast = String::from_str("Wheat");
    (meal, Appetizer::Soup, Appetizer::Salad)
}

} // verus!
