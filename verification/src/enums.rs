//! Values that are one of several kinds, and decisions by kind.
use vstd::prelude::*;
use vstd::string::StringExecFns;

verus! {

/// A state of the union that has minted its own quarter.
#[derive(Debug, Clone, Copy, PartialEq, Eq)]
pub enum UsState {
    Alabama,
    Alaska,
}

/// A coin.
#[derive(Debug, Clone, Copy, PartialEq, Eq)]
pub enum Coin {
    Penny,
    Nickel,
    Dime,
    /// A quarter, with the state that minted it.
    Quarter(UsState),
}

/// What a coin is worth, in cents.
pub open spec fn cents(coin: Coin) -> u8 {
    match coin {
        Coin::Penny => 1,
        Coin::Nickel => 5,
        Coin::Dime => 10,
        Coin::Quarter(_) => 25,
    }
}

/// The name of a state.
pub open spec fn state_text(state: UsState) -> Seq<char> {
    match state {
        UsState::Alabama => "Alabama"@,
        UsState::Alaska => "Alaska"@,
    }
}

/// What there is to say about a coin: a penny brings luck, and a quarter
/// tells where it is from. Of the others there is nothing to say.
pub open spec fn remark_text(coin: Coin) -> Option<Seq<char>> {
    match coin {
        Coin::Penny => Some("Lucky penny!"@),
        Coin::Quarter(state) => Some("State quarter from "@ + state_text(state) + "!"@),
        _ => None,
    }
}

/// What `coin` is worth, in cents.
pub fn value_in_cents(coin: Coin) -> (value: u8)
    ensures
        value == cents(coin),
{
    match coin {
        Coin::Penny => 1,
        Coin::Nickel => 5,
        Coin::Dime => 10,
        Coin::Quarter(_) => 25,
    }
}

/// The name of `state`.
pub fn state_name(state: UsState) -> (name: &'static str)
    ensures
        name@ == state_text(state),
{
    match state {
        UsState::Alabama => "Alabama",
        UsState::Alaska => "Alaska",
    }
}

/// The remark that goes with `coin` when it is counted, if there is one.
pub fn remark(coin: Coin) -> (remark: Option<String>)
    ensures
        match remark {
            Some(text) => remark_text(coin) == Some(text@),
            None => remark_text(coin) is None,
        },
{
    match coin {
        Coin::Penny => Some(String::from_str("Lucky penny!")),
        Coin::Quarter(state) => {
            let mut text = String::from_str("State quarter from ");
            text.append(state_name(state));
            text.append("!");
            Some(text)
        },
        _ => None,
    }
}

/// The number after `x`, if `x` is a number.
///
/// The number after the greatest `i32` cannot be given: that one is left out.
pub fn plus_one(x: Option<i32>) -> (next: Option<i32>)
    requires
        x != Some(i32::MAX),
    ensures
        match x {
            Some(i) => next == Some((i + 1) as i32),
            None => next is None,
        },
{
    match x {
        None => None,
        Some(i) => Some(i + 1),
    }
}

/// What a player does after a roll of the dice.
#[derive(Debug, Clone, Copy, PartialEq, Eq)]
pub enum Turn {
    AddFancyHat,
    RemoveFancyHat,
    Reroll,
}

/// The turn that a roll asks for: a 3 wins a fancy hat, a 7 loses it, and
/// whatever else comes up is rolled again.
pub open spec fn turn_for(dice_roll: i32) -> Turn {
    if dice_roll == 3 {
        Turn::AddFancyHat
    } else if dice_roll == 7 {
        Turn::RemoveFancyHat
    } else {
        Turn::Reroll
    }
}

/// The player gets a fancy hat. The game keeps no record of hats.
pub fn add_fancy_hat() {
}

/// The player loses the fancy hat.
pub fn remove_fancy_hat() {
}

/// The player rolls again.
pub fn reroll() {
}

/// Plays the turn that `dice_roll` asks for, and says which it was.
pub fn play(dice_roll: i32) -> (turn: Turn)
    ensures
        turn == turn_for(dice_roll),
{
    match dice_roll {
        3 => {
            add_fancy_hat();
            Turn::AddFancyHat
        },
        7 => {
            remove_fancy_hat();
            Turn::RemoveFancyHat
        },
        _ => {
            reroll();
            Turn::Reroll
        },
    }
}

/// A traffic light.
#[derive(Debug, Clone, Copy, PartialEq, Eq)]
pub enum TrafficLight {
    Red,
    Yellow,
    Green,
}

/// How long a light stays on, in seconds.
pub open spec fn duration(light: TrafficLight) -> u8 {
    match light {
        TrafficLight::Red => 60,
        TrafficLight::Yellow => 3,
        TrafficLight::Green => 45,
    }
}

/// How long `t1` stays on, in seconds.
pub fn get_duration(t1: TrafficLight) -> (seconds: u8)
    ensures
        seconds == duration(t1),
{
    match t1 {
        TrafficLight::Red => 60,
        TrafficLight::Yellow => 3,
        TrafficLight::Green => 45,
    }
}

} // verus!
