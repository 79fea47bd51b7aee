use rust_learn::enums::{
    add_fancy_hat, get_duration, play, plus_one, remark, remove_fancy_hat, reroll, state_name,
    value_in_cents, Coin, TrafficLight, Turn, UsState,
};

#[test]
fn each_coin_has_its_value() {
    assert_eq!(value_in_cents(Coin::Penny), 1);
    assert_eq!(value_in_cents(Coin::Nickel), 5);
    assert_eq!(value_in_cents(Coin::Dime), 10);
    assert_eq!(value_in_cents(Coin::Quarter(UsState::Alabama)), 25);
    assert_eq!(value_in_cents(Coin::Quarter(UsState::Alaska)), 25);
}

#[test]
fn pennies_and_quarters_get_a_remark() {
    assert_eq!(remark(Coin::Penny), Some("Lucky penny!".to_string()));
    assert_eq!(
        remark(Coin::Quarter(UsState::Alaska)),
        Some("State quarter from Alaska!".to_string())
    );
    assert_eq!(
        remark(Coin::Quarter(UsState::Alabama)),
        Some("State quarter from Alabama!".to_string())
    );
    assert_eq!(remark(Coin::Nickel), None);
    assert_eq!(remark(Coin::Dime), None);
}

#[test]
fn state_names_are_as_the_debug_form_gives_them() {
    assert_eq!(state_name(UsState::Alabama), format!("{:?}", UsState::Alabama));
    assert_eq!(state_name(UsState::Alaska), format!("{:?}", UsState::Alaska));
}

#[test]
fn plus_one_adds_one_to_a_number_and_leaves_none() {
    assert_eq!(plus_one(Some(5)), Some(6));
    assert_eq!(plus_one(None), None);
    assert_eq!(plus_one(Some(-1)), Some(0));
    assert_eq!(plus_one(Some(i32::MIN)), Some(i32::MIN + 1));
    assert_eq!(plus_one(Some(i32::MAX - 1)), Some(i32::MAX));
}

#[test]
fn each_light_has_its_duration() {
    assert_eq!(get_duration(TrafficLight::Red), 60);
    assert_eq!(get_duration(TrafficLight::Yellow), 3);
    assert_eq!(get_duration(TrafficLight::Green), 45);
}

#[test]
fn a_roll_decides_the_turn() {
    assert_eq!(play(3), Turn::AddFancyHat);
    assert_eq!(play(7), Turn::RemoveFancyHat);
    assert_eq!(play(9), Turn::Reroll);
    assert_eq!(play(0), Turn::Reroll);
    assert_eq!(play(-3), Turn::Reroll);
}

#[test]
fn the_turns_themselves_do_nothing() {
    add_fancy_hat();
    remove_fancy_hat();
    reroll();
}
