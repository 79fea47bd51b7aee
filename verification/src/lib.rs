//! Small verified building blocks, and a company roster built from them.
//!
//! The heart of the crate is the roster of a company: `roster` keeps the
//! employees of each department, `command` reads the commands of its user,
//! `session` carries them out, and `display` says what the user is shown.
//! `history` states what holds of a roster whatever was added to it, and in
//! whatever order. `text`, `sorting` and `numerals` are what these rest on.
//!
//! The other modules hold short pieces on one subject each: loops, ownership
//! and borrowing, records and enumerations, lists of numbers, results,
//! generic functions, traits, and borrowed text.
pub mod back_of_house;
pub mod borrowing;
pub mod command;
pub mod display;
pub mod enums;
pub mod error_handling;
pub mod flow_control;
pub mod generics;
pub mod history;
pub mod lifetimes;
pub mod numerals;
pub mod ownership;
pub mod roster;
pub mod session;
pub mod sorting;
pub mod structs;
pub mod text;
pub mod traits;
pub mod vectors;
