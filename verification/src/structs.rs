//! Records: a user account, a rectangle, a colour.
use crate::numerals::{append_decimal, decimal};
use vstd::prelude::*;
use vstd::string::StringExecFns;

verus! {

/// `true` or `false`, as text.
pub open spec fn bool_text(b: bool) -> Seq<char> {
    if b {
        "true"@
    } else {
        "false"@
    }
}

/// A user account.
#[derive(Debug, Clone, PartialEq, Eq)]
pub struct User {
    pub active: bool,
    pub username: String,
    pub email: String,
    pub sign_in_count: u64,
}

/// The line that describes an account.
pub open spec fn user_description(
    username: Seq<char>,
    email: Seq<char>,
    active: bool,
    sign_in_count: nat,
) -> Seq<char> {
    "User: "@ + username + ", Email: "@ + email + ", Active: "@ + bool_text(active)
        + ", Sign-ins: "@ + decimal(sign_in_count)
}

impl User {
    /// One line with the name, the address, whether the account is active,
    /// and how often the user has signed in.
    pub fn describe(&self) -> (line: String)
        ensures
            line@ == user_description(
                self.username@,
                self.email@,
                self.active,
                self.sign_in_count as nat,
            ),
    {
        let mut line = String::from_str("User: ");
        line.append(self.username.as_str());
        line.append(", Email: ");
        line.append(self.email.as_str());
        line.append(", Active: ");
        if self.active {
            line.append("true");
        } else {
            line.append("false");
        }
        line.append(", Sign-ins: ");
        append_decimal(&mut line, self.sign_in_count);
        line
    }

    /// Counts one more sign-in. The count has room for it.
    pub fn increment_sign_in_count(&mut self)
        requires
            old(self).sign_in_count < u64::MAX,
        ensures
            final(self).sign_in_count == old(self).sign_in_count + 1,
            final(self).active == old(self).active,
            final(self).username == old(self).username,
            final(self).email == old(self).email,
    {
        self.sign_in_count += 1;
    }

    /// A new account: active, and signed in once.
    pub fn new(username: String, email: String) -> (user: User)
        ensures
            user.active,
            user.username == username,
            user.email == email,
            user.sign_in_count == 1,
    {
        User { active: true, username, email, sign_in_count: 1 }
    }
}

/// A colour, by its red, green and blue parts.
#[derive(Debug, Clone, Copy, PartialEq, Eq)]
pub struct Color(pub u8, pub u8, pub u8);

/// A rectangle.
#[derive(Debug, Clone, Copy, PartialEq, Eq)]
pub struct Rectangle {
    pub width: u32,
    pub height: u32,
}

/// How a rectangle is written out.
pub open spec fn rectangle_text(width: nat, height: nat) -> Seq<char> {
    "Rectangle (width: "@ + decimal(width) + ", height: "@ + decimal(height) + ")"@
}

impl Rectangle {
    /// The rectangle as text, with its width and its height.
    pub fn to_string(&self) -> (text: String)
        ensures
            text@ == rectangle_text(self.width as nat, self.height as nat),
    {
        let mut text = String::from_str("Rectangle (width: ");
        append_decimal(&mut text, self.width as u64);
        text.append(", height: ");
        append_decimal(&mut text, self.height as u64);
        text.append(")");
        text
    }

    /// The area, which must fit in 32 bits.
    pub fn area(&self) -> (area: u32)
        requires
            self.width * self.height <= u32::MAX,
        ensures
            area == self.width * self.height,
    {
        self.width * self.height
    }

    /// Whether `r1` fits into this rectangle, side by side as they are.
    pub fn can_hold(&self, r1: Rectangle) -> (fits: bool)
        ensures
            fits == (self.height >= r1.height && self.width >= r1.width),
    {
        self.height >= r1.height && self.width >= r1.width
    }

    /// The square with sides of length `size`.
    pub fn square(size: u32) -> (square: Rectangle)
        ensures
            square.width == size,
            square.height == size,
    {
        Rectangle { width: (size), height: (size) }
    }
}

} // verus!
