//! The wording of log messages.

use vstd::prelude::*;

verus! {

/// The character that stands for the digit `d`.
pub open spec fn digit_char(d: int) -> char {
    if d == 0 {
        '0'
    } else if d == 1 {
        '1'
    } else if d == 2 {
        '2'
    } else if d == 3 {
        '3'
    } else if d == 4 {
        '4'
    } else if d == 5 {
        '5'
    } else if d == 6 {
        '6'
    } else if d == 7 {
        '7'
    } else if d == 8 {
        '8'
    } else {
        '9'
    }
}

/// Decimal digits of a natural number, most significant first.
pub open spec fn natural_text(n: nat) -> Seq<char>
    decreases n,
{
    if n < 10 {
        seq![digit_char(n as int)]
    } else {
        natural_text(n / 10).push(digit_char((n % 10) as int))
    }
}

/// Decimal text of an integer, with a leading minus sign when negative.
pub open spec fn decimal_text(n: int) -> Seq<char> {
    if n < 0 {
        seq!['-'] + natural_text((-n) as nat)
    } else {
        natural_text(n as nat)
    }
}

/// Calls `String::push_str`, which appends `tail` to the end of `text`.
#[verifier::external_body]
pub(crate) fn append(text: &mut String, tail: &str)
    ensures
        final(text)@ == old(text)@ + tail@,
{
    text.push_str(tail);
}

/// Calls `ToString::to_string` on an `i32`, whose `Display` writes the number
/// in decimal, with a minus sign in front of a negative one.
#[verifier::external_body]
pub(crate) fn decimal(n: i32) -> (s: String)
    ensures
        s@ == decimal_text(n as int),
{
    n.to_string()
}

pub open spec fn unable_text(attacker: Seq<char>, target: Seq<char>) -> Seq<char> {
    attacker + " is unable to hurt "@ + target + "."@
}

pub open spec fn damage_text(attacker: Seq<char>, amount: int, target: Seq<char>) -> Seq<char> {
    attacker + " deals "@ + decimal_text(amount) + " hp damage to "@ + target + "."@
}

pub open spec fn death_text(victim: Seq<char>) -> Seq<char> {
    victim + " is dead!"@
}

pub open spec fn player_death_text() -> Seq<char> {
    "You are dead!"@
}

pub open spec fn pickup_text(item: Seq<char>) -> Seq<char> {
    "You pick up the "@ + item + "."@
}

pub open spec fn nothing_here_text() -> Seq<char> {
    "There is nothing here to pick up."@
}

pub fn unable_message(attacker: &str, target: &str) -> (s: String)
    ensures
        s@ == unable_text(attacker@, target@),
{
    let mut s = String::new();
    append(&mut s, attacker);
    append(&mut s, " is unable to hurt ");
    append(&mut s, target);
    append(&mut s, ".");
    s
}

pub fn damage_message(attacker: &str, amount: i32, target: &str) -> (s: String)
    ensures
        s@ == damage_text(attacker@, amount as int, target@),
{
    let number = decimal(amount);
    let mut s = String::new();
    append(&mut s, attacker);
    append(&mut s, " deals ");
    append(&mut s, number.as_str());
    append(&mut s, " hp damage to ");
    append(&mut s, target);
    append(&mut s, ".");
    s
}

pub fn death_message(victim: &str) -> (s: String)
    ensures
        s@ == death_text(victim@),
{
    let mut s = String::new();
    append(&mut s, victim);
    append(&mut s, " is dead!");
    s
}

pub fn player_death_message() -> (s: String)
    ensures
        s@ == player_death_text(),
{
    "You are dead!".to_string()
}

pub fn pickup_message(item: &str) -> (s: String)
    ensures
        s@ == pickup_text(item@),
{
    let mut s = String::new();
    append(&mut s, "You pick up the ");
    append(&mut s, item);
    append(&mut s, ".");
    s
}

pub fn nothing_here_message() -> (s: String)
    ensures
        s@ == nothing_here_text(),
{
    "There is nothing here to pick up.".to_string()
}

} // verus!
