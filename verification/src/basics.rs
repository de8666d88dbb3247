//! Plain helpers over owned and borrowed values.

use vstd::prelude::*;
use vstd::string::StringExecFns;

verus! {

/// A one-field record used by the destructuring helpers.
pub struct Struct {
    /// The held value.
    pub e: i32,
}

/// A binding that is deliberately never read.
pub fn variable_unused_warn() {
    let _x: i32 = 5;
}

/// Destructure a tuple, an array and a record into individual bindings.
pub fn variable_destruction_assign() {
    let (a, b): (i32, i32) = (1, 2);
    let arr: [i32; 5] = [1, 2, 3, 4, 5];
    let c = arr[0];
    let d = arr[3];
    let e = Struct { e: 5 }.e;
    assert(a == 1 && b == 2 && c == 1 && d == 4 && e == 5);
}

/// Shift both inputs before summing them.
pub fn add_with_extra(x: i32, y: i32) -> (r: i32)
    requires
        x + 1 <= i32::MAX,
        y + 5 <= i32::MAX,
        i32::MIN <= x + y + 6 <= i32::MAX,
    ensures
        r == x + y + 6,
{
    let x = x + 1;
    let y = y + 5;
    x + y
}

/// Plain addition.
pub fn fu_add(i: i32, j: i32) -> (r: i32)
    requires
        i32::MIN <= i + j <= i32::MAX,
    ensures
        r == i + j,
{
    i + j
}

/// Empty the text behind the mutable borrow.
pub fn fn_clear(text: &mut String)
    ensures
        final(text)@ == Seq::<char>::empty(),
{
    *text = String::new();
}

fn takes_ownership(some_string: String) {
}

fn makes_copy(some_int: i32) {
}

/// Hand an owned value away and a copied one along.
pub fn pass_return() {
    let s = "value".to_owned();
    takes_ownership(s);

    let x: i32 = 5;
    makes_copy(x);
}

/// A reference reads the same value its referent holds.
pub fn quote() {
    let x: i32 = 5;
    let y = &x;

    assert(5 == x);
    assert(5 == *y);
}

/// The length of the borrowed text, in bytes of its encoding.
pub fn calculate_length(s: &String) -> (r: usize)
    ensures
        r == vstd::utf8::encode_utf8(s@).len(),
{
    s.as_str().as_bytes().len()
}

/// Append one character to the text behind the mutable borrow.
pub fn change_borrow_value(some_string: &mut String)
    ensures
        final(some_string)@ == old(some_string)@ + "a"@,
{
    some_string.append("a");
}

/// Two borrows constrained to one lifetime, and nothing else.
pub fn useless<'a>(first: &'a i32, second: &'a i32) {
}

/// The first of the two texts, whatever the second.
pub fn longest<'a>(x: &'a str, _y: &str) -> (r: &'a str)
    ensures
        r@ == x@,
{
    x
}

} // verus!
