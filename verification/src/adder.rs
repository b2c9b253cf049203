//! Integer helpers, rectangles and validated guesses.

use vstd::prelude::*;
use vstd::string::StringExecFns;

verus! {

/// Sum of two sizes.
pub fn add(left: usize, right: usize) -> (sum: usize)
    requires
        left + right <= usize::MAX,
    ensures
        sum == left + right,
{
    left + right
}

/// `a` and two more.
pub fn add_two(a: i32) -> (sum: i32)
    requires
        a + 2 <= i32::MAX,
    ensures
        sum == a + 2,
{
    internal_adder(a, 2)
}

/// Sum of two integers.
pub fn internal_adder(a: i32, b: i32) -> (sum: i32)
    requires
        i32::MIN <= a + b <= i32::MAX,
    ensures
        sum == a + b,
{
    a + b
}

/// A rectangle with sides along the axes.
#[derive(Clone, Copy, Debug, PartialEq, Eq, Structural)]
pub struct Rectangle {
    pub width: u32,
    pub height: u32,
}

impl Rectangle {
    /// A rectangle whose sides are all `size` long.
    pub fn square(size: u32) -> (rectangle: Rectangle)
        ensures
            rectangle.width == size,
            rectangle.height == size,
    {
        Rectangle { width: size, height: size }
    }

    /// The area, where a `u32` can hold it.
    pub fn area(&self) -> (area: u32)
        requires
            self.width * self.height <= u32::MAX,
        ensures
            area == self.width * self.height,
    {
        self.width * self.height
    }

    /// Whether `other` fits inside with room to spare on both sides.
    pub fn can_hold(&self, other: &Rectangle) -> (holds: bool)
        ensures
            holds == (self.width > other.width && self.height > other.height),
    {
        self.width > other.width && self.height > other.height
    }
}

/// Holding is strict: nothing holds itself, and what holds a holder holds
/// what that one holds.
pub proof fn lemma_can_hold_is_strict(a: Rectangle, b: Rectangle, c: Rectangle)
    ensures
        !(a.width > a.width && a.height > a.height),
        (a.width > b.width && a.height > b.height) && (b.width > c.width && b.height > c.height)
            ==> (a.width > c.width && a.height > c.height),
{
}

/// The greeting, which is the same for every name.
pub fn greeting(name: &str) -> (text: String)
    ensures
        text@ == "Hello!"@,
{
    String::from_str("Hello!")
}

/// A guess between 1 and 100.
pub struct Guess {
    value: i32,
}

/// Why a number is no guess.
#[derive(Clone, Copy, Debug, PartialEq, Eq, Structural)]
pub enum GuessError {
    /// The number is less than 1.
    TooSmall,
    /// The number is greater than 100.
    TooLarge,
}

impl View for Guess {
    type V = int;

    /// The number guessed.
    closed spec fn view(&self) -> int {
        self.value as int
    }
}

impl Guess {
    #[verifier::type_invariant]
    spec fn in_range(&self) -> bool {
        1 <= self.value <= 100
    }

    /// A guess of `value`, which has to lie between 1 and 100.
    pub fn new(value: i32) -> (guess: Guess)
        requires
            1 <= value <= 100,
        ensures
            guess@ == value,
    {
        Guess { value }
    }

    /// A guess of `value`, or the reason why `value` is none: a number
    /// below 1 is too small, one above 100 too large.
    pub fn try_new(value: i32) -> (guess: Result<Guess, GuessError>)
        ensures
            value < 1 ==> guess == Err::<Guess, GuessError>(GuessError::TooSmall),
            value > 100 ==> guess == Err::<Guess, GuessError>(GuessError::TooLarge),
            1 <= value <= 100 ==> guess is Ok && guess->Ok_0@ == value,
    {
        if value < 1 {
            Err(GuessError::TooSmall)
        } else if value > 100 {
            Err(GuessError::TooLarge)
        } else {
            Ok(Guess::new(value))
        }
    }

    /// The number guessed, which lies between 1 and 100.
    pub fn value(&self) -> (value: i32)
        ensures
            value == self@,
            1 <= value <= 100,
    {
        proof {
            use_type_invariant(self);
        }
        self.value
    }
}

} // verus!
