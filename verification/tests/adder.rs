use book_exercises::adder::{add_two, greeting, internal_adder, Guess, GuessError, Rectangle};

#[test]
fn exploration() {
    let result = book_exercises::adder::add(2, 2);
    assert_eq!(result, 4);
}

#[test]
fn larger_can_hold_smaller() {
    let larger = Rectangle { width: 8, height: 7 };
    let smaller = Rectangle { width: 5, height: 1 };

    assert!(larger.can_hold(&smaller));
}

#[test]
fn smaller_cannot_hold_larger() {
    let larger = Rectangle { width: 8, height: 7 };
    let smaller = Rectangle { width: 5, height: 1 };

    assert!(!smaller.can_hold(&larger));
}

#[test]
fn it_adds_two() {
    assert_eq!(4, add_two(2));
}

#[test]
fn it_doesnt_add_two() {
    assert_ne!(5, add_two(2));
}

#[test]
fn it_works() -> Result<(), String> {
    if 2 + 2 == 4 {
        Ok(())
    } else {
        Err(String::from("two plus two does not equal four"))
    }
}

#[test]
fn internal() {
    assert_eq!(4, internal_adder(2, 2));
}

#[test]
fn add_reaches_the_largest_size() {
    assert_eq!(book_exercises::adder::add(usize::MAX - 1, 1), usize::MAX);
    assert_eq!(book_exercises::adder::add(0, 0), 0);
}

#[test]
fn internal_adder_takes_negative_numbers() {
    assert_eq!(internal_adder(-5, 3), -2);
    assert_eq!(internal_adder(i32::MAX, i32::MIN), -1);
    assert_eq!(add_two(i32::MAX - 2), i32::MAX);
}

#[test]
fn a_rectangle_does_not_hold_itself_or_an_equal_side() {
    let a = Rectangle { width: 8, height: 7 };
    assert!(!a.can_hold(&a));
    assert!(!a.can_hold(&Rectangle { width: 8, height: 1 }));
    assert!(!a.can_hold(&Rectangle { width: 1, height: 7 }));
}

#[test]
fn area_and_square() {
    assert_eq!(Rectangle { width: 30, height: 50 }.area(), 1500);
    let square = Rectangle::square(3);
    assert_eq!(square, Rectangle { width: 3, height: 3 });
    assert_eq!(square.area(), 9);
    assert_eq!(Rectangle { width: 65535, height: 65537 }.area(), u32::MAX);
}

#[test]
fn greeting_is_the_same_for_every_name() {
    assert_eq!(greeting("Carol"), "Hello!");
    assert_eq!(greeting(""), "Hello!");
}

#[test]
fn guess_keeps_its_value() {
    assert_eq!(Guess::new(1).value(), 1);
    assert_eq!(Guess::new(100).value(), 100);
    assert_eq!(Guess::new(42).value(), 42);
}

#[test]
fn try_new_says_why_a_number_is_no_guess() {
    assert_eq!(Guess::try_new(200).err(), Some(GuessError::TooLarge));
    assert_eq!(Guess::try_new(101).err(), Some(GuessError::TooLarge));
    assert_eq!(Guess::try_new(0).err(), Some(GuessError::TooSmall));
    assert_eq!(Guess::try_new(-7).err(), Some(GuessError::TooSmall));
    assert_eq!(Guess::try_new(1).ok().map(|guess| guess.value()), Some(1));
    assert_eq!(Guess::try_new(100).ok().map(|guess| guess.value()), Some(100));
}
