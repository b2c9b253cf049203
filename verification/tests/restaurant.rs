use book_exercises::restaurant::back_of_house::{Appetizer, Breakfast};
use book_exercises::restaurant::customer::eat_at_restaruant;
use book_exercises::restaurant::front_of_house::hosting::add_to_waitlist;
use book_exercises::restaurant::{
    eat_at_restaurant, eat_at_restaurant_2, eat_at_restaurant_3, eat_at_restaurant_4,
};

#[test]
fn summer_breakfast_comes_with_peaches() {
    let meal = Breakfast::summer("Rye");
    assert_eq!(meal.toast, "Rye");
    assert_eq!(meal.toast(), "Rye");
    assert_eq!(meal.seasonal_fruit(), "peaches");
}

#[test]
fn the_toast_can_be_changed() {
    let mut meal = Breakfast::summer("Rye");
    meal.toast = String::from("Wheat");
    assert_eq!(meal.toast(), "Wheat");
    meal.change_toast("White");
    assert_eq!(meal.toast, "White");
    assert_eq!(meal.seasonal_fruit(), "peaches");
}

#[test]
fn the_second_meal_is_wheat_toast() {
    let meal = eat_at_restaurant_2();
    assert_eq!(meal.toast, "Wheat");
    assert_eq!(meal.seasonal_fruit(), "peaches");
}

#[test]
fn the_third_meal_orders_both_appetizers() {
    assert_eq!(eat_at_restaurant_3(), (Appetizer::Soup, Appetizer::Salad));
}

#[test]
fn the_house_runs() {
    add_to_waitlist();
    eat_at_restaurant();
    eat_at_restaurant_4();
    eat_at_restaruant();
}
