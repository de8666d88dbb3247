use polycore::basics::{
    add_with_extra, calculate_length, change_borrow_value, fn_clear, fu_add, longest, pass_return,
    quote, useless, variable_destruction_assign, variable_unused_warn,
};
use polycore::values::{build_user, plus_one, value_in_cents, Coin, UsState};

#[test]
fn small_binding_helpers_run() {
    variable_unused_warn();
    variable_destruction_assign();
    pass_return();
    quote();
    useless(&10, &10);
}

#[test]
fn add_with_extra_shifts_by_six() {
    assert_eq!(add_with_extra(2, 4), 12);
}

#[test]
fn fu_add_sums() {
    assert_eq!(fu_add(1, 2), 3);
}

#[test]
fn fn_clear_empties_the_text() {
    let mut text = "full".to_string();
    fn_clear(&mut text);
    assert_eq!(text, "");
}

#[test]
fn borrowed_length_counts_bytes() {
    let s = "value".to_string();
    assert_eq!(calculate_length(&s), 5);
    let wide = "\u{211D}".to_string();
    assert_eq!(calculate_length(&wide), 3);
}

#[test]
fn owned_length_hands_the_text_back() {
    let (s, len) = polycore::values::calculate_length("value".to_string());
    assert_eq!(s, "value");
    assert_eq!(len, 5);
    let (s, len) = polycore::values::calculate_length("\u{211D}".to_string());
    assert_eq!(s, "\u{211D}");
    assert_eq!(len, 3);
}

#[test]
fn change_borrow_value_appends_one_character() {
    let mut s = "value".to_string();
    change_borrow_value(&mut s);
    assert_eq!(s, "valuea");
}

#[test]
fn longest_keeps_the_first_text() {
    assert_eq!(longest("a", "b "), "a");
    let string1 = String::from("long string is long");
    let result;
    {
        let string2 = String::from("xyz");
        result = longest(string1.as_str(), string2.as_str());
    }
    assert_eq!(result, "long string is long");
}

#[test]
fn coin_values_in_cents() {
    assert_eq!(value_in_cents(Coin::Penny), 1);
    assert_eq!(value_in_cents(Coin::Nickel), 5);
    assert_eq!(value_in_cents(Coin::Dime), 10);
    assert_eq!(value_in_cents(Coin::Quarter(UsState::Alabama)), 25);
}

#[test]
fn plus_one_increments_held_values() {
    assert_eq!(plus_one(Some(5)), Some(6));
    assert_eq!(plus_one(None), None);
}

#[test]
fn build_user_starts_active_with_one_sign_in() {
    let user = build_user("Tik".to_string(), "abc@gmail.com".to_string());
    assert!(user.active);
    assert_eq!(user.username, "Tik");
    assert_eq!(user.email, "abc@gmail.com");
    assert_eq!(user.sign_in_count, 1);
}
