use guest_cache::guest::{change_user, get_name, UserData};

fn ali() -> UserData {
    UserData {
        first_name: String::from("Ali"),
        last_name: String::from("Toby"),
        age: 24,
        grades: vec![12, 13, 15],
    }
}

#[test]
fn change_user_returns_the_fixed_user() {
    let user = change_user(ali());
    assert_eq!(user.first_name, "Larry");
    assert_eq!(user.last_name, "Page");
    assert_eq!(user.age, 67);
    assert_eq!(user.grades, vec![15, 10, 20]);
}

#[test]
fn get_name_joins_first_and_last_name() {
    assert_eq!(get_name(ali()), "Ali Toby");
    assert_eq!(get_name(change_user(ali())), "Larry Page");
}
