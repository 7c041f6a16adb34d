//! The record of the smallest guest, and what it does with one.

use vstd::prelude::*;

verus! {

/// A user, as the guest receives and returns it.
pub struct UserData {
    pub first_name: String,
    pub last_name: String,
    pub age: u32,
    pub grades: Vec<u32>,
}

/// The user that takes the place of any other.
pub fn change_user(user1: UserData) -> (user: UserData)
    ensures
        user.first_name@ == "Larry"@,
        user.last_name@ == "Page"@,
        user.age == 67,
        user.grades@ == seq![15u32, 10u32, 20u32],
{
    let mut grades: Vec<u32> = Vec::new();
    grades.push(15);
    grades.push(10);
    grades.push(20);
    UserData {
        first_name: "Larry".to_string(),
        last_name: "Page".to_string(),
        age: 67,
        grades,
    }
}

/// The full name of a user: first name, a space, last name.
pub fn get_name(user1: UserData) -> (name: String)
    ensures
        name@ == user1.first_name@ + " "@ + user1.last_name@,
{
    let mut name = user1.first_name.clone();
    name.append(" ");
    name.append(user1.last_name.as_str());
    name
}

} // verus!
