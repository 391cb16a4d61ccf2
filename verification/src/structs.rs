//! Structs with named fields, tuple structs, and building them.

use vstd::prelude::*;

verus! {

/// An account.
#[derive(Debug)]
pub struct User {
    pub username: String,
    pub email: String,
    pub sign_in_count: u64,
    pub active: bool,
}

/// A colour as three channels.
#[derive(Debug)]
pub struct Color(pub i32, pub i32, pub i32);

/// A point in space. It has the shape of a [`Color`] and is still a type of
/// its own.
pub struct Point(pub i32, pub i32, pub i32);

/// Makes the account of a user who has just signed in for the first time:
/// active, with one sign-in.
pub fn build_user(email: String, username: String) -> (user: User)
    ensures
        user.email == email,
        user.username == username,
        user.sign_in_count == 1,
        user.active,
{
    User { email, username, sign_in_count: 1, active: true }
}

/// Works the module's example and returns its three accounts: one written
/// out field by field, whose address is then replaced; one made by
/// [`build_user`]; and one with a name and address of its own that takes
/// the rest from the first.
pub fn run() -> (users: (User, User, User))
    ensures
        users.0.email@ == "anotherone@example.com"@,
        users.0.username@ == "someone123"@,
        users.0.sign_in_count == 1 && users.0.active,
        users.1.email@ == "sometwo@example.com"@,
        users.1.username@ == "sometwo456"@,
        users.1.sign_in_count == 1 && users.1.active,
        users.2.email@ == "somethree@example.com"@,
        users.2.username@ == "somethree789"@,
        users.2.sign_in_count == 1 && users.2.active,
{
    let mut user1 = User {
        email: "someone@example.com".to_owned(),
        username: "someone123".to_owned(),
        active: true,
        sign_in_count: 1,
    };
    user1.email = "anotherone@example.com".to_owned();
    let user2 = build_user("sometwo@example.com".to_owned(), "sometwo456".to_owned());
    let user3 = User {
        email: "somethree@example.com".to_owned(),
        username: "somethree789".to_owned(),
        ..user1
    };
    (user1, user2, user3)
}

} // verus!
