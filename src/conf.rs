//! The service configuration: repository root and accepted credentials.

use vstd::prelude::*;

verus! {

/// A username and password, compared by exact equality.
#[derive(Debug, Clone)]
pub struct User {
    pub user: String,
    pub password: String,
}

/// What the service is started with; it does not change afterwards.
#[derive(Debug, Clone)]
pub struct Conf {
    pub repo_path: String,
    pub users: Vec<User>,
}

/// Whether `users` holds an entry equal to the pair `(user, password)`.
pub open spec fn accepts(users: Seq<User>, user: Seq<char>, password: Seq<char>) -> bool {
    exists|i: int| 0 <= i < users.len() && (#[trigger] users[i]).user@ == user && users[i].password@ == password
}

} // verus!
