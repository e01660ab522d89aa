//! The people who pay and share expenses.

use vstd::prelude::*;

verus! {

/// The id of a [User].
pub type UserID = i32;

/// A person using this system, who pays and shares the expenses of a tab.
#[derive(Debug)]
pub struct User {
    /// The id of this user.
    pub id: UserID,
    /// The name of this user.
    pub name: String,
    /// The email address of this user.
    pub email: Option<String>,
}

/// `b` holds the same id, name and email as `a`.
pub open spec fn same_user(a: User, b: User) -> bool {
    &&& a.id == b.id
    &&& a.name@ == b.name@
    &&& a.email is Some <==> b.email is Some
    &&& a.email is Some ==> a.email->0@ == b.email->0@
}

impl User {
    /// A user with this id, name and email.
    pub fn new(id: UserID, name: &str, email: Option<&str>) -> (u: User)
        ensures
            u.id == id,
            u.name@ == name@,
            email is None ==> u.email is None,
            email matches Some(e) ==> (u.email matches Some(m) && m@ == e@),
    {
        let email = match email {
            Some(e) => Some(e.to_owned()),
            None => None,
        };
        User { id, name: name.to_owned(), email }
    }
}

impl Clone for User {
    fn clone(&self) -> (r: Self)
        ensures
            same_user(*self, r),
    {
        let email = match &self.email {
            Some(e) => Some(e.clone()),
            None => None,
        };
        User { id: self.id, name: self.name.clone(), email }
    }
}

/// Users are equal when their ids are.
impl PartialEq for User {
    fn eq(&self, other: &User) -> (b: bool) {
        self.id == other.id
    }
}

impl vstd::std_specs::cmp::PartialEqSpecImpl for User {
    open spec fn obeys_eq_spec() -> bool {
        true
    }

    open spec fn eq_spec(&self, other: &User) -> bool {
        self.id == other.id
    }
}

} // verus!
