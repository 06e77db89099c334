//! The one entity of the service: a user, and what a client supplies for one.

use vstd::prelude::*;

verus! {

/// What a client supplies when it creates or updates a user.
#[derive(Clone, Debug, PartialEq, Eq)]
pub struct UserFields {
    pub name: String,
    pub email: String,
}

/// The mathematical content of a [`UserFields`].
pub struct FieldsView {
    pub name: Seq<char>,
    pub email: Seq<char>,
}

impl FieldsView {
    /// Both texts are non-empty.
    pub open spec fn valid(self) -> bool {
        self.name.len() > 0 && self.email.len() > 0
    }

    /// The user that these fields make under the id `id`.
    pub open spec fn with_id(self, id: int) -> UserView {
        UserView { id, name: self.name, email: self.email }
    }
}

impl View for UserFields {
    type V = FieldsView;

    open spec fn view(&self) -> FieldsView {
        FieldsView { name: self.name@, email: self.email@ }
    }
}

impl UserFields {
    /// Whether both texts are non-empty.
    pub fn is_valid(&self) -> (r: bool)
        ensures
            r == self@.valid(),
    {
        !self.name.as_str().is_empty() && !self.email.as_str().is_empty()
    }

    /// A copy with the same content.
    pub fn duplicate(&self) -> (r: UserFields)
        ensures
            r@ == self@,
    {
        UserFields { name: self.name.clone(), email: self.email.clone() }
    }

    /// The user that these fields make under the id `id`.
    pub fn with_id(self, id: i32) -> (r: User)
        ensures
            r@ == self@.with_id(id as int),
    {
        User { id, name: self.name, email: self.email }
    }
}

/// A stored user. The store assigns `id` when the user is created and never
/// changes it afterwards.
#[derive(Clone, Debug, PartialEq, Eq)]
pub struct User {
    pub id: i32,
    pub name: String,
    pub email: String,
}

/// The mathematical content of a [`User`].
pub struct UserView {
    pub id: int,
    pub name: Seq<char>,
    pub email: Seq<char>,
}

impl UserView {
    /// The two texts of the user, without its id.
    pub open spec fn fields(self) -> FieldsView {
        FieldsView { name: self.name, email: self.email }
    }
}

impl View for User {
    type V = UserView;

    open spec fn view(&self) -> UserView {
        UserView { id: self.id as int, name: self.name@, email: self.email@ }
    }
}

impl User {
    /// A copy with the same content.
    pub fn duplicate(&self) -> (r: User)
        ensures
            r@ == self@,
    {
        User { id: self.id, name: self.name.clone(), email: self.email.clone() }
    }
}

/// The contents of a list of users, in order.
pub open spec fn rows_of(users: Seq<User>) -> Seq<UserView> {
    users.map_values(|u: User| u@)
}

/// A copy of a list of users with the same contents in the same order.
pub fn duplicate_all(users: &Vec<User>) -> (r: Vec<User>)
    ensures
        rows_of(r@) == rows_of(users@),
{
    let mut out: Vec<User> = Vec::new();
    let mut i: usize = 0;
    while i < users.len()
        invariant
            i <= users.len(),
            out.len() == i,
            forall|k: int| 0 <= k < i ==> out@[k]@ == users@[k]@,
        decreases users.len() - i,
    {
        out.push(users[i].duplicate());
        i += 1;
    }
    assert(rows_of(out@) =~= rows_of(users@));
    out
}

} // verus!
