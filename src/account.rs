//! The durable account record.
use vstd::prelude::*;

verus! {

/// An account as stored: identifying email, optional display name and,
/// when it is being created, the plaintext password.
#[derive(Debug)]
pub struct User {
    pub id: u64,
    pub email: String,
    pub name: Option<String>,
    pub password: Option<String>,
}

pub open spec fn opt_view(o: Option<String>) -> Option<Seq<char>> {
    match o {
        Some(s) => Some(s@),
        None => None,
    }
}

fn opt_eq(a: &Option<String>, b: &Option<String>) -> (r: bool)
    ensures
        r == (opt_view(*a) == opt_view(*b)),
{
    match (a, b) {
        (Some(x), Some(y)) => x.eq(y),
        (None, None) => true,
        _ => false,
    }
}

impl User {
    /// Two accounts are the same record when every field agrees.
    pub open spec fn same(&self, o: &User) -> bool {
        &&& self.id == o.id
        &&& self.email@ == o.email@
        &&& opt_view(self.name) == opt_view(o.name)
        &&& opt_view(self.password) == opt_view(o.password)
    }

    /// The account read back from a stored row; the password never leaves the store.
    pub fn from_row(id: u64, email: String, name: Option<String>) -> (r: User)
        ensures
            r.id == id,
            r.email@ == email@,
            opt_view(r.name) == opt_view(name),
            r.password is None,
    {
        User { id, email, name, password: None }
    }
}

impl PartialEq for User {
    fn eq(&self, o: &User) -> (r: bool) {
        self.id == o.id && self.email.eq(&o.email) && opt_eq(&self.name, &o.name) && opt_eq(
            &self.password,
            &o.password,
        )
    }
}

impl vstd::std_specs::cmp::PartialEqSpecImpl for User {
    open spec fn obeys_eq_spec() -> bool {
        true
    }

    open spec fn eq_spec(&self, o: &User) -> bool {
        self.same(o)
    }
}

impl Eq for User {

}

} // verus!
