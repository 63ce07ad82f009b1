use vstd::prelude::*;

verus! {

/// An authenticated identity. `name` is the display name that channel and
/// voice membership are keyed by; `password` is never filled in by
/// authentication, which keeps only salted hashes.
#[derive(Debug, Clone)]
pub struct User {
    pub name: String,
    pub password: String,
}

impl User {
    pub fn new(name: String, password: String) -> (r: User)
        ensures
            r.name == name,
            r.password == password,
    {
        User { name, password }
    }
}

} // verus!
