//! The stored record and its creation payload.
use vstd::prelude::*;

verus! {

/// A stored record: the store assigns `id` and `created_at`.
pub struct Rustacean {
    pub id: i32,
    pub name: String,
    pub email: String,
    pub created_at: String,
}

/// The mathematical content of a record.
pub struct RustaceanView {
    pub id: int,
    pub name: Seq<char>,
    pub email: Seq<char>,
    pub created_at: Seq<char>,
}

impl View for Rustacean {
    type V = RustaceanView;

    open spec fn view(&self) -> RustaceanView {
        RustaceanView {
            id: self.id as int,
            name: self.name@,
            email: self.email@,
            created_at: self.created_at@,
        }
    }
}

impl Rustacean {
    /// A field-by-field copy of the record.
    pub fn duplicate(&self) -> (r: Rustacean)
        ensures
            r@ == self@,
    {
        Rustacean {
            id: self.id,
            name: self.name.clone(),
            email: self.email.clone(),
            created_at: self.created_at.clone(),
        }
    }
}

/// The creation payload: it has no `id` and no `created_at`, so a client
/// cannot choose them.
pub struct NewRustacean {
    pub name: String,
    pub email: String,
}

} // verus!
