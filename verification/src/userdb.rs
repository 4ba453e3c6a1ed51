//! From user ids to user names: the host's user database, and a table held in
//! memory that stands in for it.

use std::collections::HashMap;
use vstd::prelude::*;
use vstd::std_specs::hash::group_hash_axioms;

verus! {

broadcast use group_hash_axioms;

/// What a search for a user gave, as a mathematical value.
pub open spec fn name_view(name: Option<String>) -> Option<Seq<char>> {
    match name {
        Some(s) => Some(s@),
        None => None,
    }
}

/// `users::get_user_by_uid`, with the name that it found turned into a
/// `String`. Taken on trust, and nothing is claimed of the result: it depends
/// on the host's user database at the moment of the call. `None` stands for a
/// user that was not found and for a name that is not valid Unicode.
#[verifier::external_body]
pub(crate) fn system_username(uid: u32) -> (name: Option<String>) {
    match users::get_user_by_uid(uid) {
        Some(user) => user.name().to_os_string().into_string().ok(),
        None => None,
    }
}

/// A table of user names by user id.
pub struct UserTable {
    names: HashMap<u32, String>,
}

impl View for UserTable {
    type V = Map<u32, Seq<char>>;

    closed spec fn view(&self) -> Map<u32, Seq<char>> {
        self.names@.map_values(|s: String| s@)
    }
}

impl UserTable {
    /// A table that knows no user.
    pub fn new() -> (table: UserTable)
        ensures
            table@ == Map::<u32, Seq<char>>::empty(),
    {
        let table = UserTable { names: HashMap::new() };
        assert(table@ =~= Map::<u32, Seq<char>>::empty());
        table
    }

    /// Makes `name` the name of user `uid`, in place of any earlier one.
    pub fn insert(&mut self, uid: u32, name: String)
        ensures
            final(self)@ == old(self)@.insert(uid, name@),
    {
        self.names.insert(uid, name);
        assert(self@ =~= old(self)@.insert(uid, name@));
    }

    /// The name of user `uid`, if the table has one.
    pub fn lookup(&self, uid: u32) -> (name: Option<String>)
        ensures
            name_view(name) == lookup_spec(self@, uid),
    {
        match self.names.get(&uid) {
            Some(s) => Some(s.clone()),
            None => None,
        }
    }
}

/// The name that a table gives for a user id, if any.
pub open spec fn lookup_spec(names: Map<u32, Seq<char>>, uid: u32) -> Option<Seq<char>> {
    if names.contains_key(uid) {
        Some(names[uid])
    } else {
        None
    }
}

} // verus!
