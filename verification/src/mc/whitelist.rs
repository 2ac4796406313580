//! Who may wake the server when its whitelist is on: the whitelisted users and the operators.
use vstd::prelude::*;

use crate::config::string_views;
use crate::text::str_eq;

verus! {

/// The user names on the whitelist and those of the operators.
#[derive(Debug)]
pub struct Whitelist {
    pub whitelist: Vec<String>,
    pub ops: Vec<String>,
}

/// A whitelist entry: the user's name and maybe its UUID.
#[derive(Debug)]
pub struct WhitelistUser {
    pub username: String,
    pub uuid: Option<String>,
}

/// An operator entry.
#[derive(Debug)]
pub struct OpUser {
    pub username: String,
    pub uuid: Option<String>,
    pub level: Option<u32>,
    pub byapsses_player_limit: Option<bool>,
}

/// Whether `name` is on the whitelist or among the operators.
pub open spec fn spec_whitelisted(w: Whitelist, name: Seq<char>) -> bool {
    string_views(w.whitelist@).contains(name) || string_views(w.ops@).contains(name)
}

fn names_contain(names: &Vec<String>, name: &str) -> (res: bool)
    ensures
        res == string_views(names@).contains(name@),
{
    let mut i: usize = 0;
    while i < names.len()
        invariant
            i <= names.len(),
            forall|j: int| 0 <= j < i ==> string_views(names@)[j] != name@,
        decreases names.len() - i,
    {
        if str_eq(names[i].as_str(), name) {
            proof {
                assert(string_views(names@)[i as int] == name@);
            }
            return true;
        }
        i = i + 1;
    }
    false
}

impl Whitelist {
    pub fn new(whitelist: Vec<String>, ops: Vec<String>) -> (res: Whitelist)
        ensures
            res.whitelist == whitelist,
            res.ops == ops,
    {
        Whitelist { whitelist, ops }
    }

    /// The whitelist of the names of the given whitelisted users and operators, in order.
    pub fn from_users(users: Vec<WhitelistUser>, ops: Vec<OpUser>) -> (res: Whitelist)
        ensures
            res.whitelist@.len() == users@.len(),
            forall|i: int| 0 <= i < users@.len() ==> #[trigger] res.whitelist@[i] == users@[i].username,
            res.ops@.len() == ops@.len(),
            forall|i: int| 0 <= i < ops@.len() ==> #[trigger] res.ops@[i] == ops@[i].username,
    {
        let mut whitelist: Vec<String> = Vec::new();
        let mut i: usize = 0;
        while i < users.len()
            invariant
                i <= users.len(),
                whitelist@.len() == i,
                forall|j: int| 0 <= j < i ==> #[trigger] whitelist@[j] == users@[j].username,
            decreases users.len() - i,
        {
            whitelist.push(users[i].username.clone());
            i = i + 1;
        }
        let mut names: Vec<String> = Vec::new();
        let mut k: usize = 0;
        while k < ops.len()
            invariant
                k <= ops.len(),
                names@.len() == k,
                forall|j: int| 0 <= j < k ==> #[trigger] names@[j] == ops@[j].username,
            decreases ops.len() - k,
        {
            names.push(ops[k].username.clone());
            k = k + 1;
        }
        Whitelist { whitelist, ops: names }
    }

    /// Whether `username` is whitelisted or an operator.
    pub fn is_whitelisted(&self, username: &str) -> (res: bool)
        ensures
            res == spec_whitelisted(*self, username@),
    {
        names_contain(&self.whitelist, username) || names_contain(&self.ops, username)
    }
}

} // verus!
