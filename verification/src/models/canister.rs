//! The canisters of a build, by name.

use crate::principal::Principal;
use crate::text::str_eq;
use vstd::prelude::*;

verus! {

/// A canister of the pool: its name and the id it was given.
#[derive(Clone, Debug, PartialEq, Eq)]
pub struct Canister {
    pub name: String,
    pub canister_id: Principal,
}

impl Canister {
    /// The id of the canister.
    pub fn canister_id(&self) -> (r: Principal)
        ensures
            r@ == self.canister_id@,
    {
        self.canister_id.clone()
    }

    /// The name of the canister.
    pub fn get_name(&self) -> (r: &str)
        ensures
            r@ == self.name@,
    {
        self.name.as_str()
    }
}

/// The canisters that take part in a build, in the order of the build.
#[derive(Clone, Debug, PartialEq, Eq)]
pub struct CanisterPool {
    pub canisters: Vec<Canister>,
}

/// The position of the first canister called `name`, from `from` on.
pub open spec fn first_with_name(canisters: Seq<Canister>, name: Seq<char>, from: int) -> Option<int>
    decreases canisters.len() - from,
{
    if from < 0 || from >= canisters.len() {
        None
    } else if canisters[from].name@ == name {
        Some(from)
    } else {
        first_with_name(canisters, name, from + 1)
    }
}

/// The id of the first canister called `name`.
pub open spec fn id_of_name(canisters: Seq<Canister>, name: Seq<char>) -> Option<Seq<char>> {
    match first_with_name(canisters, name, 0) {
        Some(i) => Some(canisters[i].canister_id@),
        None => None,
    }
}

impl CanisterPool {
    /// The first canister of the pool called `name`.
    pub fn get_first_canister_with_name(&self, name: &str) -> (r: Option<&Canister>)
        ensures
            match r {
                Some(canister) => first_with_name(self.canisters@, name@, 0) matches Some(i)
                    && self.canisters@[i] == *canister,
                None => first_with_name(self.canisters@, name@, 0) is None,
            },
    {
        let mut i: usize = 0;
        while i < self.canisters.len()
            invariant
                0 <= i <= self.canisters.len(),
                first_with_name(self.canisters@, name@, 0) == first_with_name(
                    self.canisters@,
                    name@,
                    i as int,
                ),
            decreases self.canisters.len() - i,
        {
            if str_eq(self.canisters[i].name.as_str(), name) {
                return Some(&self.canisters[i]);
            }
            i += 1;
        }
        None
    }
}

} // verus!
