//! A participant in the compute network and the pledge it has made.

use vstd::prelude::*;

verus! {

/// A registered participant.  `id` is the unique key of the user store;
/// `resources` is the capacity currently pledged (replaced wholesale on
/// update), `rewards` is the credit balance earned by accepted chunk
/// submissions (it only ever grows), and `rate_limit_tokens` is a reserved
/// counter that no operation enforces yet.
#[derive(Debug, PartialEq, Eq)]
pub struct User {
    pub id: String,
    pub resources: u64,
    pub rewards: u64,
    pub rate_limit_tokens: u64,
}

/// The mathematical image of a [`User`]: the id as a character sequence and
/// the three counters as they stand.
#[verifier::ext_equal]
pub struct UserV {
    pub id: Seq<char>,
    pub resources: u64,
    pub rewards: u64,
    pub rate_limit_tokens: u64,
}

impl crate::lookup::KeyedView for UserV {
    open spec fn key(self) -> Seq<char> {
        self.id
    }
}

impl View for User {
    type V = UserV;

    open spec fn view(&self) -> UserV {
        UserV {
            id: self.id@,
            resources: self.resources,
            rewards: self.rewards,
            rate_limit_tokens: self.rate_limit_tokens,
        }
    }
}

impl Clone for User {
    fn clone(&self) -> (res: Self)
        ensures
            res@ == self@,
    {
        User {
            id: self.id.clone(),
            resources: self.resources,
            rewards: self.rewards,
            rate_limit_tokens: self.rate_limit_tokens,
        }
    }
}

} // verus!
