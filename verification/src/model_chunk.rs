//! An opaque unit of work handed to one user.

use vstd::prelude::*;

verus! {

/// A chunk of a larger data model.  `id` is the unique key of the chunk
/// store, `user_id` names the assignee (a non-enforced reference: the user
/// need not exist), and `data` is the opaque payload — pending work when the
/// chunk is created, the submitted result after an accepted submission.
#[derive(Debug, PartialEq, Eq)]
pub struct ModelChunk {
    pub id: String,
    pub user_id: String,
    pub data: Vec<u8>,
}

/// The mathematical image of a [`ModelChunk`].
#[verifier::ext_equal]
pub struct ModelChunkV {
    pub id: Seq<char>,
    pub user_id: Seq<char>,
    pub data: Seq<u8>,
}

impl crate::lookup::KeyedView for ModelChunkV {
    open spec fn key(self) -> Seq<char> {
        self.id
    }
}

impl View for ModelChunk {
    type V = ModelChunkV;

    open spec fn view(&self) -> ModelChunkV {
        ModelChunkV { id: self.id@, user_id: self.user_id@, data: self.data@ }
    }
}

impl Clone for ModelChunk {
    fn clone(&self) -> (res: Self)
        ensures
            res@ == self@,
    {
        let res = ModelChunk {
            id: self.id.clone(),
            user_id: self.user_id.clone(),
            data: self.data.clone(),
        };
        proof {
            assert(res@ =~= self@);
        }
        res
    }
}

} // verus!
