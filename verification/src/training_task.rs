//! A record pairing opaque training input with eventual trained weights.

use vstd::prelude::*;

verus! {

/// A training task.  `id` is the unique key of the task store, `model_id`
/// names the model to be trained (a non-enforced reference), the
/// `training_data` bytes are immutable once the task is created, and
/// `model_weights` is absent until results are submitted.
#[derive(Debug, PartialEq, Eq)]
pub struct TrainingTask {
    pub id: String,
    pub model_id: String,
    pub training_data: Vec<u8>,
    pub model_weights: Option<Vec<u8>>,
}

/// The mathematical image of a [`TrainingTask`].
#[verifier::ext_equal]
pub struct TrainingTaskV {
    pub id: Seq<char>,
    pub model_id: Seq<char>,
    pub training_data: Seq<u8>,
    pub model_weights: Option<Seq<u8>>,
}

impl crate::lookup::KeyedView for TrainingTaskV {
    open spec fn key(self) -> Seq<char> {
        self.id
    }
}

impl View for TrainingTask {
    type V = TrainingTaskV;

    open spec fn view(&self) -> TrainingTaskV {
        TrainingTaskV {
            id: self.id@,
            model_id: self.model_id@,
            training_data: self.training_data@,
            model_weights: match self.model_weights {
                Some(w) => Some(w@),
                None => None,
            },
        }
    }
}

impl Clone for TrainingTask {
    fn clone(&self) -> (res: Self)
        ensures
            res@ == self@,
    {
        let weights = match &self.model_weights {
            Some(w) => Some(w.clone()),
            None => None,
        };
        let res = TrainingTask {
            id: self.id.clone(),
            model_id: self.model_id.clone(),
            training_data: self.training_data.clone(),
            model_weights: weights,
        };
        proof {
            assert(res@ =~= self@);
        }
        res
    }
}

} // verus!
