//! The closed set of domain errors the ledger reports.

use vstd::prelude::*;
use vstd::string::StringExecFns;

verus! {

/// Every way a ledger operation can fail.  The variant is the error's
/// identity; the user-facing text is a rendering concern, served by
/// [`TaskManagerError::message`].
///
/// `RwLockPoisoned` is reserved for the hosting shim: once the shared state
/// is poisoned every call must keep failing with it.  `GpuComputationFailed`
/// wraps a failure reported by the external byte-transformation collaborator;
/// the core itself never produces either.
#[derive(Debug, PartialEq, Eq)]
pub enum TaskManagerError {
    UserAlreadyExists,
    UserNotFound,
    ModelAlreadyExists,
    ModelNotFound,
    ModelChunkNotFound,
    TrainingTaskAlreadyExists,
    TrainingTaskNotFound,
    InsufficientResources,
    UnauthorizedAccess,
    EmptyPrompt,
    NoActiveModels,
    RwLockPoisoned,
    GpuComputationFailed(String),
}

impl TaskManagerError {
    /// The user-facing text for this error.
    pub fn message(&self) -> (res: String)
        ensures
            res@ == self.message_spec(),
    {
        match self {
            TaskManagerError::UserAlreadyExists => String::from_str("User already exists."),
            TaskManagerError::UserNotFound => String::from_str("User not found."),
            TaskManagerError::ModelAlreadyExists => String::from_str("Model already exists."),
            TaskManagerError::ModelNotFound => String::from_str("Model not found."),
            TaskManagerError::ModelChunkNotFound => String::from_str("Model chunk not found."),
            TaskManagerError::TrainingTaskAlreadyExists => String::from_str(
                "Training task already exists.",
            ),
            TaskManagerError::TrainingTaskNotFound => String::from_str("Training task not found."),
            TaskManagerError::InsufficientResources => String::from_str(
                "Insufficient resources to activate the model.",
            ),
            TaskManagerError::UnauthorizedAccess => String::from_str("Unauthorized access."),
            TaskManagerError::EmptyPrompt => String::from_str("Prompt cannot be empty."),
            TaskManagerError::NoActiveModels => String::from_str("No active models available."),
            TaskManagerError::RwLockPoisoned => String::from_str(
                "Internal error: RwLock is poisoned.",
            ),
            TaskManagerError::GpuComputationFailed(_) => String::from_str(
                "GPU computation failed.",
            ),
        }
    }

    /// What [`TaskManagerError::message`] returns, as a character sequence.
    pub open spec fn message_spec(&self) -> Seq<char> {
        match self {
            TaskManagerError::UserAlreadyExists => "User already exists."@,
            TaskManagerError::UserNotFound => "User not found."@,
            TaskManagerError::ModelAlreadyExists => "Model already exists."@,
            TaskManagerError::ModelNotFound => "Model not found."@,
            TaskManagerError::ModelChunkNotFound => "Model chunk not found."@,
            TaskManagerError::TrainingTaskAlreadyExists => "Training task already exists."@,
            TaskManagerError::TrainingTaskNotFound => "Training task not found."@,
            TaskManagerError::InsufficientResources => (
            "Insufficient resources to activate the model."@),
            TaskManagerError::UnauthorizedAccess => "Unauthorized access."@,
            TaskManagerError::EmptyPrompt => "Prompt cannot be empty."@,
            TaskManagerError::NoActiveModels => "No active models available."@,
            TaskManagerError::RwLockPoisoned => "Internal error: RwLock is poisoned."@,
            TaskManagerError::GpuComputationFailed(_) => "GPU computation failed."@,
        }
    }
}

} // verus!
