//! The ledger interface: one trait whose contracts pin down every operation.
//!
//! The abstract state of a ledger is four sequences of entry images, one per
//! store, kept in registration order — the explicit, stable ordering that
//! pagination and "first element" queries are specified against — plus the
//! administrator credential, if one has been configured.  The spec functions
//! here are the transitions those contracts are phrased over.

use vstd::prelude::*;
use crate::completion::Completion;
use crate::errors::TaskManagerError;
use crate::lookup::{KeyedView, entry_for, first_idx, has_key};
use crate::model_chunk::{ModelChunk, ModelChunkV};
use crate::task_manager_impl::{Model, ModelV, chunk_views, model_views};
use crate::training_task::{TrainingTask, TrainingTaskV};
use crate::user::{User, UserV};

verus! {

/// `a + b` clamped to `u64::MAX`.  Reward balances grow by saturating
/// addition, so that accounting is total while staying monotone.
pub open spec fn sat_add64(a: u64, b: u64) -> u64 {
    if a + b > u64::MAX {
        u64::MAX
    } else {
        (a + b) as u64
    }
}

/// The user store after replacing the pledged resources of the user stored
/// under `k`; unchanged when no user is.
pub open spec fn upd_user_resources(s: Seq<UserV>, k: Seq<char>, resources: u64) -> Seq<UserV> {
    if has_key(s, k) {
        let i = first_idx(s, k);
        s.update(
            i,
            UserV {
                id: s[i].id,
                resources: resources,
                rewards: s[i].rewards,
                rate_limit_tokens: s[i].rate_limit_tokens,
            },
        )
    } else {
        s
    }
}

/// The user store after crediting `amount` reward units to the user stored
/// under `k`; unchanged when no user is.
pub open spec fn credit_user(s: Seq<UserV>, k: Seq<char>, amount: u64) -> Seq<UserV> {
    if has_key(s, k) {
        let i = first_idx(s, k);
        s.update(
            i,
            UserV {
                id: s[i].id,
                resources: s[i].resources,
                rewards: sat_add64(s[i].rewards, amount),
                rate_limit_tokens: s[i].rate_limit_tokens,
            },
        )
    } else {
        s
    }
}

/// The model store after setting the `active` flag of the model stored under
/// `k`; unchanged when no model is.
pub open spec fn set_model_active(s: Seq<ModelV>, k: Seq<char>, active: bool) -> Seq<ModelV> {
    if has_key(s, k) {
        let i = first_idx(s, k);
        s.update(i, ModelV { id: s[i].id, min_resources: s[i].min_resources, active: active })
    } else {
        s
    }
}

/// The chunk store after replacing, wholesale, the payload of the chunk
/// stored under `k`; unchanged when no chunk is.
pub open spec fn set_chunk_data(s: Seq<ModelChunkV>, k: Seq<char>, data: Seq<u8>) -> Seq<
    ModelChunkV,
> {
    if has_key(s, k) {
        let i = first_idx(s, k);
        s.update(i, ModelChunkV { id: s[i].id, user_id: s[i].user_id, data: data })
    } else {
        s
    }
}

/// The task store after recording trained weights for the task stored under
/// `k`; unchanged when no task is.
pub open spec fn set_task_weights(s: Seq<TrainingTaskV>, k: Seq<char>, weights: Seq<u8>) -> Seq<
    TrainingTaskV,
> {
    if has_key(s, k) {
        let i = first_idx(s, k);
        s.update(
            i,
            TrainingTaskV {
                id: s[i].id,
                model_id: s[i].model_id,
                training_data: s[i].training_data,
                model_weights: Some(weights),
            },
        )
    } else {
        s
    }
}

/// The aggregate pledged capacity: the sum of every user's resources.  It is
/// recomputed from the store at every gate decision, never cached.
pub open spec fn sum_resources(s: Seq<UserV>) -> int
    decreases s.len(),
{
    if s.len() == 0 {
        0
    } else {
        sum_resources(s.drop_last()) + s.last().resources
    }
}

/// The active models, in store order.
pub open spec fn active_models(s: Seq<ModelV>) -> Seq<ModelV> {
    s.filter(|m: ModelV| m.active)
}

/// The inactive models whose threshold exceeds the aggregate `total`, in
/// store order.
pub open spec fn models_needing_resources(s: Seq<ModelV>, total: int) -> Seq<ModelV> {
    s.filter(|m: ModelV| !m.active && m.min_resources > total)
}

/// The chunks assigned to `uid`, in store order.
pub open spec fn chunks_of_user(s: Seq<ModelChunkV>, uid: Seq<char>) -> Seq<ModelChunkV> {
    s.filter(|c: ModelChunkV| c.user_id == uid)
}

/// The page of `s` that skips `offset` elements and takes up to `limit`.
/// An offset at or beyond the end, or a limit of zero, yields the empty
/// sequence; neither is an error.
pub open spec fn page<T>(s: Seq<T>, offset: int, limit: int) -> Seq<T> {
    if offset < 0 || limit < 0 || offset >= s.len() {
        Seq::empty()
    } else if offset + limit <= s.len() {
        s.subrange(offset, offset + limit)
    } else {
        s.subrange(offset, s.len() as int)
    }
}

/// The text generated for `prompt` by the model named `model_id`.
pub open spec fn completion_text(prompt: Seq<char>, model_id: Seq<char>) -> Seq<char> {
    "Generated text for '"@ + prompt + "' using model '"@ + model_id + "'"@
}

/// The one fixed chunk the placeholder distribution policy creates: pending
/// work assigned to a fixed user.  A real work-splitting scheduler would
/// replace this policy behind the same interface.
pub open spec fn placeholder_chunk() -> ModelChunkV {
    ModelChunkV { id: "chunk1"@, user_id: "user1"@, data: Seq::new(1024, |i: int| 0u8) }
}

/// One step of [`sum_resources`] along a prefix scan.
pub proof fn lemma_sum_resources_take_step(s: Seq<UserV>, i: int)
    requires
        0 <= i < s.len(),
    ensures
        sum_resources(s.take(i + 1)) == sum_resources(s.take(i)) + s[i].resources,
{
    assert(s.take(i + 1).drop_last() =~= s.take(i));
    assert(s.take(i + 1).last() == s[i]);
}

/// One step of [`chunks_of_user`] along a prefix scan.
pub proof fn lemma_chunks_of_user_take_step(s: Seq<ModelChunkV>, uid: Seq<char>, i: int)
    requires
        0 <= i < s.len(),
    ensures
        chunks_of_user(s.take(i + 1), uid) == if s[i].user_id == uid {
            chunks_of_user(s.take(i), uid).push(s[i])
        } else {
            chunks_of_user(s.take(i), uid)
        },
{
    reveal(Seq::filter);
    assert(s.take(i + 1).drop_last() =~= s.take(i));
    assert(s.take(i + 1).last() == s[i]);
}

/// One step of [`active_models`] along a prefix scan.
pub proof fn lemma_active_models_take_step(s: Seq<ModelV>, i: int)
    requires
        0 <= i < s.len(),
    ensures
        active_models(s.take(i + 1)) == if s[i].active {
            active_models(s.take(i)).push(s[i])
        } else {
            active_models(s.take(i))
        },
{
    reveal(Seq::filter);
    assert(s.take(i + 1).drop_last() =~= s.take(i));
    assert(s.take(i + 1).last() == s[i]);
}

/// One step of [`models_needing_resources`] along a prefix scan.
pub proof fn lemma_models_needing_resources_take_step(s: Seq<ModelV>, total: int, i: int)
    requires
        0 <= i < s.len(),
    ensures
        models_needing_resources(s.take(i + 1), total) == if !s[i].active && s[i].min_resources
            > total {
            models_needing_resources(s.take(i), total).push(s[i])
        } else {
            models_needing_resources(s.take(i), total)
        },
{
    reveal(Seq::filter);
    assert(s.take(i + 1).drop_last() =~= s.take(i));
    assert(s.take(i + 1).last() == s[i]);
}

/// The coordination ledger's operations.
///
/// Mutating operations take the whole state exclusively; read-only ones
/// borrow it shared.  Every contract is phrased over the abstract store
/// sequences, so a caller never needs to look behind them.
pub trait TaskManagerInterface: Sized {
    /// The user store, in registration order.
    spec fn users(&self) -> Seq<UserV>;

    /// The model store, in registration order.
    spec fn models(&self) -> Seq<ModelV>;

    /// The chunk store, in creation order.
    spec fn chunks(&self) -> Seq<ModelChunkV>;

    /// The training-task store, in creation order.
    spec fn tasks(&self) -> Seq<TrainingTaskV>;

    /// The administrator credential, once one has been configured.
    spec fn admin_credential(&self) -> Option<Seq<char>>;

    /// Well-formedness: ids are unique within each store.
    spec fn wf(&self) -> bool;

    /// One-time start-of-life hook.  The ledger needs no extra state today,
    /// so it leaves everything as it is.
    fn init(&mut self)
        requires
            old(self).wf(),
        ensures
            final(self).wf(),
            final(self).users() == old(self).users(),
            final(self).models() == old(self).models(),
            final(self).chunks() == old(self).chunks(),
            final(self).tasks() == old(self).tasks(),
            final(self).admin_credential() == old(self).admin_credential(),
    ;

    /// Registers a new user, verbatim.  Fails, changing nothing, when the id
    /// is already taken.
    fn register_user(&mut self, user: User) -> (res: Result<String, TaskManagerError>)
        requires
            old(self).wf(),
        ensures
            final(self).wf(),
            final(self).models() == old(self).models(),
            final(self).chunks() == old(self).chunks(),
            final(self).tasks() == old(self).tasks(),
            final(self).admin_credential() == old(self).admin_credential(),
            match res {
                Ok(id) => {
                    &&& !has_key(old(self).users(), user@.id)
                    &&& id@ == user@.id
                    &&& final(self).users() == old(self).users().push(user@)
                },
                Err(e) => {
                    &&& e == TaskManagerError::UserAlreadyExists
                    &&& has_key(old(self).users(), user@.id)
                    &&& final(self).users() == old(self).users()
                },
            },
    ;

    /// Replaces the resources pledged by a user; rewards are untouched.
    /// Fails, changing nothing, when the user is unknown.
    fn update_user_resources(&mut self, id: &str, resources: u64) -> (res: Result<
        (),
        TaskManagerError,
    >)
        requires
            old(self).wf(),
        ensures
            final(self).wf(),
            final(self).models() == old(self).models(),
            final(self).chunks() == old(self).chunks(),
            final(self).tasks() == old(self).tasks(),
            final(self).admin_credential() == old(self).admin_credential(),
            match res {
                Ok(_) => {
                    &&& has_key(old(self).users(), id@)
                    &&& final(self).users() == upd_user_resources(old(self).users(), id@, resources)
                },
                Err(e) => {
                    &&& e == TaskManagerError::UserNotFound
                    &&& !has_key(old(self).users(), id@)
                    &&& final(self).users() == old(self).users()
                },
            },
    ;

    /// Reports the reward balance a user has earned.  Fails when the user is
    /// unknown.
    fn get_rewards(&self, user_id: &str) -> (res: Result<u64, TaskManagerError>)
        requires
            self.wf(),
        ensures
            match res {
                Ok(n) => has_key(self.users(), user_id@) && n == entry_for(
                    self.users(),
                    user_id@,
                ).rewards,
                Err(e) => e == TaskManagerError::UserNotFound && !has_key(self.users(), user_id@),
            },
    ;

    /// Registers a new model, verbatim.  Fails, changing nothing, when the
    /// id is already taken.
    fn register_model(&mut self, model: Model) -> (res: Result<String, TaskManagerError>)
        requires
            old(self).wf(),
        ensures
            final(self).wf(),
            final(self).users() == old(self).users(),
            final(self).chunks() == old(self).chunks(),
            final(self).tasks() == old(self).tasks(),
            final(self).admin_credential() == old(self).admin_credential(),
            match res {
                Ok(id) => {
                    &&& !has_key(old(self).models(), model@.id)
                    &&& id@ == model@.id
                    &&& final(self).models() == old(self).models().push(model@)
                },
                Err(e) => {
                    &&& e == TaskManagerError::ModelAlreadyExists
                    &&& has_key(old(self).models(), model@.id)
                    &&& final(self).models() == old(self).models()
                },
            },
    ;

    /// Activates a model.  The aggregate pledged capacity is summed afresh
    /// at each call; activation succeeds exactly when that total reaches the
    /// model's threshold, and otherwise the store is left as it was.
    fn activate_model(&mut self, model_id: &str) -> (res: Result<(), TaskManagerError>)
        requires
            old(self).wf(),
        ensures
            final(self).wf(),
            final(self).users() == old(self).users(),
            final(self).chunks() == old(self).chunks(),
            final(self).tasks() == old(self).tasks(),
            final(self).admin_credential() == old(self).admin_credential(),
            match res {
                Ok(_) => {
                    &&& has_key(old(self).models(), model_id@)
                    &&& sum_resources(old(self).users()) >= entry_for(
                        old(self).models(),
                        model_id@,
                    ).min_resources
                    &&& final(self).models() == set_model_active(
                        old(self).models(),
                        model_id@,
                        true,
                    )
                },
                Err(e) => {
                    &&& final(self).models() == old(self).models()
                    &&& ((e == TaskManagerError::ModelNotFound && !has_key(
                        old(self).models(),
                        model_id@,
                    )) || (e == TaskManagerError::InsufficientResources && has_key(
                        old(self).models(),
                        model_id@,
                    ) && sum_resources(old(self).users()) < entry_for(
                        old(self).models(),
                        model_id@,
                    ).min_resources))
                },
            },
    ;

    /// Deactivates a model, unconditionally: no resource check is made.
    /// Fails only when the model is unknown.
    fn deactivate_model(&mut self, model_id: &str) -> (res: Result<(), TaskManagerError>)
        requires
            old(self).wf(),
        ensures
            final(self).wf(),
            final(self).users() == old(self).users(),
            final(self).chunks() == old(self).chunks(),
            final(self).tasks() == old(self).tasks(),
            final(self).admin_credential() == old(self).admin_credential(),
            match res {
                Ok(_) => {
                    &&& has_key(old(self).models(), model_id@)
                    &&& final(self).models() == set_model_active(
                        old(self).models(),
                        model_id@,
                        false,
                    )
                },
                Err(e) => {
                    &&& e == TaskManagerError::ModelNotFound
                    &&& !has_key(old(self).models(), model_id@)
                    &&& final(self).models() == old(self).models()
                },
            },
    ;

    /// Hands out work.  The placeholder policy creates the one fixed pending
    /// chunk when it is not there yet and otherwise leaves the store alone,
    /// so distribution is idempotent and never overwrites a submitted
    /// result.
    fn distribute_model_chunks(&mut self) -> (res: Result<(), TaskManagerError>)
        requires
            old(self).wf(),
        ensures
            final(self).wf(),
            final(self).users() == old(self).users(),
            final(self).models() == old(self).models(),
            final(self).tasks() == old(self).tasks(),
            final(self).admin_credential() == old(self).admin_credential(),
            res is Ok,
            has_key(old(self).chunks(), placeholder_chunk().id) ==> final(self).chunks() == old(
                self,
            ).chunks(),
            !has_key(old(self).chunks(), placeholder_chunk().id) ==> final(self).chunks() == old(
                self,
            ).chunks().push(placeholder_chunk()),
    ;

    /// Accepts a computed chunk: the stored chunk's payload is replaced
    /// wholesale by the submitted one and the submitting assignee is
    /// credited one reward unit.  Fails, changing nothing, when no chunk is
    /// stored under the submitted id.
    fn submit_computed_chunk(&mut self, chunk: ModelChunk) -> (res: Result<(), TaskManagerError>)
        requires
            old(self).wf(),
        ensures
            final(self).wf(),
            final(self).models() == old(self).models(),
            final(self).tasks() == old(self).tasks(),
            final(self).admin_credential() == old(self).admin_credential(),
            match res {
                Ok(_) => {
                    &&& has_key(old(self).chunks(), chunk@.id)
                    &&& final(self).chunks() == set_chunk_data(
                        old(self).chunks(),
                        chunk@.id,
                        chunk@.data,
                    )
                    &&& final(self).users() == credit_user(old(self).users(), chunk@.user_id, 1)
                },
                Err(e) => {
                    &&& e == TaskManagerError::ModelChunkNotFound
                    &&& !has_key(old(self).chunks(), chunk@.id)
                    &&& final(self).chunks() == old(self).chunks()
                    &&& final(self).users() == old(self).users()
                },
            },
    ;

    /// Returns a snapshot copy of every chunk assigned to `user_id`, in
    /// creation order.
    fn get_model_chunks(&self, user_id: &str) -> (res: Result<Vec<ModelChunk>, TaskManagerError>)
        requires
            self.wf(),
        ensures
            match res {
                Ok(v) => chunk_views(v@) == chunks_of_user(self.chunks(), user_id@),
                Err(_) => false,
            },
    ;

    /// Creates a new training task, verbatim.  Fails, changing nothing,
    /// when the id is already taken.
    fn create_training_task(&mut self, task: TrainingTask) -> (res: Result<
        String,
        TaskManagerError,
    >)
        requires
            old(self).wf(),
        ensures
            final(self).wf(),
            final(self).users() == old(self).users(),
            final(self).models() == old(self).models(),
            final(self).chunks() == old(self).chunks(),
            final(self).admin_credential() == old(self).admin_credential(),
            match res {
                Ok(id) => {
                    &&& !has_key(old(self).tasks(), task@.id)
                    &&& id@ == task@.id
                    &&& final(self).tasks() == old(self).tasks().push(task@)
                },
                Err(e) => {
                    &&& e == TaskManagerError::TrainingTaskAlreadyExists
                    &&& has_key(old(self).tasks(), task@.id)
                    &&& final(self).tasks() == old(self).tasks()
                },
            },
    ;

    /// Records trained weights for a task.  The weights become present and
    /// a repeated submission replaces them; the training data is untouched.
    /// Fails, changing nothing, when the task is unknown.
    fn submit_training_results(&mut self, task_id: &str, model_weights: Vec<u8>) -> (res: Result<
        (),
        TaskManagerError,
    >)
        requires
            old(self).wf(),
        ensures
            final(self).wf(),
            final(self).users() == old(self).users(),
            final(self).models() == old(self).models(),
            final(self).chunks() == old(self).chunks(),
            final(self).admin_credential() == old(self).admin_credential(),
            match res {
                Ok(_) => {
                    &&& has_key(old(self).tasks(), task_id@)
                    &&& final(self).tasks() == set_task_weights(
                        old(self).tasks(),
                        task_id@,
                        model_weights@,
                    )
                },
                Err(e) => {
                    &&& e == TaskManagerError::TrainingTaskNotFound
                    &&& !has_key(old(self).tasks(), task_id@)
                    &&& final(self).tasks() == old(self).tasks()
                },
            },
    ;

    /// A page of the active models: skip `offset` of them, take up to
    /// `limit`, over the deterministically ordered active set.
    fn get_active_models(&self, offset: usize, limit: usize) -> (res: Vec<Model>)
        requires
            self.wf(),
        ensures
            model_views(res@) == page(
                active_models(self.models()),
                offset as int,
                limit as int,
            ),
    ;

    /// A page of the models that are inactive and still out of reach of the
    /// aggregate pledged resources, recomputed at this very call.
    fn get_models_needing_resources(&self, offset: usize, limit: usize) -> (res: Vec<Model>)
        requires
            self.wf(),
        ensures
            model_views(res@) == page(
                models_needing_resources(self.models(), sum_resources(self.users())),
                offset as int,
                limit as int,
            ),
    ;

    /// Answers a completion query with the first active model.  An empty
    /// prompt is rejected before anything else; with no model active there
    /// is nothing to answer with.
    fn generate_completion(&self, prompt: &str) -> (res: Result<Completion, TaskManagerError>)
        requires
            self.wf(),
        ensures
            match res {
                Ok(c) => {
                    &&& prompt@.len() > 0
                    &&& active_models(self.models()).len() > 0
                    &&& c@.prompt == prompt@
                    &&& c@.generated_text == completion_text(
                        prompt@,
                        active_models(self.models())[0].id,
                    )
                },
                Err(e) => {
                    ||| (e == TaskManagerError::EmptyPrompt && prompt@.len() == 0)
                    ||| (e == TaskManagerError::NoActiveModels && prompt@.len() > 0
                        && active_models(self.models()).len() == 0)
                },
            },
    ;
}

} // verus!
