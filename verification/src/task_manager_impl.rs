//! The in-memory implementation of the coordination ledger.

use vstd::prelude::*;
use vstd::pervasive::VecAdditionalExecFns;
use crate::errors::TaskManagerError;
use crate::lookup::{
    KeyedView,
    entry_for,
    first_idx,
    has_key,
    lemma_first_idx,
    lemma_first_idx_at,
    lemma_unique_keys_push,
    lemma_unique_keys_update,
    str_eq,
    unique_keys,
};
use crate::completion::Completion;
use crate::model_chunk::{ModelChunk, ModelChunkV};
use crate::task_manager::{
    TaskManagerInterface,
    active_models,
    chunks_of_user,
    completion_text,
    credit_user,
    lemma_active_models_take_step,
    lemma_chunks_of_user_take_step,
    lemma_models_needing_resources_take_step,
    lemma_sum_resources_take_step,
    models_needing_resources,
    page,
    placeholder_chunk,
    sat_add64,
    set_chunk_data,
    set_model_active,
    set_task_weights,
    sum_resources,
    upd_user_resources,
};
use crate::training_task::{TrainingTask, TrainingTaskV};
use crate::user::{User, UserV};
use vstd::string::{StrSliceExecFns, StringExecFns};

verus! {

/// A registered machine-learning model.  `id` is the unique key of the model
/// store, `min_resources` is the aggregate pledge the network must hold
/// before the model may be activated, and `active` says whether it currently
/// is.
#[derive(Debug, PartialEq, Eq)]
pub struct Model {
    pub id: String,
    pub min_resources: u64,
    pub active: bool,
}

/// The mathematical image of a [`Model`].
#[verifier::ext_equal]
pub struct ModelV {
    pub id: Seq<char>,
    pub min_resources: u64,
    pub active: bool,
}

impl KeyedView for ModelV {
    open spec fn key(self) -> Seq<char> {
        self.id
    }
}

impl View for Model {
    type V = ModelV;

    open spec fn view(&self) -> ModelV {
        ModelV { id: self.id@, min_resources: self.min_resources, active: self.active }
    }
}

impl Clone for Model {
    fn clone(&self) -> (res: Self)
        ensures
            res@ == self@,
    {
        Model { id: self.id.clone(), min_resources: self.min_resources, active: self.active }
    }
}

/// The images of a sequence of users.
pub open spec fn user_views(s: Seq<User>) -> Seq<UserV> {
    s.map_values(|u: User| u@)
}

/// The images of a sequence of models.
pub open spec fn model_views(s: Seq<Model>) -> Seq<ModelV> {
    s.map_values(|m: Model| m@)
}

/// The images of a sequence of chunks.
pub open spec fn chunk_views(s: Seq<ModelChunk>) -> Seq<ModelChunkV> {
    s.map_values(|c: ModelChunk| c@)
}

/// The images of a sequence of training tasks.
pub open spec fn task_views(s: Seq<TrainingTask>) -> Seq<TrainingTaskV> {
    s.map_values(|t: TrainingTask| t@)
}

/// The coordination ledger: four keyed stores behind one access boundary.
/// Each store keeps its entries in registration order, which is the
/// deterministic order every paginated or "first element" query is served
/// in.
pub struct TaskManagerImpl {
    users: Vec<User>,
    model_chunks: Vec<ModelChunk>,
    models: Vec<Model>,
    training_tasks: Vec<TrainingTask>,
    admin_token: Option<String>,
}

impl Default for TaskManagerImpl {
    /// An empty ledger: no entries anywhere and no administrator credential
    /// configured yet.
    fn default() -> (res: Self)
        ensures
            res.wf(),
            res.users() == Seq::<UserV>::empty(),
            res.models() == Seq::<ModelV>::empty(),
            res.chunks() == Seq::<ModelChunkV>::empty(),
            res.tasks() == Seq::<TrainingTaskV>::empty(),
            res.admin_credential() is None,
    {
        let res = TaskManagerImpl {
            users: Vec::new(),
            model_chunks: Vec::new(),
            models: Vec::new(),
            training_tasks: Vec::new(),
            admin_token: None,
        };
        proof {
            assert(res.users() =~= Seq::<UserV>::empty());
            assert(res.models() =~= Seq::<ModelV>::empty());
            assert(res.chunks() =~= Seq::<ModelChunkV>::empty());
            assert(res.tasks() =~= Seq::<TrainingTaskV>::empty());
        }
        res
    }
}

impl TaskManagerImpl {
    /// The index of the first user stored under `id`, if any.
    fn find_user(v: &Vec<User>, id: &str) -> (res: Option<usize>)
        ensures
            match res {
                Some(i) => i < v@.len() && first_idx(user_views(v@), id@) == i,
                None => !has_key(user_views(v@), id@),
            },
    {
        let mut i: usize = 0;
        while i < v.len()
            invariant
                i <= v@.len(),
                forall|j: int| 0 <= j < i ==> user_views(v@)[j].id != id@,
            decreases v@.len() - i,
        {
            if str_eq(v[i].id.as_str(), id) {
                proof {
                    lemma_first_idx_at(user_views(v@), id@, i as int);
                }
                return Some(i);
            }
            i = i + 1;
        }
        proof {
            lemma_first_idx(user_views(v@), id@);
        }
        None
    }

    /// The index of the first model stored under `id`, if any.
    fn find_model(v: &Vec<Model>, id: &str) -> (res: Option<usize>)
        ensures
            match res {
                Some(i) => i < v@.len() && first_idx(model_views(v@), id@) == i,
                None => !has_key(model_views(v@), id@),
            },
    {
        let mut i: usize = 0;
        while i < v.len()
            invariant
                i <= v@.len(),
                forall|j: int| 0 <= j < i ==> model_views(v@)[j].id != id@,
            decreases v@.len() - i,
        {
            if str_eq(v[i].id.as_str(), id) {
                proof {
                    lemma_first_idx_at(model_views(v@), id@, i as int);
                }
                return Some(i);
            }
            i = i + 1;
        }
        proof {
            lemma_first_idx(model_views(v@), id@);
        }
        None
    }

    /// The index of the first chunk stored under `id`, if any.
    fn find_chunk(v: &Vec<ModelChunk>, id: &str) -> (res: Option<usize>)
        ensures
            match res {
                Some(i) => i < v@.len() && first_idx(chunk_views(v@), id@) == i,
                None => !has_key(chunk_views(v@), id@),
            },
    {
        let mut i: usize = 0;
        while i < v.len()
            invariant
                i <= v@.len(),
                forall|j: int| 0 <= j < i ==> chunk_views(v@)[j].id != id@,
            decreases v@.len() - i,
        {
            if str_eq(v[i].id.as_str(), id) {
                proof {
                    lemma_first_idx_at(chunk_views(v@), id@, i as int);
                }
                return Some(i);
            }
            i = i + 1;
        }
        proof {
            lemma_first_idx(chunk_views(v@), id@);
        }
        None
    }

    /// The index of the first training task stored under `id`, if any.
    fn find_task(v: &Vec<TrainingTask>, id: &str) -> (res: Option<usize>)
        ensures
            match res {
                Some(i) => i < v@.len() && first_idx(task_views(v@), id@) == i,
                None => !has_key(task_views(v@), id@),
            },
    {
        let mut i: usize = 0;
        while i < v.len()
            invariant
                i <= v@.len(),
                forall|j: int| 0 <= j < i ==> task_views(v@)[j].id != id@,
            decreases v@.len() - i,
        {
            if str_eq(v[i].id.as_str(), id) {
                proof {
                    lemma_first_idx_at(task_views(v@), id@, i as int);
                }
                return Some(i);
            }
            i = i + 1;
        }
        proof {
            lemma_first_idx(task_views(v@), id@);
        }
        None
    }

    /// The page of `v` that skips `offset` models and copies up to `limit`.
    fn paginate(v: &Vec<Model>, offset: usize, limit: usize) -> (res: Vec<Model>)
        ensures
            model_views(res@) == page(model_views(v@), offset as int, limit as int),
    {
        let mut out: Vec<Model> = Vec::new();
        if offset >= v.len() {
            proof {
                assert(model_views(out@) =~= page(model_views(v@), offset as int, limit as int));
            }
            return out;
        }
        let end = if limit > v.len() - offset {
            v.len()
        } else {
            offset + limit
        };
        let mut j = offset;
        while j < end
            invariant
                offset <= j <= end <= v@.len(),
                model_views(out@) == model_views(v@).subrange(offset as int, j as int),
            decreases end - j,
        {
            let ghost before = model_views(out@);
            out.push(v[j].clone());
            proof {
                assert(model_views(out@) =~= model_views(v@).subrange(
                    offset as int,
                    j as int + 1,
                ));
            }
            j = j + 1;
        }
        proof {
            assert(model_views(v@).subrange(offset as int, end as int) =~= page(
                model_views(v@),
                offset as int,
                limit as int,
            ));
        }
        out
    }

    /// The aggregate pledged capacity at this instant, clamped to
    /// `u64::MAX`.  Recomputed from the user store on every call.
    fn total_resources(&self) -> (total: u64)
        ensures
            sum_resources(self.users()) <= u64::MAX ==> total == sum_resources(self.users()),
            sum_resources(self.users()) > u64::MAX ==> total == u64::MAX,
    {
        let mut total: u64 = 0;
        let mut i: usize = 0;
        while i < self.users.len()
            invariant
                i <= self.users@.len(),
                sum_resources(self.users().take(i as int)) <= u64::MAX ==> total == sum_resources(
                    self.users().take(i as int),
                ),
                sum_resources(self.users().take(i as int)) > u64::MAX ==> total == u64::MAX,
            decreases self.users@.len() - i,
        {
            proof {
                lemma_sum_resources_take_step(self.users(), i as int);
            }
            total = total.saturating_add(self.users[i].resources);
            i = i + 1;
        }
        proof {
            assert(self.users().take(self.users@.len() as int) =~= self.users());
        }
        total
    }

    /// Credits `completed_chunks` reward units to a user — one unit per
    /// accepted chunk — and returns the reward minted.  A balance grows by
    /// saturating addition; crediting an unknown user mints the reward
    /// without a ledger entry to book it on, leaving the store unchanged.
    pub fn calculate_rewards(&mut self, user_id: &str, completed_chunks: usize) -> (reward: u64)
        requires
            old(self).wf(),
        ensures
            final(self).wf(),
            reward == completed_chunks as u64,
            final(self).users() == credit_user(
                old(self).users(),
                user_id@,
                completed_chunks as u64,
            ),
            final(self).models() == old(self).models(),
            final(self).chunks() == old(self).chunks(),
            final(self).tasks() == old(self).tasks(),
            final(self).admin_credential() == old(self).admin_credential(),
    {
        let reward = completed_chunks as u64;
        match Self::find_user(&self.users, user_id) {
            None => reward,
            Some(i) => {
                let u = &self.users[i];
                let updated = User {
                    id: u.id.clone(),
                    resources: u.resources,
                    rewards: u.rewards.saturating_add(reward),
                    rate_limit_tokens: u.rate_limit_tokens,
                };
                let ghost nv = updated@;
                self.users.set(i, updated);
                proof {
                    assert(nv.rewards == sat_add64(old(self).users()[i as int].rewards, reward));
                    assert(self.users() =~= old(self).users().update(i as int, nv));
                    assert(self.users() =~= credit_user(old(self).users(), user_id@, reward));
                    lemma_unique_keys_update(old(self).users(), i as int, nv);
                }
                reward
            },
        }
    }

    /// Looks a user up by id and returns a copy of the stored entry.
    pub fn get_user(&self, user_id: &str) -> (res: Result<User, TaskManagerError>)
        ensures
            match res {
                Ok(u) => has_key(self.users(), user_id@) && u@ == entry_for(
                    self.users(),
                    user_id@,
                ),
                Err(e) => e == TaskManagerError::UserNotFound && !has_key(self.users(), user_id@),
            },
    {
        match Self::find_user(&self.users, user_id) {
            Some(i) => Ok(self.users[i].clone()),
            None => Err(TaskManagerError::UserNotFound),
        }
    }

    /// Looks a model up by id and returns a copy of the stored entry.
    pub fn get_model(&self, model_id: &str) -> (res: Result<Model, TaskManagerError>)
        ensures
            match res {
                Ok(m) => has_key(self.models(), model_id@) && m@ == entry_for(
                    self.models(),
                    model_id@,
                ),
                Err(e) => e == TaskManagerError::ModelNotFound && !has_key(
                    self.models(),
                    model_id@,
                ),
            },
    {
        match Self::find_model(&self.models, model_id) {
            Some(i) => Ok(self.models[i].clone()),
            None => Err(TaskManagerError::ModelNotFound),
        }
    }

    /// Looks a chunk up by id and returns a copy of the stored entry.
    pub fn get_model_chunk(&self, chunk_id: &str) -> (res: Result<ModelChunk, TaskManagerError>)
        ensures
            match res {
                Ok(c) => has_key(self.chunks(), chunk_id@) && c@ == entry_for(
                    self.chunks(),
                    chunk_id@,
                ),
                Err(e) => e == TaskManagerError::ModelChunkNotFound && !has_key(
                    self.chunks(),
                    chunk_id@,
                ),
            },
    {
        match Self::find_chunk(&self.model_chunks, chunk_id) {
            Some(i) => Ok(self.model_chunks[i].clone()),
            None => Err(TaskManagerError::ModelChunkNotFound),
        }
    }

    /// Configures the administrator credential that every admin-gated
    /// mutation is checked against from now on.
    pub fn set_admin_credential(&mut self, token: String)
        requires
            old(self).wf(),
        ensures
            final(self).wf(),
            final(self).admin_credential() == Some(token@),
            final(self).users() == old(self).users(),
            final(self).models() == old(self).models(),
            final(self).chunks() == old(self).chunks(),
            final(self).tasks() == old(self).tasks(),
    {
        self.admin_token = Some(token);
    }

    /// Verifies a presented administrator credential.  While no credential
    /// has been configured, every admin-gated operation is refused.
    pub fn check_admin_access(&self, token: &str) -> (res: Result<(), TaskManagerError>)
        ensures
            match res {
                Ok(_) => self.admin_credential() == Some(token@),
                Err(e) => e == TaskManagerError::UnauthorizedAccess && self.admin_credential()
                    != Some(token@),
            },
    {
        match &self.admin_token {
            Some(t) => {
                if str_eq(t.as_str(), token) {
                    Ok(())
                } else {
                    Err(TaskManagerError::UnauthorizedAccess)
                }
            },
            None => Err(TaskManagerError::UnauthorizedAccess),
        }
    }

    /// Registers a model on behalf of an administrator: the presented
    /// credential is verified before any state is touched.
    pub fn admin_register_model(&mut self, admin_token: &str, model: Model) -> (res: Result<
        String,
        TaskManagerError,
    >)
        requires
            old(self).wf(),
        ensures
            final(self).wf(),
            final(self).users() == old(self).users(),
            final(self).chunks() == old(self).chunks(),
            final(self).tasks() == old(self).tasks(),
            final(self).admin_credential() == old(self).admin_credential(),
            old(self).admin_credential() != Some(admin_token@) ==> res == Err::<
                String,
                TaskManagerError,
            >(TaskManagerError::UnauthorizedAccess) && final(self).models() == old(self).models(),
            old(self).admin_credential() == Some(admin_token@) ==> (match res {
                Ok(id) => {
                    &&& !has_key(old(self).models(), model@.id)
                    &&& id@ == model@.id
                    &&& final(self).models() == old(self).models().push(model@)
                },
                Err(e) => {
                    &&& e == TaskManagerError::ModelAlreadyExists
                    &&& has_key(old(self).models(), model@.id)
                    &&& final(self).models() == old(self).models()
                },
            }),
    {
        match self.check_admin_access(admin_token) {
            Err(e) => Err(e),
            Ok(_) => self.register_model(model),
        }
    }

    /// Activates a model on behalf of an administrator: the presented
    /// credential is verified before the resource gate is even consulted.
    pub fn admin_activate_model(&mut self, admin_token: &str, model_id: &str) -> (res: Result<
        (),
        TaskManagerError,
    >)
        requires
            old(self).wf(),
        ensures
            final(self).wf(),
            final(self).users() == old(self).users(),
            final(self).chunks() == old(self).chunks(),
            final(self).tasks() == old(self).tasks(),
            final(self).admin_credential() == old(self).admin_credential(),
            old(self).admin_credential() != Some(admin_token@) ==> res == Err::<
                (),
                TaskManagerError,
            >(TaskManagerError::UnauthorizedAccess) && final(self).models() == old(self).models(),
            old(self).admin_credential() == Some(admin_token@) ==> (match res {
                Ok(_) => {
                    &&& has_key(old(self).models(), model_id@)
                    &&& sum_resources(old(self).users()) >= entry_for(
                        old(self).models(),
                        model_id@,
                    ).min_resources
                    &&& final(self).models() == set_model_active(
                        old(self).models(),
                        model_id@,
                        true,
                    )
                },
                Err(e) => {
                    &&& final(self).models() == old(self).models()
                    &&& ((e == TaskManagerError::ModelNotFound && !has_key(
                        old(self).models(),
                        model_id@,
                    )) || (e == TaskManagerError::InsufficientResources && has_key(
                        old(self).models(),
                        model_id@,
                    ) && sum_resources(old(self).users()) < entry_for(
                        old(self).models(),
                        model_id@,
                    ).min_resources))
                },
            }),
    {
        match self.check_admin_access(admin_token) {
            Err(e) => Err(e),
            Ok(_) => self.activate_model(model_id),
        }
    }

    /// Deactivates a model on behalf of an administrator: the presented
    /// credential is verified before any state is touched.
    pub fn admin_deactivate_model(&mut self, admin_token: &str, model_id: &str) -> (res: Result<
        (),
        TaskManagerError,
    >)
        requires
            old(self).wf(),
        ensures
            final(self).wf(),
            final(self).users() == old(self).users(),
            final(self).chunks() == old(self).chunks(),
            final(self).tasks() == old(self).tasks(),
            final(self).admin_credential() == old(self).admin_credential(),
            old(self).admin_credential() != Some(admin_token@) ==> res == Err::<
                (),
                TaskManagerError,
            >(TaskManagerError::UnauthorizedAccess) && final(self).models() == old(self).models(),
            old(self).admin_credential() == Some(admin_token@) ==> (match res {
                Ok(_) => {
                    &&& has_key(old(self).models(), model_id@)
                    &&& final(self).models() == set_model_active(
                        old(self).models(),
                        model_id@,
                        false,
                    )
                },
                Err(e) => {
                    &&& e == TaskManagerError::ModelNotFound
                    &&& !has_key(old(self).models(), model_id@)
                    &&& final(self).models() == old(self).models()
                },
            }),
    {
        match self.check_admin_access(admin_token) {
            Err(e) => Err(e),
            Ok(_) => self.deactivate_model(model_id),
        }
    }

    /// Creates a training task on behalf of an administrator: the presented
    /// credential is verified before any state is touched.
    pub fn admin_create_training_task(&mut self, admin_token: &str, task: TrainingTask) -> (res:
        Result<String, TaskManagerError>)
        requires
            old(self).wf(),
        ensures
            final(self).wf(),
            final(self).users() == old(self).users(),
            final(self).models() == old(self).models(),
            final(self).chunks() == old(self).chunks(),
            final(self).admin_credential() == old(self).admin_credential(),
            old(self).admin_credential() != Some(admin_token@) ==> res == Err::<
                String,
                TaskManagerError,
            >(TaskManagerError::UnauthorizedAccess) && final(self).tasks() == old(self).tasks(),
            old(self).admin_credential() == Some(admin_token@) ==> (match res {
                Ok(id) => {
                    &&& !has_key(old(self).tasks(), task@.id)
                    &&& id@ == task@.id
                    &&& final(self).tasks() == old(self).tasks().push(task@)
                },
                Err(e) => {
                    &&& e == TaskManagerError::TrainingTaskAlreadyExists
                    &&& has_key(old(self).tasks(), task@.id)
                    &&& final(self).tasks() == old(self).tasks()
                },
            }),
    {
        match self.check_admin_access(admin_token) {
            Err(e) => Err(e),
            Ok(_) => self.create_training_task(task),
        }
    }

    /// Looks a training task up by id and returns a copy of the stored
    /// entry.
    pub fn get_training_task(&self, task_id: &str) -> (res: Result<
        TrainingTask,
        TaskManagerError,
    >)
        ensures
            match res {
                Ok(t) => has_key(self.tasks(), task_id@) && t@ == entry_for(
                    self.tasks(),
                    task_id@,
                ),
                Err(e) => e == TaskManagerError::TrainingTaskNotFound && !has_key(
                    self.tasks(),
                    task_id@,
                ),
            },
    {
        match Self::find_task(&self.training_tasks, task_id) {
            Some(i) => Ok(self.training_tasks[i].clone()),
            None => Err(TaskManagerError::TrainingTaskNotFound),
        }
    }
}

impl TaskManagerInterface for TaskManagerImpl {
    closed spec fn users(&self) -> Seq<UserV> {
        user_views(self.users@)
    }

    closed spec fn models(&self) -> Seq<ModelV> {
        model_views(self.models@)
    }

    closed spec fn chunks(&self) -> Seq<ModelChunkV> {
        chunk_views(self.model_chunks@)
    }

    closed spec fn tasks(&self) -> Seq<TrainingTaskV> {
        task_views(self.training_tasks@)
    }

    closed spec fn admin_credential(&self) -> Option<Seq<char>> {
        match self.admin_token {
            Some(t) => Some(t@),
            None => None,
        }
    }

    closed spec fn wf(&self) -> bool {
        &&& unique_keys(self.users())
        &&& unique_keys(self.models())
        &&& unique_keys(self.chunks())
        &&& unique_keys(self.tasks())
    }

    fn init(&mut self) {
    }

    fn register_user(&mut self, user: User) -> (res: Result<String, TaskManagerError>) {
        let ghost uv = user@;
        match Self::find_user(&self.users, user.id.as_str()) {
            Some(_) => Err(TaskManagerError::UserAlreadyExists),
            None => {
                let user_id = user.id.clone();
                self.users.push(user);
                proof {
                    assert(self.users() =~= old(self).users().push(uv));
                    lemma_unique_keys_push(old(self).users(), uv);
                }
                Ok(user_id)
            },
        }
    }

    fn update_user_resources(&mut self, id: &str, resources: u64) -> (res: Result<
        (),
        TaskManagerError,
    >) {
        match Self::find_user(&self.users, id) {
            None => Err(TaskManagerError::UserNotFound),
            Some(i) => {
                let u = &self.users[i];
                let updated = User {
                    id: u.id.clone(),
                    resources: resources,
                    rewards: u.rewards,
                    rate_limit_tokens: u.rate_limit_tokens,
                };
                let ghost nv = updated@;
                self.users.set(i, updated);
                proof {
                    assert(self.users() =~= old(self).users().update(i as int, nv));
                    assert(self.users() =~= upd_user_resources(old(self).users(), id@, resources));
                    lemma_unique_keys_update(old(self).users(), i as int, nv);
                }
                Ok(())
            },
        }
    }

    fn get_rewards(&self, user_id: &str) -> (res: Result<u64, TaskManagerError>) {
        match Self::find_user(&self.users, user_id) {
            Some(i) => Ok(self.users[i].rewards),
            None => Err(TaskManagerError::UserNotFound),
        }
    }

    fn register_model(&mut self, model: Model) -> (res: Result<String, TaskManagerError>) {
        let ghost mv = model@;
        match Self::find_model(&self.models, model.id.as_str()) {
            Some(_) => Err(TaskManagerError::ModelAlreadyExists),
            None => {
                let model_id = model.id.clone();
                self.models.push(model);
                proof {
                    assert(self.models() =~= old(self).models().push(mv));
                    lemma_unique_keys_push(old(self).models(), mv);
                }
                Ok(model_id)
            },
        }
    }

    fn activate_model(&mut self, model_id: &str) -> (res: Result<(), TaskManagerError>) {
        let total = self.total_resources();
        match Self::find_model(&self.models, model_id) {
            None => Err(TaskManagerError::ModelNotFound),
            Some(i) => {
                if total >= self.models[i].min_resources {
                    let m = &self.models[i];
                    let updated = Model {
                        id: m.id.clone(),
                        min_resources: m.min_resources,
                        active: true,
                    };
                    let ghost nv = updated@;
                    self.models.set(i, updated);
                    proof {
                        assert(self.models() =~= old(self).models().update(i as int, nv));
                        assert(self.models() =~= set_model_active(
                            old(self).models(),
                            model_id@,
                            true,
                        ));
                        lemma_unique_keys_update(old(self).models(), i as int, nv);
                    }
                    Ok(())
                } else {
                    Err(TaskManagerError::InsufficientResources)
                }
            },
        }
    }

    fn deactivate_model(&mut self, model_id: &str) -> (res: Result<(), TaskManagerError>) {
        match Self::find_model(&self.models, model_id) {
            None => Err(TaskManagerError::ModelNotFound),
            Some(i) => {
                let m = &self.models[i];
                let updated = Model {
                    id: m.id.clone(),
                    min_resources: m.min_resources,
                    active: false,
                };
                let ghost nv = updated@;
                self.models.set(i, updated);
                proof {
                    assert(self.models() =~= old(self).models().update(i as int, nv));
                    assert(self.models() =~= set_model_active(
                        old(self).models(),
                        model_id@,
                        false,
                    ));
                    lemma_unique_keys_update(old(self).models(), i as int, nv);
                }
                Ok(())
            },
        }
    }

    fn distribute_model_chunks(&mut self) -> (res: Result<(), TaskManagerError>) {
        let chunk = ModelChunk {
            id: String::from_str("chunk1"),
            user_id: String::from_str("user1"),
            data: vec![0u8; 1024],
        };
        proof {
            assert(chunk@.data =~= placeholder_chunk().data);
            assert(chunk@ =~= placeholder_chunk());
        }
        match Self::find_chunk(&self.model_chunks, chunk.id.as_str()) {
            Some(_) => Ok(()),
            None => {
                self.model_chunks.push(chunk);
                proof {
                    assert(self.chunks() =~= old(self).chunks().push(placeholder_chunk()));
                    lemma_unique_keys_push(old(self).chunks(), placeholder_chunk());
                }
                Ok(())
            },
        }
    }

    fn submit_computed_chunk(&mut self, chunk: ModelChunk) -> (res: Result<(), TaskManagerError>) {
        let ghost cv = chunk@;
        match Self::find_chunk(&self.model_chunks, chunk.id.as_str()) {
            None => Err(TaskManagerError::ModelChunkNotFound),
            Some(i) => {
                let stored = &self.model_chunks[i];
                let updated = ModelChunk {
                    id: stored.id.clone(),
                    user_id: stored.user_id.clone(),
                    data: chunk.data,
                };
                let ghost nv = updated@;
                self.model_chunks.set(i, updated);
                proof {
                    assert(self.chunks() =~= old(self).chunks().update(i as int, nv));
                    assert(self.chunks() =~= set_chunk_data(old(self).chunks(), cv.id, cv.data));
                    lemma_unique_keys_update(old(self).chunks(), i as int, nv);
                }
                self.calculate_rewards(chunk.user_id.as_str(), 1);
                Ok(())
            },
        }
    }

    fn get_model_chunks(&self, user_id: &str) -> (res: Result<Vec<ModelChunk>, TaskManagerError>) {
        let mut out: Vec<ModelChunk> = Vec::new();
        let mut i: usize = 0;
        proof {
            assert(chunk_views(out@) =~= chunks_of_user(self.chunks().take(0), user_id@));
        }
        while i < self.model_chunks.len()
            invariant
                i <= self.model_chunks@.len(),
                chunk_views(out@) == chunks_of_user(self.chunks().take(i as int), user_id@),
            decreases self.model_chunks@.len() - i,
        {
            proof {
                lemma_chunks_of_user_take_step(self.chunks(), user_id@, i as int);
            }
            if str_eq(self.model_chunks[i].user_id.as_str(), user_id) {
                let ghost before = chunk_views(out@);
                out.push(self.model_chunks[i].clone());
                proof {
                    assert(chunk_views(out@) =~= before.push(self.chunks()[i as int]));
                }
            }
            i = i + 1;
        }
        proof {
            assert(self.chunks().take(self.model_chunks@.len() as int) =~= self.chunks());
        }
        Ok(out)
    }

    fn create_training_task(&mut self, task: TrainingTask) -> (res: Result<
        String,
        TaskManagerError,
    >) {
        let ghost tv = task@;
        match Self::find_task(&self.training_tasks, task.id.as_str()) {
            Some(_) => Err(TaskManagerError::TrainingTaskAlreadyExists),
            None => {
                let task_id = task.id.clone();
                self.training_tasks.push(task);
                proof {
                    assert(self.tasks() =~= old(self).tasks().push(tv));
                    lemma_unique_keys_push(old(self).tasks(), tv);
                }
                Ok(task_id)
            },
        }
    }

    fn submit_training_results(&mut self, task_id: &str, model_weights: Vec<u8>) -> (res: Result<
        (),
        TaskManagerError,
    >) {
        let ghost wv = model_weights@;
        match Self::find_task(&self.training_tasks, task_id) {
            None => Err(TaskManagerError::TrainingTaskNotFound),
            Some(i) => {
                let t = &self.training_tasks[i];
                let updated = TrainingTask {
                    id: t.id.clone(),
                    model_id: t.model_id.clone(),
                    training_data: t.training_data.clone(),
                    model_weights: Some(model_weights),
                };
                let ghost nv = updated@;
                self.training_tasks.set(i, updated);
                proof {
                    assert(nv.model_weights == Some(wv));
                    assert(self.tasks() =~= old(self).tasks().update(i as int, nv));
                    assert(self.tasks() =~= set_task_weights(old(self).tasks(), task_id@, wv));
                    lemma_unique_keys_update(old(self).tasks(), i as int, nv);
                }
                Ok(())
            },
        }
    }

    fn get_active_models(&self, offset: usize, limit: usize) -> (res: Vec<Model>) {
        let mut act: Vec<Model> = Vec::new();
        let mut i: usize = 0;
        proof {
            assert(model_views(act@) =~= active_models(self.models().take(0)));
        }
        while i < self.models.len()
            invariant
                i <= self.models@.len(),
                model_views(act@) == active_models(self.models().take(i as int)),
            decreases self.models@.len() - i,
        {
            proof {
                lemma_active_models_take_step(self.models(), i as int);
            }
            if self.models[i].active {
                let ghost before = model_views(act@);
                act.push(self.models[i].clone());
                proof {
                    assert(model_views(act@) =~= before.push(self.models()[i as int]));
                }
            }
            i = i + 1;
        }
        proof {
            assert(self.models().take(self.models@.len() as int) =~= self.models());
        }
        Self::paginate(&act, offset, limit)
    }

    fn get_models_needing_resources(&self, offset: usize, limit: usize) -> (res: Vec<Model>) {
        let total = self.total_resources();
        let ghost true_total = sum_resources(self.users());
        let mut needy: Vec<Model> = Vec::new();
        let mut i: usize = 0;
        proof {
            assert(model_views(needy@) =~= models_needing_resources(
                self.models().take(0),
                true_total,
            ));
        }
        while i < self.models.len()
            invariant
                i <= self.models@.len(),
                model_views(needy@) == models_needing_resources(
                    self.models().take(i as int),
                    true_total,
                ),
            decreases self.models@.len() - i,
        {
            proof {
                lemma_models_needing_resources_take_step(self.models(), true_total, i as int);
            }
            if !self.models[i].active && self.models[i].min_resources > total {
                let ghost before = model_views(needy@);
                needy.push(self.models[i].clone());
                proof {
                    assert(model_views(needy@) =~= before.push(self.models()[i as int]));
                }
            }
            i = i + 1;
        }
        proof {
            assert(self.models().take(self.models@.len() as int) =~= self.models());
        }
        Self::paginate(&needy, offset, limit)
    }

    fn generate_completion(&self, prompt: &str) -> (res: Result<Completion, TaskManagerError>) {
        if prompt.unicode_len() == 0 {
            return Err(TaskManagerError::EmptyPrompt);
        }
        let firsts = self.get_active_models(0, 1);
        if firsts.len() == 0 {
            proof {
                if active_models(self.models()).len() > 0 {
                    assert(page(active_models(self.models()), 0, 1).len() == 1);
                }
            }
            return Err(TaskManagerError::NoActiveModels);
        }
        let model = &firsts[0];
        proof {
            let act = active_models(self.models());
            assert(model_views(firsts@).len() == firsts@.len());
            assert(page(act, 0, 1).len() > 0);
            assert(act.len() > 0);
            assert(page(act, 0, 1) == act.subrange(0, 1));
            assert(model_views(firsts@)[0] == act[0]);
        }
        let mut text = String::from_str("Generated text for '");
        text.append(prompt);
        text.append("' using model '");
        text.append(model.id.as_str());
        text.append("'");
        proof {
            assert(text@ =~= completion_text(prompt@, active_models(self.models())[0].id));
        }
        Ok(Completion { prompt: String::from_str(prompt), generated_text: text })
    }
}

} // verus!
