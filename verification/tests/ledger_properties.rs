//! Scenario and property coverage for the coordination ledger.

use emris_network_backend::errors::TaskManagerError;
use emris_network_backend::helpers::{least_prime_factor, wg_size};
use emris_network_backend::model_chunk::ModelChunk;
use emris_network_backend::task_manager::TaskManagerInterface;
use emris_network_backend::task_manager_impl::{Model, TaskManagerImpl};
use emris_network_backend::training_task::TrainingTask;
use emris_network_backend::user::User;

fn user(id: &str, resources: u64) -> User {
    User {
        id: id.to_string(),
        resources,
        rewards: 0,
        rate_limit_tokens: 10,
    }
}

fn model(id: &str, min_resources: u64) -> Model {
    Model {
        id: id.to_string(),
        min_resources,
        active: false,
    }
}

#[test]
fn duplicate_user_rejected_and_entry_untouched() {
    let mut tm = TaskManagerImpl::default();
    assert_eq!(tm.register_user(user("u1", 100)), Ok("u1".to_string()));
    let second = tm.register_user(user("u1", 999));
    assert_eq!(second, Err(TaskManagerError::UserAlreadyExists));
    assert_eq!(tm.get_user("u1").unwrap().resources, 100);
}

#[test]
fn duplicate_model_rejected_and_entry_untouched() {
    let mut tm = TaskManagerImpl::default();
    assert_eq!(tm.register_model(model("m1", 500)), Ok("m1".to_string()));
    let second = tm.register_model(model("m1", 1));
    assert_eq!(second, Err(TaskManagerError::ModelAlreadyExists));
    assert_eq!(tm.get_model("m1").unwrap().min_resources, 500);
}

#[test]
fn duplicate_training_task_rejected_and_entry_untouched() {
    let mut tm = TaskManagerImpl::default();
    let task = TrainingTask {
        id: "t1".to_string(),
        model_id: "m1".to_string(),
        training_data: vec![1, 2, 3],
        model_weights: None,
    };
    assert_eq!(tm.create_training_task(task.clone()), Ok("t1".to_string()));
    let mut clash = task.clone();
    clash.training_data = vec![9];
    assert_eq!(
        tm.create_training_task(clash),
        Err(TaskManagerError::TrainingTaskAlreadyExists)
    );
    assert_eq!(tm.get_training_task("t1").unwrap().training_data, vec![1, 2, 3]);
}

#[test]
fn resource_gate_blocks_then_admits() {
    let mut tm = TaskManagerImpl::default();
    assert_eq!(tm.register_model(model("m1", 150)), Ok("m1".to_string()));
    assert_eq!(tm.register_user(user("u1", 100)), Ok("u1".to_string()));
    assert_eq!(
        tm.activate_model("m1"),
        Err(TaskManagerError::InsufficientResources)
    );
    assert!(!tm.get_model("m1").unwrap().active);
    assert_eq!(tm.update_user_resources("u1", 200), Ok(()));
    assert_eq!(tm.activate_model("m1"), Ok(()));
    assert!(tm.get_model("m1").unwrap().active);
}

#[test]
fn lowering_resources_does_not_auto_deactivate() {
    let mut tm = TaskManagerImpl::default();
    tm.register_user(user("u1", 200)).unwrap();
    tm.register_model(model("m1", 150)).unwrap();
    assert_eq!(tm.activate_model("m1"), Ok(()));
    assert_eq!(tm.update_user_resources("u1", 10), Ok(()));
    assert!(tm.get_model("m1").unwrap().active);
    assert_eq!(tm.deactivate_model("m1"), Ok(()));
    assert!(!tm.get_model("m1").unwrap().active);
}

#[test]
fn reward_accounting_adds_one_per_accepted_submission() {
    let mut tm = TaskManagerImpl::default();
    tm.register_user(user("user1", 50)).unwrap();
    tm.distribute_model_chunks().unwrap();
    let before = tm.get_rewards("user1").unwrap();
    for round in 0..3u8 {
        let submission = ModelChunk {
            id: "chunk1".to_string(),
            user_id: "user1".to_string(),
            data: vec![round; 4],
        };
        assert_eq!(tm.submit_computed_chunk(submission), Ok(()));
    }
    assert_eq!(tm.get_rewards("user1").unwrap(), before + 3);
}

#[test]
fn chunk_submission_replaces_data_and_credits_assignee() {
    let mut tm = TaskManagerImpl::default();
    tm.register_user(user("user1", 50)).unwrap();
    tm.distribute_model_chunks().unwrap();
    let mine = tm.get_model_chunks("user1").unwrap();
    assert_eq!(mine.len(), 1);
    assert_eq!(mine[0].id, "chunk1");
    let before = tm.get_rewards("user1").unwrap();
    let submission = ModelChunk {
        id: "chunk1".to_string(),
        user_id: "user1".to_string(),
        data: vec![9, 9, 9],
    };
    assert_eq!(tm.submit_computed_chunk(submission), Ok(()));
    assert_eq!(tm.get_rewards("user1").unwrap(), before + 1);
    assert_eq!(tm.get_model_chunk("chunk1").unwrap().data, vec![9, 9, 9]);
}

#[test]
fn submitting_unknown_chunk_fails() {
    let mut tm = TaskManagerImpl::default();
    let submission = ModelChunk {
        id: "nope".to_string(),
        user_id: "user1".to_string(),
        data: vec![1],
    };
    assert_eq!(
        tm.submit_computed_chunk(submission),
        Err(TaskManagerError::ModelChunkNotFound)
    );
}

#[test]
fn distribution_is_idempotent_and_keeps_submitted_data() {
    let mut tm = TaskManagerImpl::default();
    tm.distribute_model_chunks().unwrap();
    tm.distribute_model_chunks().unwrap();
    assert_eq!(tm.get_model_chunks("user1").unwrap().len(), 1);
    let submission = ModelChunk {
        id: "chunk1".to_string(),
        user_id: "user1".to_string(),
        data: vec![7],
    };
    tm.submit_computed_chunk(submission).unwrap();
    tm.distribute_model_chunks().unwrap();
    assert_eq!(tm.get_model_chunk("chunk1").unwrap().data, vec![7]);
}

#[test]
fn get_model_chunks_filters_by_assignee() {
    let mut tm = TaskManagerImpl::default();
    tm.distribute_model_chunks().unwrap();
    assert_eq!(tm.get_model_chunks("someone_else").unwrap().len(), 0);
    let mine = tm.get_model_chunks("user1").unwrap();
    assert_eq!(mine.len(), 1);
    assert_eq!(mine[0].user_id, "user1");
}

#[test]
fn pagination_slices_the_ordered_active_set() {
    let mut tm = TaskManagerImpl::default();
    tm.register_user(user("u1", 1000)).unwrap();
    for id in ["m1", "m2", "m3", "m4", "m5"] {
        tm.register_model(model(id, 10)).unwrap();
    }
    for id in ["m1", "m3", "m4", "m5"] {
        tm.activate_model(id).unwrap();
    }
    let ids = |models: Vec<Model>| -> Vec<String> { models.into_iter().map(|m| m.id).collect() };
    assert_eq!(ids(tm.get_active_models(0, 10)), vec!["m1", "m3", "m4", "m5"]);
    assert_eq!(ids(tm.get_active_models(1, 2)), vec!["m3", "m4"]);
    assert_eq!(ids(tm.get_active_models(3, 5)), vec!["m5"]);
    assert_eq!(tm.get_active_models(4, 1).len(), 0);
    assert_eq!(tm.get_active_models(7, 3).len(), 0);
    assert_eq!(tm.get_active_models(0, 0).len(), 0);
}

#[test]
fn models_needing_resources_lists_unreachable_inactive_models() {
    let mut tm = TaskManagerImpl::default();
    tm.register_user(user("u1", 100)).unwrap();
    tm.register_model(model("cheap", 50)).unwrap();
    tm.register_model(model("costly", 150)).unwrap();
    tm.register_model(model("running", 60)).unwrap();
    tm.activate_model("running").unwrap();
    let needy = tm.get_models_needing_resources(0, 10);
    assert_eq!(needy.len(), 1);
    assert_eq!(needy[0].id, "costly");
    assert_eq!(tm.get_models_needing_resources(0, 0).len(), 0);
    assert_eq!(tm.get_models_needing_resources(1, 10).len(), 0);
}

#[test]
fn completion_rejects_empty_prompt() {
    let mut tm = TaskManagerImpl::default();
    tm.register_model(model("m1", 0)).unwrap();
    tm.activate_model("m1").unwrap();
    assert_eq!(
        tm.generate_completion(""),
        Err(TaskManagerError::EmptyPrompt)
    );
}

#[test]
fn completion_requires_an_active_model() {
    let mut tm = TaskManagerImpl::default();
    tm.register_model(model("m1", 0)).unwrap();
    assert_eq!(
        tm.generate_completion("hello"),
        Err(TaskManagerError::NoActiveModels)
    );
}

#[test]
fn completion_uses_first_active_model() {
    let mut tm = TaskManagerImpl::default();
    tm.register_model(model("m1", 0)).unwrap();
    tm.register_model(model("m2", 0)).unwrap();
    tm.activate_model("m1").unwrap();
    tm.activate_model("m2").unwrap();
    let completion = tm.generate_completion("hi").unwrap();
    assert_eq!(completion.prompt, "hi");
    assert_eq!(
        completion.generated_text,
        "Generated text for 'hi' using model 'm1'"
    );
}

#[test]
fn training_task_carries_weights_through() {
    let mut tm = TaskManagerImpl::default();
    let task = TrainingTask {
        id: "t1".to_string(),
        model_id: "m1".to_string(),
        training_data: vec![0u8; 1024],
        model_weights: None,
    };
    assert_eq!(tm.create_training_task(task), Ok("t1".to_string()));
    assert_eq!(tm.get_training_task("t1").unwrap().model_weights, None);
    assert_eq!(tm.submit_training_results("t1", vec![1, 2, 3]), Ok(()));
    assert_eq!(
        tm.get_training_task("t1").unwrap().model_weights,
        Some(vec![1, 2, 3])
    );
}

#[test]
fn resubmitted_training_results_replace_weights() {
    let mut tm = TaskManagerImpl::default();
    let task = TrainingTask {
        id: "t1".to_string(),
        model_id: "m1".to_string(),
        training_data: vec![5],
        model_weights: None,
    };
    tm.create_training_task(task).unwrap();
    tm.submit_training_results("t1", vec![1, 2, 3]).unwrap();
    tm.submit_training_results("t1", vec![4, 5]).unwrap();
    assert_eq!(
        tm.get_training_task("t1").unwrap().model_weights,
        Some(vec![4, 5])
    );
}

#[test]
fn unknown_ids_give_not_found_errors() {
    let mut tm = TaskManagerImpl::default();
    assert_eq!(
        tm.update_user_resources("ghost", 1),
        Err(TaskManagerError::UserNotFound)
    );
    assert_eq!(tm.get_rewards("ghost"), Err(TaskManagerError::UserNotFound));
    assert_eq!(tm.get_user("ghost"), Err(TaskManagerError::UserNotFound));
    assert_eq!(
        tm.activate_model("ghost"),
        Err(TaskManagerError::ModelNotFound)
    );
    assert_eq!(
        tm.deactivate_model("ghost"),
        Err(TaskManagerError::ModelNotFound)
    );
    assert_eq!(tm.get_model("ghost"), Err(TaskManagerError::ModelNotFound));
    assert_eq!(
        tm.get_model_chunk("ghost"),
        Err(TaskManagerError::ModelChunkNotFound)
    );
    assert_eq!(
        tm.submit_training_results("ghost", vec![1]),
        Err(TaskManagerError::TrainingTaskNotFound)
    );
    assert_eq!(
        tm.get_training_task("ghost"),
        Err(TaskManagerError::TrainingTaskNotFound)
    );
}

#[test]
fn admin_gate_refuses_until_credential_matches() {
    let mut tm = TaskManagerImpl::default();
    assert_eq!(
        tm.admin_register_model("whoever", model("m1", 10)),
        Err(TaskManagerError::UnauthorizedAccess)
    );
    tm.set_admin_credential("letmein".to_string());
    assert_eq!(
        tm.admin_register_model("wrong", model("m1", 10)),
        Err(TaskManagerError::UnauthorizedAccess)
    );
    assert!(tm.get_model("m1").is_err());
    assert_eq!(
        tm.admin_register_model("letmein", model("m1", 0)),
        Ok("m1".to_string())
    );
    assert_eq!(tm.admin_activate_model("letmein", "m1"), Ok(()));
    assert!(tm.get_model("m1").unwrap().active);
    assert_eq!(
        tm.admin_deactivate_model("wrong", "m1"),
        Err(TaskManagerError::UnauthorizedAccess)
    );
    assert!(tm.get_model("m1").unwrap().active);
    assert_eq!(tm.admin_deactivate_model("letmein", "m1"), Ok(()));
    let task = TrainingTask {
        id: "t1".to_string(),
        model_id: "m1".to_string(),
        training_data: vec![1],
        model_weights: None,
    };
    assert_eq!(
        tm.admin_create_training_task("wrong", task.clone()),
        Err(TaskManagerError::UnauthorizedAccess)
    );
    assert_eq!(
        tm.admin_create_training_task("letmein", task),
        Ok("t1".to_string())
    );
}

#[test]
fn error_messages_render_the_documented_strings() {
    assert_eq!(
        TaskManagerError::UserAlreadyExists.message(),
        "User already exists."
    );
    assert_eq!(TaskManagerError::UserNotFound.message(), "User not found.");
    assert_eq!(
        TaskManagerError::ModelAlreadyExists.message(),
        "Model already exists."
    );
    assert_eq!(TaskManagerError::ModelNotFound.message(), "Model not found.");
    assert_eq!(
        TaskManagerError::ModelChunkNotFound.message(),
        "Model chunk not found."
    );
    assert_eq!(
        TaskManagerError::TrainingTaskAlreadyExists.message(),
        "Training task already exists."
    );
    assert_eq!(
        TaskManagerError::TrainingTaskNotFound.message(),
        "Training task not found."
    );
    assert_eq!(
        TaskManagerError::InsufficientResources.message(),
        "Insufficient resources to activate the model."
    );
    assert_eq!(
        TaskManagerError::EmptyPrompt.message(),
        "Prompt cannot be empty."
    );
    assert_eq!(
        TaskManagerError::NoActiveModels.message(),
        "No active models available."
    );
    assert_eq!(
        TaskManagerError::UnauthorizedAccess.message(),
        "Unauthorized access."
    );
    assert_eq!(
        TaskManagerError::RwLockPoisoned.message(),
        "Internal error: RwLock is poisoned."
    );
    assert_eq!(
        TaskManagerError::GpuComputationFailed("shader".to_string()).message(),
        "GPU computation failed."
    );
}

#[test]
fn init_changes_nothing() {
    let mut tm = TaskManagerImpl::default();
    tm.register_user(user("u1", 100)).unwrap();
    tm.init();
    assert_eq!(tm.get_user("u1").unwrap().resources, 100);
}

#[test]
fn workgroup_sizing_rounds_up_and_caps() {
    assert_eq!(wg_size(10, 4), 3);
    assert_eq!(wg_size(0, 4), 0);
    assert_eq!(wg_size(8, 4), 2);
    assert_eq!(wg_size(4096, 1), 256);
}

#[test]
fn least_prime_factor_scans_from_start() {
    assert_eq!(least_prime_factor(15, 2), 3);
    assert_eq!(least_prime_factor(13, 2), 13);
    assert_eq!(least_prime_factor(49, 2), 7);
    assert_eq!(least_prime_factor(100, 3), 4);
    assert_eq!(least_prime_factor(1, 1), 1);
}
