use emris_network_backend::model_chunk::ModelChunk;
use emris_network_backend::task_manager::TaskManagerInterface;
use emris_network_backend::task_manager_impl::{Model, TaskManagerImpl};
use emris_network_backend::training_task::TrainingTask;
use emris_network_backend::user::User;

#[test]
fn test_register_user() {
    let mut task_manager = TaskManagerImpl::default();
    let user = User {
        id: "user1".to_string(),
        resources: 100,
        rewards: 0,
        rate_limit_tokens: 10,
    };
    let result = task_manager.register_user(user.clone());
    assert_eq!(result, Ok(user.id.clone()));
    assert!(task_manager.get_user(&user.id).is_ok());
}

#[test]
fn test_update_user_resources() {
    let mut task_manager = TaskManagerImpl::default();
    let user = User {
        id: "user1".to_string(),
        resources: 100,
        rewards: 0,
        rate_limit_tokens: 10,
    };
    task_manager.register_user(user.clone()).unwrap();
    let result = task_manager.update_user_resources(&user.id, 200);
    assert_eq!(result, Ok(()));
    assert_eq!(task_manager.get_user(&user.id).unwrap().resources, 200);
}

#[test]
fn test_register_model() {
    let mut task_manager = TaskManagerImpl::default();
    let model = Model {
        id: "model1".to_string(),
        min_resources: 500,
        active: false,
    };
    let result = task_manager.register_model(model.clone());
    assert_eq!(result, Ok(model.id.clone()));
    assert!(task_manager.get_model(&model.id).is_ok());
}

#[test]
fn test_activate_deactivate_model() {
    let mut task_manager = TaskManagerImpl::default();
    let model = Model {
        id: "model1".to_string(),
        min_resources: 500,
        active: false,
    };
    task_manager.register_model(model.clone()).unwrap();
    let user = User {
        id: "user1".to_string(),
        resources: 1000,
        rewards: 0,
        rate_limit_tokens: 10,
    };
    task_manager.register_user(user.clone()).unwrap();
    let result_activate = task_manager.activate_model(&model.id);
    assert_eq!(result_activate, Ok(()));
    assert!(task_manager.get_model(&model.id).unwrap().active);
    let result_deactivate = task_manager.deactivate_model(&model.id);
    assert_eq!(result_deactivate, Ok(()));
    assert!(!task_manager.get_model(&model.id).unwrap().active);
}

#[test]
fn test_create_training_task() {
    let mut task_manager = TaskManagerImpl::default();
    let training_task = TrainingTask {
        id: "task1".to_string(),
        model_id: "model1".to_string(),
        training_data: vec![0u8; 1024],
        model_weights: None,
    };
    let result = task_manager.create_training_task(training_task.clone());
    assert_eq!(result, Ok(training_task.id.clone()));
    assert!(task_manager.get_training_task(&training_task.id).is_ok());
}

#[test]
fn test_submit_training_results() {
    let mut task_manager = TaskManagerImpl::default();
    let training_task = TrainingTask {
        id: "task1".to_string(),
        model_id: "model1".to_string(),
        training_data: vec![0u8; 1024],
        model_weights: None,
    };
    task_manager.create_training_task(training_task.clone()).unwrap();
    let weights = vec![0u8; 1024];
    let result = task_manager.submit_training_results(&training_task.id, weights.clone());
    assert_eq!(result, Ok(()));
    assert_eq!(
        task_manager.get_training_task(&training_task.id).unwrap().model_weights,
        Some(weights)
    );
}

#[test]
fn test_get_model_chunk() {
    let mut task_manager = TaskManagerImpl::default();
    task_manager.distribute_model_chunks().unwrap();
    let result = task_manager.get_model_chunk("chunk1");
    assert_eq!(
        result,
        Ok(ModelChunk {
            id: "chunk1".to_string(),
            user_id: "user1".to_string(),
            data: vec![0u8; 1024],
        })
    );
}

#[test]
fn test_get_training_task() {
    let mut task_manager = TaskManagerImpl::default();
    let training_task = TrainingTask {
        id: "task1".to_string(),
        model_id: "model1".to_string(),
        training_data: vec![0u8; 1024],
        model_weights: None,
    };
    task_manager.create_training_task(training_task.clone()).unwrap();
    let result = task_manager.get_training_task(&training_task.id);
    assert_eq!(result, Ok(training_task.clone()));
}

#[test]
fn test_get_user() {
    let mut task_manager = TaskManagerImpl::default();
    let user = User {
        id: "user1".to_string(),
        resources: 100,
        rewards: 0,
        rate_limit_tokens: 10,
    };
    task_manager.register_user(user.clone()).unwrap();
    let result = task_manager.get_user(&user.id);
    assert_eq!(result, Ok(user.clone()));
}

#[test]
fn test_get_model() {
    let mut task_manager = TaskManagerImpl::default();
    let model = Model {
        id: "model1".to_string(),
        min_resources: 500,
        active: false,
    };
    task_manager.register_model(model.clone()).unwrap();
    let result = task_manager.get_model(&model.id);
    assert_eq!(result, Ok(model.clone()));
}
