use segmented_encoder::job_db::DbError;
use segmented_encoder::manager::{JobManager, ManagerError};
use segmented_encoder::task::{Input, JobOptions, JobSource, Options, Recipe, Status, TaskSource};

fn default_job_options() -> JobOptions {
    JobOptions { video: Options { codec: Some("libx264".to_string()), params: vec![] }, audio: None }
}

fn create_job_source(input_id: u128) -> JobSource {
    JobSource { input_id, options: default_job_options() }
}

fn source_task(recipe: Recipe) -> TaskSource {
    TaskSource { inputs: vec![Input::source()], recipe }
}

#[test]
fn create_job_then_get_job() {
    let mut manager = JobManager::new();
    let id = manager.create_job(create_job_source(11)).unwrap();
    assert_eq!(manager.get_job(&id).unwrap(), Some(create_job_source(11)));
    assert_eq!(manager.get_job(&(id ^ 1)).unwrap(), None);
}

#[test]
fn allocate_task_no_available() {
    let mut manager = JobManager::new();
    assert_eq!(manager.allocate_task().unwrap(), None);
    let id = manager.create_job(create_job_source(1)).unwrap();
    assert_eq!(manager.allocate_task().unwrap(), None, "a job without tasks has nothing to allocate");
    manager.add_task_to_job(&id, source_task(Recipe::Analysis(None))).unwrap();
    let instance = manager.allocate_task().unwrap().unwrap();
    assert_eq!(instance.job_id, id);
    assert_eq!(instance.inputs, vec![Input::source()]);
    assert_eq!(instance.recipe, Recipe::Analysis(None));
    assert_eq!(instance.job_options, default_job_options());
    assert_eq!(manager.get_task(&id, &instance.task_id).unwrap(), Some(instance.clone()));
    assert_eq!(manager.allocate_task().unwrap(), None);
}

#[test]
fn add_task_to_job_passes_dependencies() {
    let mut manager = JobManager::new();
    let id = manager.create_job(create_job_source(1)).unwrap();
    assert_eq!(manager.add_task_to_job(&id, source_task(Recipe::Analysis(None))), Ok(0));
    let dependent = TaskSource { inputs: vec![Input { index: 1, start: None, end: None }], recipe: Recipe::Transcode(vec![]) };
    assert_eq!(manager.add_task_to_job(&id, dependent.clone()), Err(DbError::DependencyNotFound));
    assert_eq!(manager.add_task_to_job(&id, source_task(Recipe::Transcode(vec![]))), Ok(1));
    assert_eq!(manager.add_task_to_job(&id, dependent.clone()), Ok(2));
    assert_eq!(manager.add_task_to_job(&(id ^ 1), dependent), Err(DbError::JobNotFound));
    assert_eq!(manager.get_task_source(&id, 2).unwrap().unwrap().recipe, Recipe::Transcode(vec![]));
}

#[test]
fn finished_task_releases_its_dependents() {
    let mut manager = JobManager::new();
    let id = manager.create_job(create_job_source(1)).unwrap();
    manager.add_task_to_job(&id, source_task(Recipe::Analysis(None))).unwrap();
    manager
        .add_task_to_job(&id, TaskSource { inputs: vec![Input { index: 0, start: None, end: None }, Input { index: 0, start: None, end: None }], recipe: Recipe::Merge(vec![0]) })
        .unwrap();
    let dependent = TaskSource { inputs: vec![Input { index: 1, start: None, end: None }], recipe: Recipe::Transcode(vec![]) };
    manager.add_task_to_job(&id, dependent).unwrap();
    let first = manager.allocate_task().unwrap().unwrap();
    let second = manager.allocate_task().unwrap().unwrap();
    assert_ne!(first.task_id, second.task_id);
    assert_eq!(manager.allocate_task().unwrap(), None);
    assert_eq!(manager.update_task_status(&id, &second.task_id, Status::Running), Err(ManagerError::NotImplemented));
    assert_eq!(manager.update_task_status(&id, &(second.task_id ^ 1), Status::Finished), Ok(None));
    let merge = if second.recipe == Recipe::Merge(vec![0]) { second.task_id } else { first.task_id };
    assert_eq!(manager.update_task_status(&id, &merge, Status::Finished), Ok(Some(())));
    assert!(manager.allocate_task().unwrap().is_some());
}

#[test]
fn outputs_are_read_back() {
    let mut manager = JobManager::new();
    let id = manager.create_job(create_job_source(5)).unwrap();
    manager.add_task_to_job(&id, source_task(Recipe::Analysis(None))).unwrap();
    assert_eq!(manager.get_job_output(&id), Ok(None));
    let task = manager.allocate_task().unwrap().unwrap();
    assert_eq!(manager.get_task_output(&id, 0), Ok(None));
    assert_eq!(manager.set_task_output(&id, &task.task_id, 99), Ok(Some(())));
    assert_eq!(manager.get_task_output(&id, 0), Ok(Some(99)));
    assert_eq!(manager.get_allocated_task_output(&id, &task.task_id), Ok(Some(99)));
    assert_eq!(manager.get_job_output(&id), Ok(Some(99)));
    assert_eq!(manager.set_task_output(&id, &(task.task_id ^ 1), 98), Ok(None));
    assert_eq!(manager.get_task_output(&id, 3), Err(DbError::TaskNotFound));
    assert_eq!(manager.get_job_output(&(id ^ 1)), Err(ManagerError::Db(DbError::JobNotFound)));
}

#[test]
fn task_inputs_read_the_job_source() {
    let mut manager = JobManager::new();
    let id = manager.create_job(create_job_source(42)).unwrap();
    manager.add_task_to_job(&id, source_task(Recipe::Analysis(None))).unwrap();
    assert_eq!(manager.get_task_input(&id, 0, 0), Ok(Some(42)));
    assert_eq!(manager.get_task_input(&id, 0, 1), Err(ManagerError::InputOutOfBounds));
    assert_eq!(manager.get_task_input(&id, 1, 0), Ok(None));
    let task = manager.allocate_task().unwrap().unwrap();
    assert_eq!(manager.get_allocated_task_input(&id, &task.task_id, 0), Ok(Some(42)));
    assert_eq!(manager.get_allocated_task_input(&id, &(task.task_id ^ 1), 0), Ok(None));
}
