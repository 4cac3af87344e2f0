use segmented_encoder::job_db::{DbError, LocalJobDb};

fn db() -> LocalJobDb<String, String, String> {
    LocalJobDb::new()
}

fn id(a: u64, b: u64) -> u128 {
    ((a as u128) << 64) | b as u128
}

#[test]
fn get_nonexistent_job_none() {
    let manager = db();
    assert!(manager.get_job(&id(1, 1)).unwrap().is_none())
}

#[test]
fn get_job_after_create() {
    let mut manager = db();
    let job = "Job 1".to_string();
    let id = manager.create_job(job.clone()).unwrap();
    assert_eq!(manager.get_job(&id).unwrap().unwrap(), &job)
}

#[test]
fn add_task_to_nonexistent_job_error() {
    let mut manager = db();
    let first_task = manager.append_task(&id(1, 2), "Task 1".to_string(), &[]);
    assert_eq!(first_task, Err(DbError::JobNotFound))
}

#[test]
fn get_task_nonexistent_job_none() {
    let manager = db();
    assert!(manager.get_task(&id(1, 2), 0).unwrap().is_none())
}

#[test]
fn add_get_task_by_id() {
    let mut manager = db();
    let task = "Task 1".to_string();
    let job_id = manager.create_job("Job 1".to_string()).unwrap();
    let task_idx = manager.append_task(&job_id, task.clone(), &[]).unwrap();
    assert_eq!(manager.get_task(&job_id, task_idx).unwrap().unwrap(), &task)
}

#[test]
fn add_task_with_dependency_that_does_not_exist_fails() {
    let mut manager = db();
    let job_id = manager.create_job("Job 1".to_string()).unwrap();
    assert_eq!(manager.append_task(&job_id, "Task 1".to_string(), &[1000]), Err(DbError::DependencyNotFound));
}

#[test]
fn add_task_with_previous_as_dependency() {
    let mut manager = db();
    let job_id = manager.create_job("Job 1".to_string()).unwrap();
    let task_idx = manager.append_task(&job_id, "Task 1".to_string(), &[]).unwrap();
    assert!(manager.append_task(&job_id, "Task 2".to_string(), &[task_idx]).is_ok());
}

#[test]
fn add_get_all_tasks_nonexistent_job_none() {
    let manager = db();
    assert!(manager.get_tasks(&id(1, 3)).unwrap().is_none())
}

#[test]
fn add_get_all_tasks_of_job() {
    let mut manager = db();
    let task_1 = "Task 1".to_string();
    let task_2 = "Task 2".to_string();
    let job_id = manager.create_job("Job 1".to_string()).unwrap();
    manager.append_task(&job_id, task_1.clone(), &[]).unwrap();
    manager.append_task(&job_id, task_2.clone(), &[]).unwrap();
    let tasks = manager.get_tasks(&job_id).unwrap().unwrap();
    assert_eq!(tasks, vec![&task_1, &task_2])
}

#[test]
fn add_task_to_job_returns_sequencial_id() {
    let mut manager = db();
    let id = manager.create_job("Job 1".to_string()).unwrap();
    let first_task = manager.append_task(&id, "Task 1".to_string(), &[]).unwrap();
    let second_task = manager.append_task(&id, "Task 2".to_string(), &[]).unwrap();
    assert!(second_task > first_task);
    assert_eq!((first_task, second_task), (0, 1));
}

#[test]
fn allocate_task_without_any_available_returns_none() {
    let mut manager = db();
    assert!(manager.allocate_task().unwrap().is_none())
}

#[test]
fn allocate_task_returns_job_id_and_run_id() {
    let mut manager = db();
    let job_id = manager.create_job("Job 1".to_string()).unwrap();
    manager.append_task(&job_id, "Task 1".to_string(), &[]).unwrap();
    let (allocated_job_id, allocation_id) = manager.allocate_task().unwrap().unwrap();
    assert_eq!(allocated_job_id, job_id);
    assert_ne!(allocation_id, 0)
}

#[test]
fn allocate_more_than_available_return_none() {
    let mut manager = db();
    let job_id = manager.create_job("Job 1".to_string()).unwrap();
    manager.append_task(&job_id, "Task 1".to_string(), &[]).unwrap();
    let _allocated = manager.allocate_task().unwrap();
    assert!(manager.allocate_task().unwrap().is_none())
}

#[test]
fn allocate_two_tasks() {
    let mut manager = db();
    let job_id = manager.create_job("Job 1".to_string()).unwrap();
    manager.append_task(&job_id, "Task 1".to_string(), &[]).unwrap();
    manager.append_task(&job_id, "Task 2".to_string(), &[]).unwrap();
    assert!(manager.allocate_task().unwrap().is_some());
    assert!(manager.allocate_task().unwrap().is_some());
}

#[test]
fn allocate_tasks_before_dependency_fulfill_returns_none() {
    let mut manager = db();
    let job_id = manager.create_job("Job 1".to_string()).unwrap();
    let idx = manager.append_task(&job_id, "Task 1".to_string(), &[]).unwrap();
    manager.append_task(&job_id, "Task 2".to_string(), &[idx]).unwrap();
    manager.allocate_task().unwrap().expect("Should allocate first");
    assert!(manager.allocate_task().unwrap().is_none());
}

#[test]
fn allocate_tasks_after_dependency_fulfill() {
    let mut manager = db();
    let job_id = manager.create_job("Job 1".to_string()).unwrap();
    let idx = manager.append_task(&job_id, "Task 1".to_string(), &[]).unwrap();
    manager.append_task(&job_id, "Task 2".to_string(), &[idx]).unwrap();
    manager.allocate_task().unwrap().expect("Should allocate first");
    manager.fulfill(&job_id, idx).unwrap();
    assert!(manager.allocate_task().unwrap().is_some());
}

#[test]
fn fulfill_invalid_task_error() {
    let mut manager = db();
    let job_id = manager.create_job("Job 1".to_string()).unwrap();
    assert!(manager.fulfill(&job_id, 0).is_err());
}

#[test]
fn fulfill_success() {
    let mut manager = db();
    let job_id = manager.create_job("Job 1".to_string()).unwrap();
    let idx = manager.append_task(&job_id, "Task 1".to_string(), &[]).unwrap();
    assert!(manager.fulfill(&job_id, idx).is_ok());
}

#[test]
fn get_allocated_task_with_bad_job_returns_none() {
    let manager = db();
    assert!(manager.get_allocated_task(&0, &0).unwrap().is_none());
}

#[test]
fn get_allocated_task_with_bad_task_id_none() {
    let mut manager = db();
    let job_id = manager.create_job("Job 1".to_string()).unwrap();
    assert!(manager.get_allocated_task(&job_id, &0).unwrap().is_none());
}

#[test]
fn get_allocated_task_by_uuid() {
    let mut manager = db();
    let task_src = "Task 1".to_string();
    let job_id = manager.create_job("Job 1".to_string()).unwrap();
    let task_idx = manager.append_task(&job_id, task_src.clone(), &[]).unwrap();
    let (job_id, task_id) = manager.allocate_task().unwrap().unwrap();
    let allocated = manager.get_allocated_task(&job_id, &task_id).unwrap().unwrap();
    assert_eq!(allocated.task, &task_src);
    assert_eq!(allocated.job, &"Job 1".to_string());
    assert_eq!(allocated.idx, task_idx);
}

#[test]
fn get_task_status_before_set_returns_none() {
    let mut manager = db();
    let job_id = manager.create_job("Job 1".to_string()).unwrap();
    let task_idx = manager.append_task(&job_id, "Task 1".to_string(), &[]).unwrap();
    assert!(manager.get_task_status(&job_id, task_idx).unwrap().is_none());
}

#[test]
fn get_task_status_bad_job_error() {
    let manager = db();
    assert!(manager.get_task_status(&0, 0).is_err());
}

#[test]
fn get_task_status_bad_task_error() {
    let mut manager = db();
    let job_id = manager.create_job("Job 1".to_string()).unwrap();
    let task_idx = manager.append_task(&job_id, "Task 1".to_string(), &[]).unwrap();
    assert_eq!(manager.get_task_status(&job_id, task_idx + 10), Err(DbError::TaskNotFound));
}

#[test]
fn set_task_status_before_set_ok() {
    let mut manager = db();
    let job_id = manager.create_job("Job 1".to_string()).unwrap();
    let task_idx = manager.append_task(&job_id, "Task 1".to_string(), &[]).unwrap();
    assert_eq!(manager.set_task_status(&job_id, task_idx, "s".to_string()), Ok(Some(())));
}

#[test]
fn set_task_status_bad_job_none() {
    let mut manager = db();
    assert_eq!(manager.set_task_status(&0, 0, "s".to_string()), Ok(None));
}

#[test]
fn set_task_status_bad_task_none() {
    let mut manager = db();
    let job_id = manager.create_job("Job 1".to_string()).unwrap();
    let task_idx = manager.append_task(&job_id, "Task 1".to_string(), &[]).unwrap();
    assert_eq!(manager.set_task_status(&job_id, task_idx + 10, "s".to_string()), Ok(None));
}

#[test]
fn get_task_status_after_set_equals() {
    let mut manager = db();
    let status = "Task state".to_string();
    let job_id = manager.create_job("Job 1".to_string()).unwrap();
    let task_idx = manager.append_task(&job_id, "Task 1".to_string(), &[]).unwrap();
    manager.set_task_status(&job_id, task_idx, status.clone()).unwrap();
    assert_eq!(manager.get_task_status(&job_id, task_idx).unwrap().unwrap(), &status);
}

#[test]
fn list_jobs_on_empty_returns_empty_list() {
    assert!(db().list_job_ids().unwrap().is_empty())
}

#[test]
fn list_jobs_has_the_right_id() {
    let mut manager = db();
    let id = manager.create_job("JOB".to_string()).unwrap();
    let ids = manager.list_job_ids().unwrap();
    assert_eq!(ids, vec![id])
}

#[test]
fn each_task_is_handed_out_once_and_after_its_dependencies() {
    let mut manager = db();
    let job_id = manager.create_job("Job 1".to_string()).unwrap();
    let first = manager.append_task(&job_id, "Task 1".to_string(), &[]).unwrap();
    let second = manager.append_task(&job_id, "Task 2".to_string(), &[first]).unwrap();
    let (j1, run1) = manager.allocate_task().unwrap().unwrap();
    assert_eq!(j1, job_id);
    assert_eq!(manager.get_allocated_task(&job_id, &run1).unwrap().unwrap().idx, first);
    assert_eq!(manager.allocate_task().unwrap(), None);
    manager.fulfill(&job_id, first).unwrap();
    let (_, run2) = manager.allocate_task().unwrap().unwrap();
    assert_ne!(run1, run2);
    assert_eq!(manager.get_allocated_task(&job_id, &run2).unwrap().unwrap().idx, second);
    manager.fulfill(&job_id, second).unwrap();
    assert_eq!(manager.allocate_task().unwrap(), None);
    assert_eq!(manager.get_allocated_task(&job_id, &run1).unwrap().unwrap().idx, first);
}
