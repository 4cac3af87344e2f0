use segmented_encoder::job_scheduler::JobScheduler;
use segmented_encoder::jobs::{FileRef, Job, JobParams, Source};

fn fake_job() -> Job {
    Job::new(Source::File(FileRef { id: 0x1111_2222_3333_4444_5555_6666_7777_8888 }), JobParams::sample_params())
}

fn scheduler() -> JobScheduler {
    JobScheduler::new(fake_job())
}

#[test]
fn do_not_segment_job_allocate_return_some() {
    assert!(scheduler().allocate().is_some());
}

#[test]
fn allocated_task_has_id() {
    let (id, _) = scheduler().allocate().expect("Should allocate");
    assert_ne!(id, 0);
}

#[test]
fn access_allocated_task_from_id() {
    let mut scheduler = scheduler();
    let (id, allocated) = scheduler.allocate().expect("Should allocate");
    assert_eq!(scheduler.get_allocated(&id), Some(&allocated));
}

#[test]
fn access_allocated_with_invalid_id_returns_none() {
    let scheduler = scheduler();
    assert!(scheduler.get_allocated(&((123u128 << 64) | 123)).is_none());
}

#[test]
fn do_not_segment_job_allocate_return_only_once() {
    let mut scheduler = scheduler();
    let _allocated = scheduler.allocate();
    assert!(scheduler.allocate().is_none());
}

#[test]
fn allocated_job_will_be_available_again_after_allocated_destruction() {
    let mut scheduler = scheduler();
    let (id, _) = scheduler.allocate().unwrap();
    assert!(scheduler.allocate().is_none(), "Second should not be allocated");
    assert!(scheduler.release(&id));
    assert!(scheduler.allocate().is_some(), "Should be allocated after first is released");
}

#[test]
fn do_not_segment_job_allocated_has_same_job_parameters() {
    let mut scheduler = scheduler();
    let (_, allocated) = scheduler.allocate().expect("Should be available");
    assert_eq!(allocated.parameters, scheduler.get_job().parameters);
    assert_eq!(allocated.input, scheduler.get_job().source);
}

#[test]
fn new_scheduler_has_zero_allocated_tasks() {
    assert_eq!(scheduler().allocated_count(), 0);
}

#[test]
fn allocate_increments_allocated_count() {
    let mut scheduler = scheduler();
    let _ = scheduler.allocate().expect("Should allocate");
    assert_eq!(scheduler.allocated_count(), 1);
}

#[test]
fn dropping_allocated_decrements_allocated_count() {
    let mut scheduler = scheduler();
    let (id, _) = scheduler.allocate().expect("Should allocate");
    assert_eq!(scheduler.allocated_count(), 1);
    scheduler.release(&id);
    assert_eq!(scheduler.allocated_count(), 0);
    assert!(!scheduler.release(&id));
}

#[test]
fn store_output_for_allocated() {
    let mut scheduler = scheduler();
    let (id, _) = scheduler.allocate().expect("Should allocate");
    assert_eq!(scheduler.set_output(&id, FileRef { id: 5 }), Some(Ok(())));
}

#[test]
fn get_output_before_set_returns_none() {
    let mut scheduler = scheduler();
    let (id, _) = scheduler.allocate().expect("Should allocate");
    assert_eq!(scheduler.get_output(&id), Some(None));
}

#[test]
fn get_output_after_set() {
    let mut scheduler = scheduler();
    let (id, _) = scheduler.allocate().expect("Should allocate");
    scheduler.set_output(&id, FileRef { id: 9 }).unwrap().expect("Should store");
    assert_eq!(scheduler.get_output(&id), Some(Some(FileRef { id: 9 })));
}

#[test]
fn store_output_only_works_one_time() {
    let mut scheduler = scheduler();
    let (id, _) = scheduler.allocate().expect("Should allocate");
    scheduler.set_output(&id, FileRef { id: 1 }).unwrap().unwrap();
    assert_eq!(scheduler.set_output(&id, FileRef { id: 2 }), Some(Err(FileRef { id: 2 })));
    assert_eq!(scheduler.get_output(&id), Some(Some(FileRef { id: 1 })));
}

#[test]
fn drop_after_store_do_not_make_available() {
    let mut scheduler = scheduler();
    let (id, _) = scheduler.allocate().expect("Should allocate");
    scheduler.set_output(&id, FileRef { id: 3 }).unwrap().unwrap();
    scheduler.release(&id);
    assert!(scheduler.allocate().is_none(), "Should not allocate again");
}

#[test]
fn unknown_allocation_has_no_output() {
    let mut scheduler = scheduler();
    assert_eq!(scheduler.set_output(&7, FileRef { id: 3 }), None);
    assert_eq!(scheduler.get_output(&7), None);
}
