use sup_rs::run::error::RunError;
use sup_rs::run::threads::{PoolMsg, ThreadsPool};

#[test]
fn tasks_are_received_in_order() {
    let mut pool: ThreadsPool<u32> = ThreadsPool::new(3);
    assert_eq!(pool.worker_count(), 3);
    pool.add_task(111).unwrap();
    pool.add_task(222).unwrap();
    pool.add_task(333).unwrap();
    assert_eq!(pool.next_msg(), Some(PoolMsg::Job(111)));
    assert_eq!(pool.next_msg(), Some(PoolMsg::Job(222)));
    assert_eq!(pool.next_msg(), Some(PoolMsg::Job(333)));
    assert_eq!(pool.next_msg(), None);
}

#[test]
fn shutdown_queues_one_sentinel_per_worker_behind_the_work() {
    let mut pool: ThreadsPool<u32> = ThreadsPool::new(2);
    pool.add_task(7).unwrap();
    pool.shutdown();
    // The pending job drains before any worker sees a sentinel.
    assert_eq!(pool.next_msg(), Some(PoolMsg::Job(7)));
    assert_eq!(pool.next_msg(), Some(PoolMsg::Bye));
    assert_eq!(pool.next_msg(), Some(PoolMsg::Bye));
    assert_eq!(pool.next_msg(), None);
}

#[test]
fn a_closed_pool_refuses_tasks() {
    let mut pool: ThreadsPool<u32> = ThreadsPool::new(1);
    pool.shutdown();
    match pool.add_task(1) {
        Err(RunError::SendTaskFail(m)) => assert_eq!(m, "task queue closed"),
        other => panic!("submit after shutdown must fail, got {:?}", other),
    }
    // The refused task was not queued.
    assert_eq!(pool.next_msg(), Some(PoolMsg::Bye));
    assert_eq!(pool.next_msg(), None);
}

#[test]
fn default_pool_sizes_to_the_host() {
    let pool: ThreadsPool<u32> = ThreadsPool::new_default();
    assert!(pool.worker_count() >= 1);
}
