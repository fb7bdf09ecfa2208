use pooled::{PoolError, SeqPool};

#[test]
fn submit_runs_synchronously() {
    let pool = SeqPool::new();

    let mut value = 0;
    pool.submit(|| {
        value = 42;
    });
    assert_eq!(value, 42);
}

#[test]
fn submit_can_borrow_local_data() {
    let pool = SeqPool::new();

    let data = vec![1, 2, 3];
    let mut sum = 0;
    pool.submit(|| {
        sum = data.iter().sum();
    });
    assert_eq!(sum, 6);
}

#[test]
fn seq_map_returns_results_in_order() {
    let pool = SeqPool::new();
    let inputs = vec![1, 2, 3, 4, 5];
    let results = pool.map(&inputs, |x| x * 2);
    let values: Vec<i32> = results.into_iter().map(|r| r.unwrap()).collect();
    assert_eq!(values, vec![2, 4, 6, 8, 10]);
}

#[test]
fn seq_map_empty_input() {
    let pool = SeqPool::new();
    let inputs: Vec<i32> = Vec::new();
    let results: Vec<Result<i32, PoolError>> = pool.map(&inputs, |x| x * 2);
    assert!(results.is_empty());
}

#[test]
fn seq_map_borrows_non_static_data() {
    let pool = SeqPool::new();
    let offset = String::from("ab");
    let inputs = vec![String::from("x"), String::from("yz")];
    let results = pool.map(&inputs, |s| format!("{}{}", offset, s));
    assert_eq!(results[0].as_ref().unwrap(), "abx");
    assert_eq!(results[1].as_ref().unwrap(), "abyz");
}
