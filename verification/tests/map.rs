use pooled::{assemble_chunks, collect_parts, job_outcome, plan_chunks, run_chunk, Chunk, PoolError};

fn chunked_map<T, R>(inputs: &[T], workers: usize, f: impl Fn(&T) -> R) -> Vec<R> {
    let plan = plan_chunks(inputs.len(), workers);
    let parts: Vec<Vec<R>> = plan.iter().map(|c| run_chunk(inputs, *c, &f)).collect();
    assemble_chunks(parts)
}

#[test]
fn chunked_map_returns_results_in_order() {
    let inputs = vec![1, 2, 3, 4, 5];
    let values = chunked_map(&inputs, 4, |x| x * 2);
    assert_eq!(values, vec![2, 4, 6, 8, 10]);
}

#[test]
fn chunked_map_empty_input() {
    let inputs: Vec<i32> = Vec::new();
    let results = chunked_map(&inputs, 2, |x| x * 2);
    assert!(results.is_empty());
}

#[test]
fn chunked_map_keeps_failures_in_place() {
    let inputs = vec![1, 2, 3];
    let results = chunked_map(&inputs, 4, |x| {
        if *x == 2 {
            job_outcome(Err(String::from("bad input")))
        } else {
            job_outcome(Ok(x * 10))
        }
    });
    assert_eq!(results[0].as_ref().unwrap(), &10);
    assert!(matches!(&results[1], Err(PoolError::JobPanic(m)) if m == "bad input"));
    assert_eq!(results[2].as_ref().unwrap(), &30);
}

#[test]
fn chunked_map_large_input() {
    let inputs: Vec<i32> = (0..1000).collect();
    let values = chunked_map(&inputs, 4, |x| x * 2);
    let expected: Vec<i32> = (0..1000).map(|x| x * 2).collect();
    assert_eq!(values, expected);
}

#[test]
fn run_chunk_covers_only_its_chunk() {
    let inputs = vec![10, 20, 30, 40, 50];
    let part = run_chunk(&inputs, Chunk { offset: 1, len: 3 }, &|x: &i32| x + 1);
    assert_eq!(part, vec![21, 31, 41]);
    let empty = run_chunk(&inputs, Chunk { offset: 5, len: 0 }, &|x: &i32| x + 1);
    assert!(empty.is_empty());
}

#[test]
fn assemble_keeps_part_order() {
    let parts = vec![vec![1, 2], vec![], vec![3], vec![4, 5, 6]];
    assert_eq!(assemble_chunks(parts), vec![1, 2, 3, 4, 5, 6]);
    let none: Vec<Vec<u8>> = Vec::new();
    assert!(assemble_chunks(none).is_empty());
}

#[test]
fn collect_parts_refuses_an_empty_slot() {
    let full = vec![Some(vec![1, 2]), Some(vec![]), Some(vec![3])];
    assert_eq!(collect_parts(full), Some(vec![vec![1, 2], vec![], vec![3]]));
    let missing = vec![Some(vec![1]), None, Some(vec![3])];
    assert_eq!(collect_parts(missing), None);
    let none: Vec<Option<Vec<u8>>> = Vec::new();
    assert_eq!(collect_parts(none), Some(Vec::new()));
}

#[test]
fn chunked_map_matches_sequential_map() {
    let inputs: Vec<i64> = (0..37).map(|x| x * 3 - 20).collect();
    let sequential: Vec<i64> = pooled::SeqPool::new()
        .map(&inputs, |x| x * x + 1)
        .into_iter()
        .map(|r| r.unwrap())
        .collect();
    for workers in 1..10 {
        assert_eq!(chunked_map(&inputs, workers, |x| x * x + 1), sequential);
    }
}
