use vstd::prelude::*;

verus! {

/// One contiguous run of inputs that a parallel map hands to one job.
#[derive(Debug, Clone, Copy, PartialEq, Eq)]
pub struct Chunk {
    /// Index of the first input of the chunk.
    pub offset: usize,
    /// Number of inputs in the chunk.
    pub len: usize,
}

/// Number of chunks that `len` inputs are split into with `workers` workers:
/// one per worker, but never more chunks than inputs.
pub open spec fn chunk_count(len: int, workers: int) -> int {
    if workers < len {
        workers
    } else {
        len
    }
}

/// Length of chunk `i` when `len` inputs are split into `count` chunks:
/// every chunk takes `len / count` inputs, and the first `len % count`
/// chunks take one more.
pub open spec fn chunk_len(len: int, count: int, i: int) -> int {
    len / count + if i < len % count {
        1int
    } else {
        0int
    }
}

/// Index of the first input of chunk `i`: the lengths of the chunks before it,
/// added up.
pub open spec fn chunk_offset(len: int, count: int, i: int) -> int {
    i * (len / count) + if i < len % count {
        i
    } else {
        len % count
    }
}

/// Input `k` lies in one of the chunks `0..c`.
pub open spec fn held_by_chunk_below(len: int, count: int, c: int, k: int) -> bool {
    exists|i: int| 0 <= i < c && #[trigger] chunk_holds(len, count, i, k)
}

/// Input `k` lies in chunk `i`.
pub open spec fn chunk_holds(len: int, count: int, i: int, k: int) -> bool {
    chunk_offset(len, count, i) <= k < chunk_offset(len, count, i) + chunk_len(len, count, i)
}

proof fn lemma_offset_step(len: int, count: int, i: int)
    requires
        0 < count,
        0 <= i,
    ensures
        chunk_offset(len, count, i + 1) == chunk_offset(len, count, i) + chunk_len(len, count, i),
{
    let b = len / count;
    assert((i + 1) * b == i * b + b) by (nonlinear_arith);
}

pub(crate) proof fn lemma_offset_monotone(len: int, count: int, i: int, j: int)
    requires
        0 < count <= len,
        0 <= i <= j,
    ensures
        chunk_offset(len, count, i) <= chunk_offset(len, count, j),
{
    let b = len / count;
    assert(0 <= b);
    assert(i * b <= j * b) by (nonlinear_arith)
        requires
            0 <= i <= j,
            0 <= b,
    ;
}

proof fn lemma_last_offset(len: int, count: int)
    requires
        0 < count <= len,
    ensures
        chunk_offset(len, count, count) == len,
{
    vstd::arithmetic::div_mod::lemma_fundamental_div_mod(len, count);
    assert(count * (len / count) == (len / count) * count) by (nonlinear_arith);
}

proof fn lemma_covered_below(len: int, count: int, c: int)
    requires
        0 < count <= len,
        0 <= c <= count,
    ensures
        forall|k: int|
            0 <= k < chunk_offset(len, count, c) ==> #[trigger] held_by_chunk_below(
                len,
                count,
                c,
                k,
            ),
    decreases c,
{
    if c > 0 {
        lemma_covered_below(len, count, c - 1);
        lemma_offset_step(len, count, c - 1);
        assert forall|k: int| 0 <= k < chunk_offset(len, count, c) implies #[trigger] held_by_chunk_below(
            len,
            count,
            c,
            k,
        ) by {
            if k >= chunk_offset(len, count, c - 1) {
                assert(chunk_holds(len, count, c - 1, k));
            } else {
                assert(held_by_chunk_below(len, count, c - 1, k));
                let i = choose|i: int| 0 <= i < c - 1 && #[trigger] chunk_holds(len, count, i, k);
                assert(chunk_holds(len, count, i, k));
            }
        }
    } else {
        assert(chunk_offset(len, count, 0) == 0);
    }
}

/// The chunks of a plan are contiguous, none is empty, and they cover the
/// inputs: the first starts at input 0, each starts where the one before it
/// ends, the last ends at `len`, and every input lies in exactly one chunk.
pub proof fn lemma_chunks_partition_inputs(len: int, workers: int)
    requires
        0 < len,
        0 < workers,
    ensures
        ({
            let count = chunk_count(len, workers);
            &&& 0 < count <= len
            &&& chunk_offset(len, count, 0) == 0
            &&& chunk_offset(len, count, count) == len
            &&& forall|i: int|
                0 <= i < count ==> #[trigger] chunk_offset(len, count, i + 1) == chunk_offset(
                    len,
                    count,
                    i,
                ) + chunk_len(len, count, i)
            &&& forall|i: int| 0 <= i < count ==> #[trigger] chunk_len(len, count, i) >= 1
            &&& forall|k: int| 0 <= k < len ==> #[trigger] held_by_chunk_below(len, count, count, k)
            &&& forall|i: int, j: int, k: int|
                0 <= i < count && 0 <= j < count && #[trigger] chunk_holds(len, count, i, k)
                    && #[trigger] chunk_holds(len, count, j, k) ==> i == j
        }),
{
    let count = chunk_count(len, workers);
    assert(len / count >= 1) by {
        vstd::arithmetic::div_mod::lemma_div_is_ordered(count, len, count);
        vstd::arithmetic::div_mod::lemma_div_basics(count);
    }
    lemma_last_offset(len, count);
    lemma_covered_below(len, count, count);
    assert forall|i: int| 0 <= i < count implies #[trigger] chunk_offset(len, count, i + 1)
        == chunk_offset(len, count, i) + chunk_len(len, count, i) by {
        lemma_offset_step(len, count, i);
    }
    assert forall|i: int, j: int, k: int|
        0 <= i < count && 0 <= j < count && #[trigger] chunk_holds(len, count, i, k)
            && #[trigger] chunk_holds(len, count, j, k) implies i == j by {
        if i < j {
            lemma_offset_step(len, count, i);
            lemma_offset_monotone(len, count, i + 1, j);
        } else if j < i {
            lemma_offset_step(len, count, j);
            lemma_offset_monotone(len, count, j + 1, i);
        }
    }
}

/// The chunks of a plan are balanced: there are as many as there are workers,
/// or as inputs where there are fewer inputs; each holds `len / count` or
/// `len / count + 1` inputs; and no chunk is longer than one before it.
pub proof fn lemma_chunks_balanced(len: int, workers: int)
    requires
        0 < len,
        0 < workers,
    ensures
        ({
            let count = chunk_count(len, workers);
            &&& count == workers || count == len
            &&& count <= workers && count <= len
            &&& forall|i: int|
                0 <= i < count ==> #[trigger] chunk_len(len, count, i) == len / count || chunk_len(
                    len,
                    count,
                    i,
                ) == len / count + 1
            &&& forall|i: int, j: int|
                0 <= i <= j < count ==> #[trigger] chunk_len(len, count, j) <= #[trigger] chunk_len(
                    len,
                    count,
                    i,
                )
        }),
{
}

/// Splits `len` inputs into one chunk per worker, or one per input where there
/// are fewer inputs than workers, in input order; the first `len % count`
/// chunks take one input more than the others.
pub fn plan_chunks(len: usize, workers: usize) -> (plan: Vec<Chunk>)
    requires
        len > 0 ==> workers > 0,
    ensures
        plan.len() == chunk_count(len as int, workers as int),
        forall|i: int|
            0 <= i < plan.len() ==> #[trigger] plan[i].offset == chunk_offset(
                len as int,
                plan.len() as int,
                i,
            ),
        forall|i: int|
            0 <= i < plan.len() ==> #[trigger] plan[i].len == chunk_len(
                len as int,
                plan.len() as int,
                i,
            ),
{
    if len == 0 {
        return Vec::new();
    }
    let num_chunks: usize = if workers < len {
        workers
    } else {
        len
    };
    let chunk_size: usize = len / num_chunks;
    let extra: usize = len % num_chunks;
    let mut plan: Vec<Chunk> = Vec::new();
    let mut offset: usize = 0;
    let mut i: usize = 0;
    proof {
        lemma_last_offset(len as int, num_chunks as int);
    }
    while i < num_chunks
        invariant
            0 < num_chunks <= len,
            chunk_size == len / num_chunks,
            extra == len % num_chunks,
            i <= num_chunks,
            plan.len() == i,
            offset == chunk_offset(len as int, num_chunks as int, i as int),
            chunk_offset(len as int, num_chunks as int, num_chunks as int) == len,
            forall|j: int|
                0 <= j < i ==> #[trigger] plan[j].offset == chunk_offset(
                    len as int,
                    num_chunks as int,
                    j,
                ),
            forall|j: int|
                0 <= j < i ==> #[trigger] plan[j].len == chunk_len(
                    len as int,
                    num_chunks as int,
                    j,
                ),
        decreases num_chunks - i,
    {
        proof {
            lemma_offset_step(len as int, num_chunks as int, i as int);
            lemma_offset_monotone(len as int, num_chunks as int, i + 1, num_chunks as int);
            lemma_offset_monotone(len as int, num_chunks as int, 0, i as int);
        }
        let this_chunk: usize = chunk_size + if i < extra {
            1
        } else {
            0
        };
        plan.push(Chunk { offset, len: this_chunk });
        offset = offset + this_chunk;
        i = i + 1;
    }
    plan
}

} // verus!
