use vstd::prelude::*;

use crate::error::PoolError;
use crate::chunks::{
    chunk_count, chunk_holds, chunk_len, chunk_offset, held_by_chunk_below,
    lemma_chunks_partition_inputs, lemma_offset_monotone, Chunk,
};

verus! {

/// The contents of each part, in order.
pub open spec fn parts_view<X>(parts: Seq<Vec<X>>) -> Seq<Seq<X>> {
    parts.map_values(|p: Vec<X>| p@)
}

/// Runs `f` on every input of one chunk, in input order: the result at
/// position `j` is what `f` returned for input `chunk.offset + j`.
pub fn run_chunk<T, R, F>(inputs: &[T], chunk: Chunk, f: &F) -> (results: Vec<R>)
    where
        F: Fn(&T) -> R,
    requires
        chunk.offset + chunk.len <= inputs@.len(),
        forall|k: int|
            chunk.offset <= k < chunk.offset + chunk.len ==> call_requires(*f, (&inputs@[k],)),
    ensures
        results.len() == chunk.len,
        forall|j: int|
            0 <= j < chunk.len ==> call_ensures(
                *f,
                (&inputs@[chunk.offset + j],),
                #[trigger] results@[j],
            ),
{
    let mut results: Vec<R> = Vec::new();
    let n: usize = inputs.len();
    let mut j: usize = 0;
    while j < chunk.len
        invariant
            n == inputs@.len(),
            chunk.offset + chunk.len <= inputs@.len(),
            forall|k: int|
                chunk.offset <= k < chunk.offset + chunk.len ==> call_requires(*f, (&inputs@[k],)),
            j <= chunk.len,
            results.len() == j,
            forall|m: int|
                0 <= m < j ==> call_ensures(*f, (&inputs@[chunk.offset + m],), #[trigger] results@[m]),
        decreases chunk.len - j,
    {
        let idx: usize = chunk.offset + j;
        let r = f(&inputs[idx]);
        results.push(r);
        j = j + 1;
    }
    results
}

/// Puts the parts that the chunks of a map produced back together, part after
/// part, in the order given.
pub fn assemble_chunks<X>(parts: Vec<Vec<X>>) -> (results: Vec<X>)
    ensures
        results@ == parts_view(parts@).flatten(),
{
    let ghost all = parts@;
    let mut results: Vec<X> = Vec::new();
    for part in it: parts.into_iter()
        invariant
            it.seq() == all,
            results@ == parts_view(all.take(it.index() as int)).flatten(),
    {
        let ghost k = it.index() as int;
        let ghost prefix = parts_view(all.take(k));
        proof {
            assert(all.take(k + 1) =~= all.take(k).push(part));
            assert(parts_view(all.take(k + 1)) =~= prefix.push(part@));
            prefix.lemma_flatten_push(part@);
        }
        let mut part = part;
        results.append(&mut part);
    }
    proof {
        assert(all.take(all.len() as int) =~= all);
    }
    results
}

proof fn lemma_flattened_prefix<X>(parts: Seq<Seq<X>>, len: int, workers: int, c: int)
    requires
        0 < len,
        0 < workers,
        parts.len() == chunk_count(len, workers),
        0 <= c <= parts.len(),
        forall|i: int|
            0 <= i < parts.len() ==> (#[trigger] parts[i]).len() == chunk_len(
                len,
                parts.len() as int,
                i,
            ),
    ensures
        parts.take(c).flatten().len() == chunk_offset(len, parts.len() as int, c),
        forall|i: int, j: int|
            0 <= i < c && 0 <= j < parts[i].len() ==> parts.take(c).flatten()[chunk_offset(
                len,
                parts.len() as int,
                i,
            ) + j] == #[trigger] parts[i][j],
    decreases c,
{
    let count = parts.len() as int;
    lemma_chunks_partition_inputs(len, workers);
    if c == 0 {
        assert(parts.take(0) =~= Seq::<Seq<X>>::empty());
    } else {
        lemma_flattened_prefix(parts, len, workers, c - 1);
        let prev = parts.take(c - 1);
        assert(parts.take(c) =~= prev.push(parts[c - 1]));
        prev.lemma_flatten_push(parts[c - 1]);
        assert(chunk_offset(len, count, c) == chunk_offset(len, count, c - 1) + chunk_len(
            len,
            count,
            c - 1,
        ));
        assert forall|i: int, j: int|
            0 <= i < c && 0 <= j < parts[i].len() implies parts.take(c).flatten()[chunk_offset(
            len,
            count,
            i,
        ) + j] == #[trigger] parts[i][j] by {
            if i < c - 1 {
                assert(chunk_offset(len, count, i + 1) == chunk_offset(len, count, i) + chunk_len(
                    len,
                    count,
                    i,
                ));
                lemma_offset_monotone(len, count, i + 1, c - 1);
            }
        }
    }
}

/// Results that chunks produced come back in input order: where each part has
/// as many results as its chunk has inputs and relates its `j`-th result to
/// input `offset + j` of its chunk, the parts put together hold exactly one
/// result per input and relate result `i` to input `i`.
pub proof fn lemma_assembled_in_input_order<X>(
    len: int,
    workers: int,
    parts: Seq<Seq<X>>,
    rel: spec_fn(int, X) -> bool,
)
    requires
        0 <= len,
        0 < len ==> 0 < workers,
        parts.len() == chunk_count(len, workers),
        forall|c: int|
            0 <= c < parts.len() ==> (#[trigger] parts[c]).len() == chunk_len(
                len,
                parts.len() as int,
                c,
            ),
        forall|c: int, j: int|
            0 <= c < parts.len() && 0 <= j < parts[c].len() ==> rel(
                chunk_offset(len, parts.len() as int, c) + j,
                #[trigger] parts[c][j],
            ),
    ensures
        parts.flatten().len() == len,
        forall|i: int| 0 <= i < len ==> rel(i, #[trigger] parts.flatten()[i]),
{
    if len == 0 {
        assert(parts =~= Seq::<Seq<X>>::empty());
    } else {
        let count = parts.len() as int;
        lemma_chunks_partition_inputs(len, workers);
        lemma_flattened_prefix(parts, len, workers, count);
        assert(parts.take(count) =~= parts);
        assert forall|i: int| 0 <= i < len implies rel(i, #[trigger] parts.flatten()[i]) by {
            assert(held_by_chunk_below(len, count, count, i));
            let c = choose|c: int| 0 <= c < count && #[trigger] chunk_holds(len, count, c, i);
            let j = i - chunk_offset(len, count, c);
            assert(parts.flatten()[chunk_offset(len, count, c) + j] == parts[c][j]);
        }
    }
}

/// A map run chunk by chunk keeps the input order: when the inputs are split
/// as `plan_chunks` splits them and each part holds what `run_chunk` returns
/// for its chunk, `assemble_chunks` gives one result per input, and the
/// result at each index is a result of `f` on the input at that index.
pub proof fn lemma_chunked_map_in_order<T, R, F: Fn(&T) -> R>(
    inputs: Seq<T>,
    workers: int,
    f: F,
    parts: Seq<Seq<R>>,
)
    requires
        0 < inputs.len() ==> 0 < workers,
        parts.len() == chunk_count(inputs.len() as int, workers),
        forall|c: int|
            0 <= c < parts.len() ==> (#[trigger] parts[c]).len() == chunk_len(
                inputs.len() as int,
                parts.len() as int,
                c,
            ),
        forall|c: int, j: int|
            0 <= c < parts.len() && 0 <= j < parts[c].len() ==> call_ensures(
                f,
                (&inputs[chunk_offset(inputs.len() as int, parts.len() as int, c) + j],),
                #[trigger] parts[c][j],
            ),
    ensures
        parts.flatten().len() == inputs.len(),
        forall|i: int|
            0 <= i < inputs.len() ==> call_ensures(f, (&inputs[i],), #[trigger] parts.flatten()[i]),
{
    let rel = |i: int, r: R| call_ensures(f, (&inputs[i],), r);
    lemma_assembled_in_input_order(inputs.len() as int, workers, parts, rel);
    assert forall|i: int|
        0 <= i < inputs.len() implies call_ensures(f, (&inputs[i],), #[trigger] parts.flatten()[i]) by {
        assert(rel(i, parts.flatten()[i]));
    }
}

/// Takes the part out of each slot, in slot order; gives `None` where some
/// slot was left without its part.
pub fn collect_parts<X>(slots: Vec<Option<Vec<X>>>) -> (parts: Option<Vec<Vec<X>>>)
    ensures
        parts is Some <==> forall|i: int| 0 <= i < slots@.len() ==> (#[trigger] slots@[i]) is Some,
        parts matches Some(p) ==> p@.len() == slots@.len() && forall|i: int|
            0 <= i < slots@.len() ==> #[trigger] p@[i] == slots@[i]->0,
{
    let ghost all = slots@;
    let mut parts: Vec<Vec<X>> = Vec::new();
    for slot in it: slots.into_iter()
        invariant
            it.seq() == all,
            parts@.len() == it.index(),
            forall|i: int| 0 <= i < it.index() ==> (#[trigger] all[i]) is Some,
            forall|i: int| 0 <= i < it.index() ==> #[trigger] parts@[i] == all[i]->0,
    {
        match slot {
            Some(part) => parts.push(part),
            None => {
                return None;
            },
        }
    }
    Some(parts)
}

/// For a function that gives one result per input, a map run chunk by chunk
/// gives what the sequential pool gives: when the parts hold what `run_chunk`
/// returns for the chunks of `plan_chunks`, and `sequential` is what
/// `SeqPool::map` returns, `sequential` is the assembled results, each
/// wrapped in `Ok`, in the same order and whatever the number of workers.
pub proof fn lemma_chunked_map_matches_sequential<T, R, F: Fn(&T) -> R>(
    inputs: Seq<T>,
    workers: int,
    f: F,
    parts: Seq<Seq<R>>,
    sequential: Seq<Result<R, PoolError>>,
)
    requires
        forall|x: &T, a: R, b: R|
            #![trigger call_ensures(f, (x,), a), call_ensures(f, (x,), b)]
            call_ensures(f, (x,), a) && call_ensures(f, (x,), b) ==> a == b,
        0 < inputs.len() ==> 0 < workers,
        parts.len() == chunk_count(inputs.len() as int, workers),
        forall|c: int|
            0 <= c < parts.len() ==> (#[trigger] parts[c]).len() == chunk_len(
                inputs.len() as int,
                parts.len() as int,
                c,
            ),
        forall|c: int, j: int|
            0 <= c < parts.len() && 0 <= j < parts[c].len() ==> call_ensures(
                f,
                (&inputs[chunk_offset(inputs.len() as int, parts.len() as int, c) + j],),
                #[trigger] parts[c][j],
            ),
        sequential.len() == inputs.len(),
        forall|i: int|
            0 <= i < inputs.len() ==> (#[trigger] sequential[i] matches Ok(r) && call_ensures(
                f,
                (&inputs[i],),
                r,
            )),
    ensures
        sequential == parts.flatten().map_values(|r: R| Ok::<R, PoolError>(r)),
{
    lemma_chunked_map_in_order(inputs, workers, f, parts);
    let chunked = parts.flatten().map_values(|r: R| Ok::<R, PoolError>(r));
    assert forall|i: int| 0 <= i < inputs.len() implies sequential[i] == chunked[i] by {
        let r = sequential[i]->Ok_0;
        assert(call_ensures(f, (&inputs[i],), r));
        assert(call_ensures(f, (&inputs[i],), parts.flatten()[i]));
    }
    assert(sequential =~= chunked);
}

} // verus!
