use std::marker::PhantomData;
use vstd::prelude::*;

use crate::error::PoolError;

verus! {

/// A pool that offers no parallelism, this is the same as just running the passed in function.
pub struct SeqPool<'a>(PhantomData<&'a ()>);

impl<'a> SeqPool<'a> {
    /// Creates a new `SeqPool`.
    pub fn new() -> (pool: Self) {
        SeqPool(PhantomData)
    }

    /// Submit a job to be executed: it runs on the calling thread before
    /// `submit` returns.
    pub fn submit<F>(&self, f: F)
        where
            F: FnOnce(),
        requires
            call_requires(f, ()),
        ensures
            call_ensures(f, (), ()),
    {
        f()
    }

    /// Map `f` over `inputs` sequentially: the result at each index is `Ok`
    /// of what `f` returned for the input at that index.
    pub fn map<T, R, F>(&self, inputs: &[T], f: F) -> (results: Vec<Result<R, PoolError>>)
        where
            F: Fn(&T) -> R,
        requires
            forall|i: int| 0 <= i < inputs@.len() ==> call_requires(f, (&inputs@[i],)),
        ensures
            results.len() == inputs@.len(),
            forall|i: int|
                0 <= i < inputs@.len() ==> (#[trigger] results@[i] matches Ok(r) && call_ensures(
                    f,
                    (&inputs@[i],),
                    r,
                )),
    {
        let mut results: Vec<Result<R, PoolError>> = Vec::new();
        let n: usize = inputs.len();
        let mut i: usize = 0;
        while i < n
            invariant
                n == inputs@.len(),
                i <= n,
                results.len() == i,
                forall|k: int| 0 <= k < inputs@.len() ==> call_requires(f, (&inputs@[k],)),
                forall|k: int|
                    0 <= k < i ==> (#[trigger] results@[k] matches Ok(r) && call_ensures(
                        f,
                        (&inputs@[k],),
                        r,
                    )),
            decreases n - i,
        {
            let r = f(&inputs[i]);
            results.push(Ok(r));
            i = i + 1;
        }
        results
    }
}

} // verus!
