//! Tasks that run side by side: how they are run, and what becomes of their
//! results.

use vstd::prelude::*;

verus! {

/// How a number of tasks is run.
#[derive(Clone, Copy, Debug, PartialEq, Eq)]
pub enum AsyncPolicy {
    /// One after the other.
    Sequential,
    /// All at once, on the task that waits for them.
    FutureParallelism,
    /// All at once, each on a task of its own.
    TaskParallelism,
}

impl AsyncPolicy {
    /// Whether a task is begun before the one before it has ended.
    pub fn is_parallel(&self) -> (b: bool)
        ensures
            b == !(self is Sequential),
    {
        match self {
            AsyncPolicy::Sequential => false,
            _ => true,
        }
    }
}

/// The values of the results up to the first error.
pub open spec fn values_before_error<T, E>(results: Seq<Result<T, E>>) -> Seq<T>
    decreases results.len(),
{
    if results.len() == 0 {
        Seq::empty()
    } else {
        match results[0] {
            Ok(value) => seq![value] + values_before_error(results.drop_first()),
            Err(_) => Seq::empty(),
        }
    }
}

/// The first error among the results, where there is one.
pub open spec fn first_error<T, E>(results: Seq<Result<T, E>>) -> Option<E>
    decreases results.len(),
{
    if results.len() == 0 {
        None
    } else {
        match results[0] {
            Ok(_) => first_error(results.drop_first()),
            Err(error) => Some(error),
        }
    }
}

/// Where no result is an error, the values are as many as the results, and each
/// is the value of its result.
pub proof fn lemma_all_values<T, E>(results: Seq<Result<T, E>>)
    requires
        first_error(results) is None,
    ensures
        values_before_error(results).len() == results.len(),
        forall|i: int|
            0 <= i < results.len() ==> results[i] == Ok::<T, E>(
                #[trigger] values_before_error(results)[i],
            ),
    decreases results.len(),
{
    if results.len() > 0 {
        let rest = results.drop_first();
        lemma_all_values(rest);
        assert forall|i: int| 0 <= i < results.len() implies results[i] == Ok::<T, E>(
            #[trigger] values_before_error(results)[i],
        ) by {
            if i > 0 {
                assert(rest[i - 1] == results[i]);
                assert(values_before_error(results)[i] == values_before_error(rest)[i - 1]);
            }
        }
    }
}

/// The values of all results, or the first error among them.
pub fn try_collect<T, E>(results: Vec<Result<T, E>>) -> (r: Result<Vec<T>, E>)
    ensures
        match r {
            Ok(values) => first_error(results@) is None && values@ == values_before_error(
                results@,
            ),
            Err(error) => first_error(results@) == Some(error),
        },
{
    let ghost all = results@;
    let mut rest = crate::source::reversed(results);
    let mut values: Vec<T> = Vec::new();
    proof {
        assert(rest@.reverse() =~= all);
        assert(values@ + values_before_error(all) =~= values_before_error(all));
    }
    while rest.len() > 0
        invariant
            all == results@,
            rest@.len() <= all.len(),
            rest@.reverse() =~= all.subrange(all.len() - rest@.len(), all.len() as int),
            first_error(all) == first_error(rest@.reverse()),
            values_before_error(all) == values@ + values_before_error(rest@.reverse()),
        decreases rest@.len(),
    {
        let ghost pending = rest@.reverse();
        match rest.pop() {
            Some(result) => {
                proof {
                    assert(pending[0] == result);
                    assert(rest@.reverse() =~= pending.drop_first());
                }
                match result {
                    Ok(value) => {
                        let ghost before = values@;
                        values.push(value);
                        proof {
                            assert(before + (seq![value] + values_before_error(
                                pending.drop_first(),
                            )) =~= values@ + values_before_error(pending.drop_first()));
                        }
                    },
                    Err(error) => {
                        assert(first_error(pending) == Some(error));
                        return Err(error);
                    },
                }
            },
            None => {},
        }
    }
    proof {
        assert(rest@.reverse() =~= Seq::<Result<T, E>>::empty());
        assert(values@ + Seq::<T>::empty() =~= values@);
    }
    Ok(values)
}

} // verus!
