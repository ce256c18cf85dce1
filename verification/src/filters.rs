use vstd::prelude::*;

use crate::errors::is_eval_error;
use crate::errors::{RuntimeError, RuntimeErrorEnum};
use crate::text::{push_str_chars, string_from_chars};

verus! {

/// What evaluating a filter's condition on one item gave: a boolean (`Ok(Some(..))`),
/// another value (`Ok(None)`), or an error.
pub type ConditionOutcome = Result<Option<bool>, RuntimeError>;

/// Whether a filter keeps an item, from what its condition gave: a boolean decides, any
/// other value drops the item, a field that was not found drops it too, and any other
/// error stops the filter.
pub open spec fn spec_keeps(outcome: ConditionOutcome) -> Result<bool, RuntimeError> {
    match outcome {
        Ok(Some(b)) => Ok(b),
        Ok(None) => Ok(false),
        Err(e) => if e.error is RuntimeFieldNotFound {
            Ok(false)
        } else {
            Err(e)
        },
    }
}

/// Whether a filter keeps an item, from what its condition gave.
pub fn condition_keeps(outcome: ConditionOutcome) -> (res: Result<bool, RuntimeError>)
    ensures
        res == spec_keeps(outcome),
{
    match outcome {
        Ok(Some(b)) => Ok(b),
        Ok(None) => Ok(false),
        Err(e) => {
            if matches!(e.error, RuntimeErrorEnum::RuntimeFieldNotFound(_, _)) {
                Ok(false)
            } else {
                Err(e)
            }
        },
    }
}

/// Filtering items by what the condition gave on each, in order: the positions of the
/// items kept, or the first error that stops the filter.
pub open spec fn spec_filter_positions(outcomes: Seq<ConditionOutcome>) -> Result<
    Seq<usize>,
    RuntimeError,
>
    decreases outcomes.len(),
{
    if outcomes.len() == 0 {
        Ok(Seq::empty())
    } else {
        match spec_filter_positions(outcomes.drop_last()) {
            Err(e) => Err(e),
            Ok(kept) => match spec_keeps(outcomes.last()) {
                Err(e) => Err(e),
                Ok(true) => Ok(kept.push((outcomes.len() - 1) as usize)),
                Ok(false) => Ok(kept),
            },
        }
    }
}

/// The positions of the items that a filter keeps, given what its condition gave on each
/// item in order; the first error that stops the filter is returned instead.
pub fn filter_positions(outcomes: Vec<ConditionOutcome>) -> (res: Result<Vec<usize>, RuntimeError>)
    ensures
        match spec_filter_positions(outcomes@) {
            Ok(kept) => res is Ok && res->Ok_0@ == kept,
            Err(e) => res == Err::<Vec<usize>, RuntimeError>(e),
        },
{
    let ghost all = outcomes@;
    let n = outcomes.len();
    let mut rest = outcomes;
    let mut kept: Vec<usize> = Vec::new();
    let mut i: usize = 0;
    while i < n
        invariant
            all == outcomes@,
            n == all.len(),
            i <= n,
            rest@ == all.subrange(i as int, n as int),
            spec_filter_positions(all.take(i as int)) == Ok::<Seq<usize>, RuntimeError>(kept@),
        decreases n - i,
    {
        assert(all.take(i as int + 1).drop_last() =~= all.take(i as int));
        assert(all.take(i as int + 1).last() == all[i as int]);
        let outcome = rest.remove(0);
        assert(outcome == all[i as int]);
        assert(rest@ =~= all.subrange(i as int + 1, n as int));
        match condition_keeps(outcome) {
            Err(e) => {
                proof {
                    assert(spec_keeps(all[i as int]) == Err::<bool, RuntimeError>(e));
                    assert(spec_filter_positions(all.take(i as int + 1)) == Err::<
                        Seq<usize>,
                        RuntimeError,
                    >(e));
                    lemma_filter_error_stays(all, i as int + 1, e);
                }
                return Err(e);
            },
            Ok(keep) => {
                if keep {
                    kept.push(i);
                }
            },
        }
        i = i + 1;
    }
    assert(all.take(n as int) =~= all);
    Ok(kept)
}

/// Once filtering the first `i` outcomes stops on an error, filtering all of them stops
/// on the same error.
proof fn lemma_filter_error_stays(all: Seq<ConditionOutcome>, i: int, e: RuntimeError)
    requires
        0 <= i <= all.len(),
        spec_filter_positions(all.take(i)) == Err::<Seq<usize>, RuntimeError>(e),
    ensures
        spec_filter_positions(all) == Err::<Seq<usize>, RuntimeError>(e),
    decreases all.len() - i,
{
    if i < all.len() {
        assert(all.take(i + 1).drop_last() =~= all.take(i));
        lemma_filter_error_stays(all, i + 1, e);
    } else {
        assert(all.take(i) =~= all);
    }
}

/// The message for selecting from a list with a value, shown as `shown`, that is not an
/// integer.
pub open spec fn spec_cannot_select_message(shown: Seq<char>) -> Seq<char> {
    "Cannot select a value with '"@ + shown + "'"@
}

/// Selecting by position from a list of `len` items with the value of the selector:
/// `Some(n)` for an integer `n`, `None` for any other value, shown as `shown`. A position
/// within the list is returned; a negative one or one past the end gives `None`, where the
/// list gives the missing value of its item type. A selector that is not an integer is an
/// error.
pub fn select_position(len: usize, selector: Option<i64>, shown: &str) -> (res: Result<
    Option<usize>,
    RuntimeError,
>)
    ensures
        match selector {
            Some(n) => res == Ok::<Option<usize>, RuntimeError>(
                if 0 <= n < len {
                    Some(n as usize)
                } else {
                    None
                },
            ),
            None => res is Err && is_eval_error(res->Err_0, spec_cannot_select_message(shown@)),
        },
{
    match selector {
        Some(n) => {
            if n < 0 {
                Ok(None)
            } else if (n as u64) < (len as u64) {
                Ok(Some(n as usize))
            } else {
                Ok(None)
            }
        },
        None => {
            let mut out: Vec<char> = Vec::new();
            push_str_chars(&mut out, "Cannot select a value with '");
            push_str_chars(&mut out, shown);
            push_str_chars(&mut out, "'");
            assert(out@ =~= spec_cannot_select_message(shown@));
            Err(RuntimeError::eval_error(string_from_chars(out.as_slice())))
        },
    }
}

/// A filter that does not stop keeps exactly the items whose condition gave `true`, in
/// their order.
pub proof fn lemma_filter_keeps_exactly(outcomes: Seq<ConditionOutcome>, kept: Seq<usize>)
    requires
        outcomes.len() <= usize::MAX,
        spec_filter_positions(outcomes) == Ok::<Seq<usize>, RuntimeError>(kept),
    ensures
        forall|a: int, b: int| 0 <= a < b < kept.len() ==> kept[a] < kept[b],
        forall|a: int|
            0 <= a < kept.len() ==> kept[a] < outcomes.len() && spec_keeps(outcomes[kept[a] as int])
                == Ok::<bool, RuntimeError>(true),
        forall|p: int|
            0 <= p < outcomes.len() && spec_keeps(outcomes[p]) == Ok::<bool, RuntimeError>(true)
                ==> kept.contains(p as usize),
    decreases outcomes.len(),
{
    if outcomes.len() == 0 {
        assert(kept =~= Seq::<usize>::empty());
    } else {
        let prefix = outcomes.drop_last();
        let last = (outcomes.len() - 1) as int;
        match spec_filter_positions(prefix) {
            Ok(before) => {
                lemma_filter_keeps_exactly(prefix, before);
                let keep_last = spec_keeps(outcomes.last()) == Ok::<bool, RuntimeError>(true);
                if keep_last {
                    assert(kept == before.push(last as usize));
                } else {
                    assert(kept == before);
                }
                assert forall|a: int| 0 <= a < before.len() implies before[a] < last by {
                    assert(before[a] < prefix.len());
                }
                assert forall|a: int, b: int| 0 <= a < b < kept.len() implies kept[a] < kept[b] by {
                    if b < before.len() {
                        assert(kept[a] == before[a]);
                        assert(kept[b] == before[b]);
                    } else {
                        assert(kept[a] == before[a]);
                        assert(kept[b] == last as usize);
                    }
                }
                assert forall|p: int|
                    0 <= p < outcomes.len() && spec_keeps(outcomes[p]) == Ok::<bool, RuntimeError>(
                        true,
                    ) implies kept.contains(p as usize) by {
                    if p < last {
                        assert(prefix[p] == outcomes[p]);
                        assert(before.contains(p as usize));
                        let q = choose|q: int| 0 <= q < before.len() && before[q] == p as usize;
                        assert(kept[q] == before[q]);
                    } else {
                        assert(kept[before.len() as int] == last as usize);
                    }
                }
                assert forall|a: int|
                    0 <= a < kept.len() implies kept[a] < outcomes.len() && spec_keeps(
                    outcomes[kept[a] as int],
                ) == Ok::<bool, RuntimeError>(true) by {
                    if a < before.len() {
                        assert(kept[a] == before[a]);
                        assert(prefix[before[a] as int] == outcomes[before[a] as int]);
                    } else {
                        assert(kept[a] == last as usize);
                    }
                }
            },
            Err(_) => {},
        }
    }
}

} // verus!
