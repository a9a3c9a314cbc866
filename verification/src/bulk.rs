//! Bulk operations: running one action over a list of items with uniform
//! error handling and a summary.

use vstd::prelude::*;

use crate::error::Error;

verus! {

/// A command that accepts structured bulk input: how one item is processed
/// and how its result is judged.
pub trait JsonInput {
    type Item;

    type ItemResult;

    fn process_item(item: Self::Item) -> Result<Self::ItemResult, Error>;

    fn is_success(result: &Self::ItemResult) -> bool;
}

/// Counts for one bulk run.
#[derive(Debug, Clone)]
pub struct BulkSummary {
    pub total: usize,
    pub succeeded: usize,
    pub failed: usize,
}

/// The outcome recorded for a single item.
#[derive(Debug)]
pub struct ItemOutcome<T> {
    pub id: String,
    pub result: Option<T>,
    pub error: Option<String>,
}

/// The whole bulk run: per-item outcomes and the summary.
#[derive(Debug)]
pub struct BulkResult<T> {
    pub action: String,
    pub results: Vec<ItemOutcome<T>>,
    pub summary: BulkSummary,
}

/// Bulk input that is just a list of component ids.
#[derive(Debug, Clone)]
pub struct BulkIdsInput {
    pub component_ids: Vec<String>,
}

/// How many of the verdicts are true.
pub open spec fn count_trues(s: Seq<bool>) -> nat
    decreases s.len(),
{
    if s.len() == 0 {
        0
    } else {
        count_trues(s.drop_last()) + (if s.last() {
            1nat
        } else {
            0nat
        })
    }
}

proof fn lemma_count_trues_snoc(s: Seq<bool>, b: bool)
    ensures
        count_trues(s.push(b)) == count_trues(s) + (if b {
            1nat
        } else {
            0nat
        }),
{
    let p = s.push(b);
    assert(p.drop_last() =~= s);
    assert(p.last() == b);
}

/// Each recorded outcome is what processing that item yielded: a kept result
/// with the judge's verdict when processing succeeded, the error's message
/// when it failed.
pub open spec fn bulk_outcomes_match<T: JsonInput>(
    items: Seq<T::Item>,
    results: Seq<ItemOutcome<T::ItemResult>>,
    verdicts: Seq<bool>,
) -> bool {
    &&& verdicts.len() == items.len()
    &&& results.len() == items.len()
    &&& forall|i: int|
        0 <= i < items.len() ==> match (#[trigger] results[i]).result {
            Some(res) => {
                &&& call_ensures(
                    T::process_item,
                    (items[i],),
                    Ok::<T::ItemResult, Error>(res),
                )
                &&& call_ensures(T::is_success, (&res,), verdicts[i])
                &&& results[i].error is None
            },
            None => {
                &&& exists|e: Error|
                    call_ensures(T::process_item, (items[i],), Err::<T::ItemResult, Error>(e))
                        && (results[i].error matches Some(m) && m@ == e.message@)
                &&& !verdicts[i]
            },
        }
}

/// Processes each item in order, collecting one outcome per item with the id
/// the extractor gave it; an item whose processing fails, or whose result is
/// judged unsuccessful, counts as failed. The exit code is 1 exactly when
/// something failed.
pub fn execute_bulk<T: JsonInput, F: Fn(&T::Item) -> String>(
    action: &str,
    items: Vec<T::Item>,
    id_extractor: F,
) -> (r: (BulkResult<T::ItemResult>, i32))
    requires
        forall|x: &T::Item| id_extractor.requires((x,)),
    ensures
        r.0.action@ == action@,
        r.0.results@.len() == items@.len(),
        forall|i: int|
            0 <= i < items@.len() ==> call_ensures(
                id_extractor,
                (&items@[i],),
                (#[trigger] r.0.results@[i]).id,
            ),
        exists|verdicts: Seq<bool>|
            bulk_outcomes_match::<T>(items@, r.0.results@, verdicts) && r.0.summary.succeeded
                == count_trues(verdicts),
        r.0.summary.total == items@.len(),
        r.0.summary.succeeded + r.0.summary.failed == items@.len(),
        r.1 == (if r.0.summary.failed > 0 {
            1int
        } else {
            0int
        }),
{
    let count = items.len();
    let ghost n = items@.len();
    let ghost orig = items@;
    let mut remaining = items;
    proof {
        assert(n == count);
        assert(remaining@ =~= orig.subrange(0, n as int));
    }
    let mut results: Vec<ItemOutcome<T::ItemResult>> = Vec::new();
    let mut succeeded: usize = 0;
    let mut failed: usize = 0;
    let ghost mut verdicts: Seq<bool> = Seq::empty();
    while remaining.len() > 0
        invariant
            forall|x: &T::Item| id_extractor.requires((x,)),
            results@.len() + remaining@.len() == n,
            n == orig.len(),
            remaining@ == orig.subrange(results@.len() as int, n as int),
            forall|i: int|
                0 <= i < results@.len() ==> call_ensures(
                    id_extractor,
                    (&orig[i],),
                    (#[trigger] results@[i]).id,
                ),
            verdicts.len() == results@.len(),
            forall|i: int|
                0 <= i < results@.len() ==> match (#[trigger] results@[i]).result {
                    Some(res) => {
                        &&& call_ensures(
                            T::process_item,
                            (orig[i],),
                            Ok::<T::ItemResult, Error>(res),
                        )
                        &&& call_ensures(T::is_success, (&res,), verdicts[i])
                        &&& results@[i].error is None
                    },
                    None => {
                        &&& exists|e: Error|
                            call_ensures(
                                T::process_item,
                                (orig[i],),
                                Err::<T::ItemResult, Error>(e),
                            ) && (results@[i].error matches Some(m) && m@ == e.message@)
                        &&& !verdicts[i]
                    },
                },
            succeeded == count_trues(verdicts),
            n <= usize::MAX,
            succeeded + failed == results@.len(),
            succeeded <= results@.len() && failed <= results@.len(),
        decreases remaining@.len(),
    {
        let ghost k = results@.len() as int;
        let ghost old_remaining = remaining@;
        let item = remaining.remove(0);
        proof {
            assert(old_remaining[0] == orig[k]);
            assert(item == orig[k]);
            assert(remaining@ =~= orig.subrange(k + 1, n as int));
        }
        let id = id_extractor(&item);
        proof {
            assert(call_ensures(id_extractor, (&orig[k],), id));
        }
        let ghost old_verdicts = verdicts;
        match T::process_item(item) {
            Ok(result) => {
                let good = T::is_success(&result);
                proof {
                    verdicts = verdicts.push(good);
                    lemma_count_trues_snoc(old_verdicts, good);
                }
                if good {
                    succeeded = succeeded + 1;
                } else {
                    failed = failed + 1;
                }
                results.push(ItemOutcome { id, result: Some(result), error: None });
            },
            Err(e) => {
                let ghost ge = e;
                proof {
                    verdicts = verdicts.push(false);
                    lemma_count_trues_snoc(old_verdicts, false);
                }
                failed = failed + 1;
                results.push(ItemOutcome { id, result: None, error: Some(e.message) });
                proof {
                    let i = results@.len() - 1;
                    assert(results@[i].error matches Some(m) && m@ == ge.message@);
                    assert(call_ensures(
                        T::process_item,
                        (orig[k],),
                        Err::<T::ItemResult, Error>(ge),
                    ));
                }
            },
        }
    }
    proof {
        assert(bulk_outcomes_match::<T>(orig, results@, verdicts));
    }
    let exit_code: i32 = if failed > 0 {
        1
    } else {
        0
    };
    let total = succeeded + failed;
    (
        BulkResult {
            action: String::from_str(action),
            results,
            summary: BulkSummary { total, succeeded, failed },
        },
        exit_code,
    )
}

} // verus!
