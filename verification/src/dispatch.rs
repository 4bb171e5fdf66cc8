//! The Command Dispatcher's verified core: which per-target command
//! results become output. Dispatch is a best-effort broadcast over
//! every matching workload; a target that failed readiness or
//! execution contributes nothing and never aborts the run, and only a
//! successful, non-empty result is printed, one line per target.

use vstd::prelude::*;

verus! {

/// A per-target result worth printing: the execution succeeded and
/// produced output.
pub open spec fn printable(o: Option<Seq<char>>) -> bool {
    o is Some && o->0.len() > 0
}

/// The lines a dispatch run prints, in target order: the non-empty
/// outputs of the successful executions, failures silently skipped.
pub open spec fn outputs_model(results: Seq<Option<Seq<char>>>) -> Seq<Seq<char>>
    decreases results.len(),
{
    if results.len() == 0 {
        Seq::empty()
    } else {
        let rest = outputs_model(results.drop_last());
        if printable(results.last()) {
            rest.push(results.last()->0)
        } else {
            rest
        }
    }
}

/// Keeps the printable per-target results, in target order.
pub fn collect_outputs(results: &Vec<Option<String>>) -> (out: Vec<String>)
    ensures
        out.deep_view() == outputs_model(results.deep_view()),
{
    let ghost ms = results.deep_view();
    let mut out: Vec<String> = Vec::new();
    let mut i: usize = 0;
    while i < results.len()
        invariant
            ms == results.deep_view(),
            ms.len() == results@.len(),
            i <= results@.len(),
            out.deep_view() == outputs_model(ms.take(i as int)),
        decreases results@.len() - i,
    {
        match &results[i] {
            Some(s) => {
                if s.unicode_len() > 0 {
                    out.push(s.clone());
                }
            },
            None => {},
        }
        proof {
            let taken = ms.take(i as int + 1);
            assert(taken.drop_last() =~= ms.take(i as int));
            assert(taken.last() == ms[i as int]);
            assert(out.deep_view() =~= outputs_model(taken));
        }
        i += 1;
    }
    proof {
        assert(ms.take(results@.len() as int) =~= ms);
    }
    out
}

} // verus!
