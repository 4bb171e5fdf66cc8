//! The Status Aggregator's verified core: parsing the output of the
//! embedded-VM introspection command, and merging per-workload results
//! back into the inventory. The caller fans the introspection queries
//! out concurrently and hands the outcomes back aligned by position;
//! a failed query arrives as no outcome and reads as status unknown.

use vstd::prelude::*;
use crate::record::{record_models, Phase, RecordModel, WorkloadRecord};
use crate::text::{find_last, last_index_of, lemma_last_index_of, remove_char, without_char};

verus! {

/// The fixed introspection command run inside a running workload to
/// list its VM domains.
pub fn introspection_command() -> (s: &'static str)
    ensures
        s@ == "virsh --quiet list --all"@,
{
    "virsh --quiet list --all"
}

/// The VM status read out of the introspection output: the last
/// space-separated token, newlines removed; empty output reads as an
/// empty status, not as an error.
pub open spec fn vm_status_model(out: Seq<char>) -> Seq<char> {
    if out.len() == 0 {
        Seq::empty()
    } else {
        without_char(out.subrange(last_index_of(out, ' ') + 1, out.len() as int), '\n')
    }
}

/// Parses the introspection output into the VM status string.
pub fn parse_vm_status(out: &str) -> (r: String)
    ensures
        r@ == vm_status_model(out@),
{
    proof {
        lemma_last_index_of(out@, ' ');
    }
    let n = out.unicode_len();
    if n == 0 {
        return String::new();
    }
    let start: usize = match find_last(out, ' ') {
        Some(i) => i + 1,
        None => 0,
    };
    let tail = out.substring_char(start, n);
    remove_char(tail, '\n')
}

/// One record after aggregation: a running workload takes the parsed
/// status of its introspection output — the sentinel "None" when the
/// query failed — and every other workload's embedded status is empty.
/// Nothing else of the record changes.
pub open spec fn apply_model(r: RecordModel, out: Option<Seq<char>>) -> RecordModel {
    RecordModel {
        embedded_status: if r.phase == Phase::Running {
            match out {
                Some(o) => vm_status_model(o),
                None => "None"@,
            }
        } else {
            Seq::empty()
        },
        ..r
    }
}

/// The whole inventory after aggregation, outcomes aligned by position.
pub open spec fn aggregate_model(
    rs: Seq<RecordModel>,
    outs: Seq<Option<Seq<char>>>,
) -> Seq<RecordModel> {
    Seq::new(rs.len(), |i: int| apply_model(rs[i], outs[i]))
}

/// Aggregation populates the embedded status only for running
/// workloads: afterwards every non-running record's embedded status is
/// empty, a record with a non-empty embedded status is running, and no
/// other field of any record has changed.
pub proof fn lemma_aggregate_only_running(rs: Seq<RecordModel>, outs: Seq<Option<Seq<char>>>)
    requires
        outs.len() == rs.len(),
    ensures
        aggregate_model(rs, outs).len() == rs.len(),
        forall|i: int|
            0 <= i < rs.len() ==> (#[trigger] aggregate_model(rs, outs)[i]).phase == rs[i].phase,
        forall|i: int|
            0 <= i < rs.len() && rs[i].phase != Phase::Running ==> (#[trigger] aggregate_model(
                rs,
                outs,
            )[i]).embedded_status == Seq::<char>::empty(),
        forall|i: int|
            0 <= i < rs.len() && (#[trigger] aggregate_model(rs, outs)[i]).embedded_status.len()
                > 0 ==> rs[i].phase == Phase::Running,
{
}

/// Aggregation is idempotent on a stable cluster: with the same
/// introspection outcomes, aggregating an already aggregated inventory
/// yields the same embedded statuses again — the same records entirely.
pub proof fn lemma_aggregate_idempotent(rs: Seq<RecordModel>, outs: Seq<Option<Seq<char>>>)
    requires
        outs.len() == rs.len(),
    ensures
        aggregate_model(aggregate_model(rs, outs), outs) == aggregate_model(rs, outs),
{
    let once = aggregate_model(rs, outs);
    let twice = aggregate_model(once, outs);
    assert forall|i: int| 0 <= i < rs.len() implies twice[i] == once[i] by {
        assert(once[i].phase == rs[i].phase);
    }
    assert(twice =~= once);
}

/// The models of the per-workload outcomes, in order.
pub open spec fn outcome_models(s: Seq<Option<String>>) -> Seq<Option<Seq<char>>> {
    s.map_values(|o: Option<String>| o.deep_view())
}

/// Merges the per-workload introspection outcomes into the inventory:
/// each running record takes its parsed VM status ("None" when the
/// query failed), every other record's embedded status is left empty,
/// and nothing else changes. Outcomes align with records by position.
pub fn aggregate_apply(records: &Vec<WorkloadRecord>, outcomes: &Vec<Option<String>>) -> (out: Vec<
    WorkloadRecord,
>)
    requires
        outcomes@.len() == records@.len(),
    ensures
        record_models(out@) == aggregate_model(record_models(records@), outcome_models(outcomes@)),
{
    let mut out: Vec<WorkloadRecord> = Vec::new();
    let mut i: usize = 0;
    while i < records.len()
        invariant
            outcomes@.len() == records@.len(),
            i <= records@.len(),
            out@.len() == i,
            forall|k: int|
                0 <= k < i ==> (#[trigger] out@[k])@ == apply_model(
                    record_models(records@)[k],
                    outcome_models(outcomes@)[k],
                ),
        decreases records@.len() - i,
    {
        let r = &records[i];
        let embedded = if r.phase == Phase::Running {
            match &outcomes[i] {
                Some(o) => parse_vm_status(o.as_str()),
                None => String::from_str("None"),
            }
        } else {
            String::new()
        };
        out.push(
            WorkloadRecord {
                namespace: r.namespace.clone(),
                name: r.name.clone(),
                node: r.node.clone(),
                architecture: r.architecture.clone(),
                phase: r.phase,
                status_detail: r.status_detail.clone(),
                started_at: match &r.started_at {
                    Some(t) => Some(t.clone()),
                    None => None,
                },
                embedded_status: embedded,
            },
        );
        i += 1;
    }
    proof {
        assert(record_models(out@) =~= aggregate_model(
            record_models(records@),
            outcome_models(outcomes@),
        ));
    }
    out
}

} // verus!
