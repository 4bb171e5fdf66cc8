//! The Inventory Builder: scans a cluster snapshot in listing order,
//! keeps the workloads whose namespace starts with the requested prefix
//! and whose name satisfies the requested predicate, and collects one
//! record per match into a map keyed by (namespace, name). A raw
//! workload without identity is dropped; the scan goes on.

use vstd::prelude::*;
use crate::record::{
    extract_model, extract_ok, extract_record, raw_models, record_models, RawModel, RawWorkload,
    RecordModel, WorkloadRecord,
};
use crate::text::{contains_seq, contains_str, starts_with_str, str_eq};

verus! {

/// How the name predicate reads: prefix match in inventory mode,
/// substring match in command-dispatch mode.
#[derive(Clone, Copy, Debug, PartialEq, Eq, Structural)]
pub enum NameMatch {
    Prefix,
    Substring,
}

/// The name predicate, per mode.
pub open spec fn name_matches(name: Seq<char>, pattern: Seq<char>, mode: NameMatch) -> bool {
    match mode {
        NameMatch::Prefix => pattern.is_prefix_of(name),
        NameMatch::Substring => contains_seq(name, pattern),
    }
}

/// A raw workload passes the scan: it carries identity, its namespace
/// starts with the prefix, and its name satisfies the predicate.
pub open spec fn admitted(
    raw: RawModel,
    ns_prefix: Seq<char>,
    pattern: Seq<char>,
    mode: NameMatch,
) -> bool {
    &&& extract_ok(raw)
    &&& ns_prefix.is_prefix_of(raw.namespace->0)
    &&& name_matches(raw.name->0, pattern, mode)
}

/// Two records share their map key.
pub open spec fn same_key(a: RecordModel, b: RecordModel) -> bool {
    a.namespace == b.namespace && a.name == b.name
}

/// Position of the first record keyed (namespace, name), or -1.
pub open spec fn find_by_key(recs: Seq<RecordModel>, namespace: Seq<char>, name: Seq<char>) -> int
    decreases recs.len(),
{
    if recs.len() == 0 {
        -1
    } else if recs[0].namespace == namespace && recs[0].name == name {
        0
    } else {
        let rest = find_by_key(recs.drop_first(), namespace, name);
        if rest == -1 {
            -1
        } else {
            rest + 1
        }
    }
}

/// Map-style insert: replaces the record that shares the key, else appends.
pub open spec fn upsert(recs: Seq<RecordModel>, r: RecordModel) -> Seq<RecordModel> {
    let i = find_by_key(recs, r.namespace, r.name);
    if i == -1 {
        recs.push(r)
    } else {
        recs.update(i, r)
    }
}

/// The inventory a snapshot builds to: raw workloads scanned in listing
/// order, each admitted one extracted and upserted into the record map.
pub open spec fn inventory_model(
    raws: Seq<RawModel>,
    ns_prefix: Seq<char>,
    pattern: Seq<char>,
    mode: NameMatch,
) -> Seq<RecordModel>
    decreases raws.len(),
{
    if raws.len() == 0 {
        Seq::empty()
    } else {
        let rest = inventory_model(raws.drop_last(), ns_prefix, pattern, mode);
        if admitted(raws.last(), ns_prefix, pattern, mode) {
            upsert(rest, extract_model(raws.last()))
        } else {
            rest
        }
    }
}

/// No two records share a (namespace, name) key.
pub open spec fn unique_keys(recs: Seq<RecordModel>) -> bool {
    forall|i: int, j: int|
        0 <= i < j < recs.len() ==> !#[trigger] same_key(recs[i], recs[j])
}

/// `find_by_key` returns -1 exactly when no record carries the key, and
/// otherwise the least position of a record that does.
pub proof fn lemma_find_by_key(recs: Seq<RecordModel>, namespace: Seq<char>, name: Seq<char>)
    ensures
        find_by_key(recs, namespace, name) == -1 ==> forall|k: int|
            0 <= k < recs.len() ==> !((#[trigger] recs[k]).namespace == namespace && recs[k].name
                == name),
        find_by_key(recs, namespace, name) != -1 ==> {
            let i = find_by_key(recs, namespace, name);
            &&& 0 <= i < recs.len()
            &&& recs[i].namespace == namespace
            &&& recs[i].name == name
            &&& forall|k: int|
                0 <= k < i ==> !((#[trigger] recs[k]).namespace == namespace && recs[k].name
                    == name)
        },
    decreases recs.len(),
{
    if recs.len() == 0 {
    } else if recs[0].namespace == namespace && recs[0].name == name {
    } else {
        lemma_find_by_key(recs.drop_first(), namespace, name);
        assert(forall|k: int|
            1 <= k < recs.len() ==> (#[trigger] recs[k]) == recs.drop_first()[k - 1]);
    }
}

/// The position of a record with the key and none before it is what
/// `find_by_key` returns.
pub proof fn lemma_find_by_key_is(
    recs: Seq<RecordModel>,
    namespace: Seq<char>,
    name: Seq<char>,
    i: int,
)
    requires
        0 <= i < recs.len(),
        recs[i].namespace == namespace,
        recs[i].name == name,
        forall|k: int|
            0 <= k < i ==> !((#[trigger] recs[k]).namespace == namespace && recs[k].name == name),
    ensures
        find_by_key(recs, namespace, name) == i,
    decreases recs.len(),
{
    if i == 0 {
    } else {
        assert(forall|k: int|
            1 <= k < recs.len() ==> (#[trigger] recs[k]) == recs.drop_first()[k - 1]);
        lemma_find_by_key_is(recs.drop_first(), namespace, name, i - 1);
    }
}

/// When no record carries the key, `find_by_key` returns -1.
pub proof fn lemma_find_by_key_none(recs: Seq<RecordModel>, namespace: Seq<char>, name: Seq<char>)
    requires
        forall|k: int|
            0 <= k < recs.len() ==> !((#[trigger] recs[k]).namespace == namespace && recs[k].name
                == name),
    ensures
        find_by_key(recs, namespace, name) == -1,
    decreases recs.len(),
{
    if recs.len() > 0 {
        assert(forall|k: int|
            1 <= k < recs.len() ==> (#[trigger] recs[k]) == recs.drop_first()[k - 1]);
        lemma_find_by_key_none(recs.drop_first(), namespace, name);
    }
}

/// Upserting keeps the keys pairwise distinct.
pub proof fn lemma_upsert_unique(recs: Seq<RecordModel>, r: RecordModel)
    requires
        unique_keys(recs),
    ensures
        unique_keys(upsert(recs, r)),
{
    lemma_find_by_key(recs, r.namespace, r.name);
    let i = find_by_key(recs, r.namespace, r.name);
    let out = upsert(recs, r);
    if i == -1 {
        assert forall|p: int, q: int| 0 <= p < q < out.len() implies !same_key(out[p], out[q]) by {
            if q == out.len() - 1 {
                assert(!(recs[p].namespace == r.namespace && recs[p].name == r.name));
            }
        }
    } else {
        assert forall|p: int, q: int| 0 <= p < q < out.len() implies !same_key(out[p], out[q]) by {
            assert(!same_key(recs[p], recs[q]));
        }
    }
}

/// A record looks the way the Inventory Builder promises: namespace
/// under the prefix, name satisfying the predicate, embedded status
/// still empty.
pub open spec fn record_admitted(
    r: RecordModel,
    ns_prefix: Seq<char>,
    pattern: Seq<char>,
    mode: NameMatch,
) -> bool {
    &&& ns_prefix.is_prefix_of(r.namespace)
    &&& name_matches(r.name, pattern, mode)
    &&& r.embedded_status == Seq::<char>::empty()
}

/// Every record the Inventory Builder returns lies inside the requested
/// namespace prefix, satisfies the requested name predicate, and starts
/// with an empty embedded status; and the inventory is a map: no two of
/// its records share a (namespace, name) key.
pub proof fn lemma_inventory_admitted(
    raws: Seq<RawModel>,
    ns_prefix: Seq<char>,
    pattern: Seq<char>,
    mode: NameMatch,
)
    ensures
        forall|i: int|
            0 <= i < inventory_model(raws, ns_prefix, pattern, mode).len()
                ==> record_admitted(
                #[trigger] inventory_model(raws, ns_prefix, pattern, mode)[i],
                ns_prefix,
                pattern,
                mode,
            ),
        unique_keys(inventory_model(raws, ns_prefix, pattern, mode)),
    decreases raws.len(),
{
    if raws.len() == 0 {
    } else {
        lemma_inventory_admitted(raws.drop_last(), ns_prefix, pattern, mode);
        let rest = inventory_model(raws.drop_last(), ns_prefix, pattern, mode);
        let last = raws.last();
        if admitted(last, ns_prefix, pattern, mode) {
            let e = extract_model(last);
            assert(record_admitted(e, ns_prefix, pattern, mode));
            lemma_upsert_unique(rest, e);
            lemma_find_by_key(rest, e.namespace, e.name);
        }
    }
}

/// The name predicate, executed.
pub fn name_match(name: &str, pattern: &str, mode: NameMatch) -> (r: bool)
    ensures
        r == name_matches(name@, pattern@, mode),
{
    match mode {
        NameMatch::Prefix => starts_with_str(name, pattern),
        NameMatch::Substring => contains_str(name, pattern),
    }
}

/// Position of the record keyed (namespace, name), when one is held.
fn find_record(records: &Vec<WorkloadRecord>, namespace: &str, name: &str) -> (r: Option<usize>)
    ensures
        match r {
            Some(i) => i == find_by_key(record_models(records@), namespace@, name@) && i
                < records@.len(),
            None => find_by_key(record_models(records@), namespace@, name@) == -1,
        },
{
    let ghost models = record_models(records@);
    let mut i: usize = 0;
    while i < records.len()
        invariant
            models == record_models(records@),
            models.len() == records@.len(),
            i <= records@.len(),
            forall|k: int|
                0 <= k < i ==> !((#[trigger] models[k]).namespace == namespace@ && models[k].name
                    == name@),
        decreases records@.len() - i,
    {
        let rec = &records[i];
        if str_eq(rec.namespace.as_str(), namespace) && str_eq(rec.name.as_str(), name) {
            proof {
                lemma_find_by_key_is(models, namespace@, name@, i as int);
            }
            return Some(i);
        }
        i += 1;
    }
    proof {
        lemma_find_by_key_none(models, namespace@, name@);
    }
    None
}

/// Inserts a record as into a map keyed by (namespace, name).
fn upsert_record(records: &mut Vec<WorkloadRecord>, r: WorkloadRecord)
    ensures
        record_models(final(records)@) == upsert(record_models(old(records)@), r@),
{
    let idx = find_record(records, r.namespace.as_str(), r.name.as_str());
    match idx {
        Some(i) => {
            records.set(i, r);
            proof {
                assert(record_models(records@) =~= record_models(old(records)@).update(
                    idx->0 as int,
                    r@,
                ));
            }
        },
        None => {
            records.push(r);
            proof {
                assert(record_models(records@) =~= record_models(old(records)@).push(r@));
            }
        },
    }
}

/// Builds the inventory for one cluster snapshot: scans the raw
/// workloads in listing order, admits those whose namespace starts with
/// `ns_prefix` and whose name satisfies `pattern` per `mode`, extracts
/// a record for each and collects the records as a map keyed by
/// (namespace, name). Raw workloads without identity are dropped.
pub fn build_inventory(
    raws: Vec<RawWorkload>,
    ns_prefix: &str,
    pattern: &str,
    mode: NameMatch,
) -> (out: Vec<WorkloadRecord>)
    ensures
        record_models(out@) == inventory_model(raw_models(raws@), ns_prefix@, pattern@, mode),
{
    let ghost rs = raw_models(raws@);
    let mut out: Vec<WorkloadRecord> = Vec::new();
    let mut rest = raws;
    let ghost n = rs.len();
    let ghost mut i: int = 0;
    while rest.len() > 0
        invariant
            n == rs.len(),
            0 <= i <= n,
            rest@.len() == n - i,
            forall|k: int| 0 <= k < rest@.len() ==> (#[trigger] rest@[k])@ == rs[i + k],
            record_models(out@) == inventory_model(rs.take(i), ns_prefix@, pattern@, mode),
        decreases rest@.len(),
    {
        let raw = rest.remove(0);
        proof {
            assert(raw@ == rs[i]);
            assert(forall|k: int|
                0 <= k < rest@.len() ==> (#[trigger] rest@[k])@ == rs[i + 1 + k]);
        }
        let adm = match (&raw.namespace, &raw.name) {
            (Some(ns), Some(nm)) => starts_with_str(ns.as_str(), ns_prefix) && name_match(
                nm.as_str(),
                pattern,
                mode,
            ),
            _ => false,
        };
        proof {
            assert(adm == admitted(rs[i], ns_prefix@, pattern@, mode));
        }
        if adm {
            match extract_record(raw) {
                Ok(rec) => {
                    upsert_record(&mut out, rec);
                },
                Err(_) => {
                    proof {
                        assert(false);
                    }
                },
            }
        }
        proof {
            let taken = rs.take(i + 1);
            assert(taken.drop_last() =~= rs.take(i));
            assert(taken.last() == rs[i]);
            i = i + 1;
        }
    }
    proof {
        assert(rs.take(n as int) =~= rs);
    }
    out
}

} // verus!
