//! Fixed-width rendering of the inventory: one line per record. The
//! column layout is a presentation contract — architecture shows only
//! when status aggregation was requested, and the status column then
//! reads phase, a slash, and the embedded status or a dash placeholder.

use vstd::prelude::*;
use crate::record::{record_models, Phase, WorkloadRecord, RecordModel};

verus! {

/// `n` spaces.
pub open spec fn spaces(n: nat) -> Seq<char>
    decreases n,
{
    if n == 0 {
        Seq::empty()
    } else {
        spaces((n - 1) as nat).push(' ')
    }
}

/// `s` padded with spaces to width `w`; a longer value stays as it is.
pub open spec fn pad_to(s: Seq<char>, w: nat) -> Seq<char> {
    if s.len() >= w {
        s
    } else {
        s + spaces((w - s.len()) as nat)
    }
}

/// The printed name of a phase.
pub open spec fn phase_name(p: Phase) -> Seq<char> {
    match p {
        Phase::Pending => "Pending"@,
        Phase::Running => "Running"@,
        Phase::Terminated => "Terminated"@,
        Phase::Unknown => "Unknown"@,
    }
}

/// The status column: the phase alone, or — when status aggregation
/// was requested — the phase, a slash, and the embedded status (a dash
/// placeholder when there is none).
pub open spec fn status_field(r: RecordModel, with_status: bool) -> Seq<char> {
    if with_status {
        phase_name(r.phase) + "/"@ + (if r.embedded_status.len() == 0 {
            "-"@
        } else {
            r.embedded_status
        })
    } else {
        phase_name(r.phase)
    }
}

/// The start-time column: the recorded timestamp, or "none".
pub open spec fn start_field(r: RecordModel) -> Seq<char> {
    match r.started_at {
        Some(t) => t,
        None => "none"@,
    }
}

/// One fixed-width line for one record.
pub open spec fn line_model(r: RecordModel, with_status: bool) -> Seq<char> {
    if with_status {
        pad_to(r.architecture, 8) + pad_to(r.node, 25) + pad_to(r.namespace, 25) + pad_to(
            r.name,
            25,
        ) + pad_to(status_field(r, true), 20) + pad_to(start_field(r), 25)
    } else {
        pad_to(r.node, 25) + pad_to(r.namespace, 25) + pad_to(r.name, 25) + pad_to(
            status_field(r, false),
            20,
        ) + pad_to(start_field(r), 25)
    }
}

/// The printed name of a phase, executed.
pub fn phase_str(p: Phase) -> (r: &'static str)
    ensures
        r@ == phase_name(p),
{
    match p {
        Phase::Pending => "Pending",
        Phase::Running => "Running",
        Phase::Terminated => "Terminated",
        Phase::Unknown => "Unknown",
    }
}

/// Appends `s` to `out`, padded with spaces to width `w`.
fn append_padded(out: &mut String, s: &str, w: usize)
    ensures
        final(out)@ == old(out)@ + pad_to(s@, w as nat),
{
    out.append(s);
    let n = s.unicode_len();
    if n >= w {
        proof {
            assert(out@ =~= old(out)@ + pad_to(s@, w as nat));
        }
        return ;
    }
    let mut k = n;
    proof {
        assert(out@ =~= old(out)@ + s@ + spaces((k - s@.len()) as nat));
    }
    while k < w
        invariant
            n == s@.len(),
            n <= k <= w,
            out@ == old(out)@ + s@ + spaces((k - s@.len()) as nat),
        decreases w - k,
    {
        out.append(" ");
        proof {
            reveal_strlit(" ");
            assert(out@ =~= old(out)@ + s@ + spaces((k + 1 - s@.len()) as nat));
        }
        k += 1;
    }
}

/// Renders one record as one fixed-width line.
pub fn render_line(r: &WorkloadRecord, with_status: bool) -> (line: String)
    ensures
        line@ == line_model(r@, with_status),
{
    let mut line = String::new();
    if with_status {
        append_padded(&mut line, r.architecture.as_str(), 8);
    }
    append_padded(&mut line, r.node.as_str(), 25);
    append_padded(&mut line, r.namespace.as_str(), 25);
    append_padded(&mut line, r.name.as_str(), 25);
    let mut status = String::from_str(phase_str(r.phase));
    if with_status {
        status.append("/");
        if r.embedded_status.as_str().unicode_len() == 0 {
            status.append("-");
        } else {
            status.append(r.embedded_status.as_str());
        }
    }
    proof {
        assert(status@ == status_field(r@, with_status));
    }
    append_padded(&mut line, status.as_str(), 20);
    match &r.started_at {
        Some(t) => append_padded(&mut line, t.as_str(), 25),
        None => append_padded(&mut line, "none", 25),
    }
    proof {
        assert(line@ =~= line_model(r@, with_status));
    }
    line
}

/// Renders the whole inventory: exactly one line per record, in
/// inventory order.
pub fn render_inventory(records: &Vec<WorkloadRecord>, with_status: bool) -> (lines: Vec<String>)
    ensures
        lines@.len() == records@.len(),
        forall|i: int|
            0 <= i < records@.len() ==> (#[trigger] lines@[i])@ == line_model(
                record_models(records@)[i],
                with_status,
            ),
{
    let mut lines: Vec<String> = Vec::new();
    let mut i: usize = 0;
    while i < records.len()
        invariant
            i <= records@.len(),
            lines@.len() == i,
            forall|k: int|
                0 <= k < i ==> (#[trigger] lines@[k])@ == line_model(
                    record_models(records@)[k],
                    with_status,
                ),
        decreases records@.len() - i,
    {
        let line = render_line(&records[i], with_status);
        lines.push(line);
        i += 1;
    }
    lines
}

} // verus!
