//! The data model: workloads as plain records, their spec-level models,
//! and the rules that derive a record from the raw fields the cluster
//! reports. Every field the cluster may omit is optional in the raw
//! form; extraction substitutes documented defaults and fails only when
//! a workload carries no identity at all.

use vstd::prelude::*;
use crate::text::without_char;

verus! {

/// Coarse lifecycle state of a workload.
#[derive(Clone, Copy, Debug, PartialEq, Eq, Structural)]
pub enum Phase {
    Pending,
    Running,
    Terminated,
    Unknown,
}

/// Why a single raw workload was dropped from a scan: it carried no
/// usable identity. Such a record is skipped; the scan goes on.
#[derive(Clone, Copy, Debug, PartialEq, Eq, Structural)]
pub enum RecordError {
    MissingNamespace,
    MissingName,
}

/// The container-level state reported for a workload, as plain data.
/// `Absent` stands for a workload with no container status entries yet.
#[derive(Debug)]
pub enum ContainerState {
    Running,
    Terminated { reason: Option<String> },
    Waiting { reason: Option<String> },
    Absent,
}

/// Spec-level model of `ContainerState`.
pub ghost enum StateModel {
    Running,
    Terminated { reason: Option<Seq<char>> },
    Waiting { reason: Option<Seq<char>> },
    Absent,
}

impl View for ContainerState {
    type V = StateModel;

    open spec fn view(&self) -> StateModel {
        match self {
            ContainerState::Running => StateModel::Running,
            ContainerState::Terminated { reason } => StateModel::Terminated {
                reason: reason.deep_view(),
            },
            ContainerState::Waiting { reason } => StateModel::Waiting {
                reason: reason.deep_view(),
            },
            ContainerState::Absent => StateModel::Absent,
        }
    }
}

/// A workload as handed over by the caller that listed the cluster,
/// before validation: every field the cluster may omit is optional.
#[derive(Debug)]
pub struct RawWorkload {
    pub namespace: Option<String>,
    pub name: Option<String>,
    pub node: Option<String>,
    pub architecture: Option<String>,
    pub state: ContainerState,
    pub started_at: Option<String>,
}

/// Spec-level model of `RawWorkload`.
pub ghost struct RawModel {
    pub namespace: Option<Seq<char>>,
    pub name: Option<Seq<char>>,
    pub node: Option<Seq<char>>,
    pub architecture: Option<Seq<char>>,
    pub state: StateModel,
    pub started_at: Option<Seq<char>>,
}

impl View for RawWorkload {
    type V = RawModel;

    open spec fn view(&self) -> RawModel {
        RawModel {
            namespace: self.namespace.deep_view(),
            name: self.name.deep_view(),
            node: self.node.deep_view(),
            architecture: self.architecture.deep_view(),
            state: self.state@,
            started_at: self.started_at.deep_view(),
        }
    }
}

/// One inventory record. `embedded_status` stays empty unless status
/// aggregation fills it for a running workload.
#[derive(Debug)]
pub struct WorkloadRecord {
    pub namespace: String,
    pub name: String,
    pub node: String,
    pub architecture: String,
    pub phase: Phase,
    pub status_detail: String,
    pub started_at: Option<String>,
    pub embedded_status: String,
}

/// Spec-level model of `WorkloadRecord`.
pub ghost struct RecordModel {
    pub namespace: Seq<char>,
    pub name: Seq<char>,
    pub node: Seq<char>,
    pub architecture: Seq<char>,
    pub phase: Phase,
    pub status_detail: Seq<char>,
    pub started_at: Option<Seq<char>>,
    pub embedded_status: Seq<char>,
}

impl View for WorkloadRecord {
    type V = RecordModel;

    open spec fn view(&self) -> RecordModel {
        RecordModel {
            namespace: self.namespace@,
            name: self.name@,
            node: self.node@,
            architecture: self.architecture@,
            phase: self.phase,
            status_detail: self.status_detail@,
            started_at: self.started_at.deep_view(),
            embedded_status: self.embedded_status@,
        }
    }
}

/// The models of a sequence of raw workloads, in order.
pub open spec fn raw_models(s: Seq<RawWorkload>) -> Seq<RawModel> {
    s.map_values(|r: RawWorkload| r@)
}

/// The models of a sequence of records, in order.
pub open spec fn record_models(s: Seq<WorkloadRecord>) -> Seq<RecordModel> {
    s.map_values(|r: WorkloadRecord| r@)
}

/// Phase derived from the reported container state: running wins, then
/// terminated, then waiting (shown as pending); no reported state at
/// all reads as unknown.
pub open spec fn phase_of(s: StateModel) -> Phase {
    match s {
        StateModel::Running => Phase::Running,
        StateModel::Terminated { .. } => Phase::Terminated,
        StateModel::Waiting { .. } => Phase::Pending,
        StateModel::Absent => Phase::Unknown,
    }
}

/// Human-readable reason attached to a non-running state; empty when the
/// cluster reported none, and empty for a running or unknown state.
pub open spec fn detail_of(s: StateModel) -> Seq<char> {
    match s {
        StateModel::Terminated { reason: Some(r) } => r,
        StateModel::Waiting { reason: Some(r) } => r,
        _ => Seq::empty(),
    }
}

/// A raw workload carries enough identity to become a record.
pub open spec fn extract_ok(raw: RawModel) -> bool {
    raw.namespace is Some && raw.name is Some
}

/// The record a raw workload extracts to (meaningful when `extract_ok`):
/// missing node reads as "unassigned", missing architecture as "none"
/// (stray quotes in the reported value are stripped), and the embedded
/// status starts out empty.
pub open spec fn extract_model(raw: RawModel) -> RecordModel {
    RecordModel {
        namespace: raw.namespace->0,
        name: raw.name->0,
        node: match raw.node {
            Some(n) => n,
            None => "unassigned"@,
        },
        architecture: match raw.architecture {
            Some(a) => without_char(a, '"'),
            None => "none"@,
        },
        phase: phase_of(raw.state),
        status_detail: detail_of(raw.state),
        started_at: raw.started_at,
        embedded_status: Seq::empty(),
    }
}

/// Derives phase and detail from a reported container state.
pub fn classify_state(state: &ContainerState) -> (r: (Phase, String))
    ensures
        r.0 == phase_of(state@),
        r.1@ == detail_of(state@),
{
    match state {
        ContainerState::Running => (Phase::Running, String::new()),
        ContainerState::Terminated { reason: Some(r) } => (Phase::Terminated, r.clone()),
        ContainerState::Terminated { reason: None } => (Phase::Terminated, String::new()),
        ContainerState::Waiting { reason: Some(r) } => (Phase::Pending, r.clone()),
        ContainerState::Waiting { reason: None } => (Phase::Pending, String::new()),
        ContainerState::Absent => (Phase::Unknown, String::new()),
    }
}

/// Builds the record for one raw workload, or says why it was dropped.
/// Succeeds exactly when the raw workload names its namespace and name;
/// every other missing field is replaced by its documented default.
pub fn extract_record(raw: RawWorkload) -> (r: Result<WorkloadRecord, RecordError>)
    ensures
        r is Ok <==> extract_ok(raw@),
        r is Ok ==> r->Ok_0@ == extract_model(raw@),
        r is Err ==> (r->Err_0 == RecordError::MissingNamespace <==> raw@.namespace is None),
        r is Err ==> (r->Err_0 == RecordError::MissingName <==> raw@.name is None
            && raw@.namespace is Some),
{
    let RawWorkload { namespace, name, node, architecture, state, started_at } = raw;
    let ns = match namespace {
        Some(n) => n,
        None => {
            return Err(RecordError::MissingNamespace);
        },
    };
    let nm = match name {
        Some(n) => n,
        None => {
            return Err(RecordError::MissingName);
        },
    };
    let node_str = match node {
        Some(n) => n,
        None => String::from_str("unassigned"),
    };
    let arch_str = match architecture {
        Some(a) => crate::text::remove_char(a.as_str(), '"'),
        None => String::from_str("none"),
    };
    let (phase, detail) = classify_state(&state);
    Ok(WorkloadRecord {
        namespace: ns,
        name: nm,
        node: node_str,
        architecture: arch_str,
        phase,
        status_detail: detail,
        started_at,
        embedded_status: String::new(),
    })
}

} // verus!
