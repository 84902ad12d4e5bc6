//! The reconciler: given the listed records and a desired
//! `(name, kind, content)`, decide no-op, update or create. An idempotent
//! upsert keyed on `(name, kind)`: it never deletes, never touches other
//! records, and plans at most one mutating call per pass.
use vstd::prelude::*;
use vstd::string::StrSliceExecFns;

use crate::models::CloudflareDnsRecord;
use crate::models::CloudflareDnsRecordKind;
use crate::models::CloudflareZone;
use crate::models::DEFAULT_RECORD_TTL;
use crate::strutil::str_eq;

verus! {

/// Whether a record is the one keyed by `(name, kind)`.
pub open spec fn spec_record_matches(
    r: CloudflareDnsRecord,
    name: Seq<char>,
    kind: CloudflareDnsRecordKind,
) -> bool {
    r.name@ == name && r.kind == kind
}

/// The index of the first record keyed by `(name, kind)`, if any.
pub open spec fn spec_find_record(
    rs: Seq<CloudflareDnsRecord>,
    name: Seq<char>,
    kind: CloudflareDnsRecordKind,
) -> Option<int>
    decreases rs.len(),
{
    if rs.len() == 0 {
        None
    } else if spec_record_matches(rs[0], name, kind) {
        Some(0)
    } else {
        match spec_find_record(rs.drop_first(), name, kind) {
            Some(i) => Some(i + 1),
            None => None,
        }
    }
}

proof fn lemma_find_record_found(
    rs: Seq<CloudflareDnsRecord>,
    name: Seq<char>,
    kind: CloudflareDnsRecordKind,
    i: int,
)
    requires
        0 <= i < rs.len(),
        spec_record_matches(rs[i], name, kind),
        forall|k: int| 0 <= k < i ==> !spec_record_matches(rs[k], name, kind),
    ensures
        spec_find_record(rs, name, kind) == Some(i),
    decreases i,
{
    if i > 0 {
        let t = rs.drop_first();
        assert(forall|k: int| 0 <= k < t.len() ==> t[k] == rs[k + 1]);
        lemma_find_record_found(t, name, kind, i - 1);
    }
}

proof fn lemma_find_record_none(
    rs: Seq<CloudflareDnsRecord>,
    name: Seq<char>,
    kind: CloudflareDnsRecordKind,
)
    requires
        forall|k: int| 0 <= k < rs.len() ==> !spec_record_matches(rs[k], name, kind),
    ensures
        spec_find_record(rs, name, kind) is None,
    decreases rs.len(),
{
    if rs.len() > 0 {
        let t = rs.drop_first();
        assert(forall|k: int| 0 <= k < t.len() ==> t[k] == rs[k + 1]);
        lemma_find_record_none(t, name, kind);
    }
}

/// What a reconciliation pass decides to do.
pub enum ReconcileAction {
    /// The matching record already holds the desired content.
    Keep,
    /// The record at this index must have its content replaced.
    Refresh(int),
    /// No record is keyed by `(name, kind)`: one must be created.
    Add,
}

/// The decision of a reconciliation pass, at the specification level.
pub open spec fn spec_reconcile_action(
    rs: Seq<CloudflareDnsRecord>,
    name: Seq<char>,
    kind: CloudflareDnsRecordKind,
    content: Seq<char>,
) -> ReconcileAction {
    match spec_find_record(rs, name, kind) {
        Some(i) => if rs[i].content@ == content {
            ReconcileAction::Keep
        } else {
            ReconcileAction::Refresh(i)
        },
        None => ReconcileAction::Add,
    }
}

/// Law: when the matching record's content already equals the desired
/// content, the pass is a no-op: no create and no update is planned.
pub proof fn lemma_reconcile_noop(
    rs: Seq<CloudflareDnsRecord>,
    name: Seq<char>,
    kind: CloudflareDnsRecordKind,
    content: Seq<char>,
    i: int,
)
    requires
        spec_find_record(rs, name, kind) == Some(i),
        0 <= i < rs.len(),
        rs[i].content@ == content,
    ensures
        spec_reconcile_action(rs, name, kind, content) == ReconcileAction::Keep,
{
}

/// Law: with no record keyed by `(name, kind)`, the pass plans exactly
/// one creation; with a differing record, exactly one update of that
/// record.
pub proof fn lemma_reconcile_upsert(
    rs: Seq<CloudflareDnsRecord>,
    name: Seq<char>,
    kind: CloudflareDnsRecordKind,
    content: Seq<char>,
)
    ensures
        spec_find_record(rs, name, kind) is None ==> spec_reconcile_action(
            rs,
            name,
            kind,
            content,
        ) == ReconcileAction::Add,
        spec_find_record(rs, name, kind) matches Some(i) ==> (rs[i].content@ != content
            ==> spec_reconcile_action(rs, name, kind, content) == ReconcileAction::Refresh(i)),
{
}

/// The single provider call a reconciliation pass performs, if any.
#[derive(Debug)]
pub enum RecordPlan {
    /// Nothing to do: the record already holds the desired content.
    NoOp,
    /// Update the record with this provider id, in place.
    Update { record_id: String, record: CloudflareDnsRecord },
    /// Create this record.
    Create { record: CloudflareDnsRecord },
}

/// Plans one reconciliation pass over the listed records.
///
/// An update preserves every field of the existing record except
/// `content`; a creation uses the default comment, proxying and
/// time-to-live.
pub fn plan_reconciliation(
    records: &Vec<CloudflareDnsRecord>,
    name: &str,
    kind: CloudflareDnsRecordKind,
    content: &str,
) -> (r: RecordPlan)
    ensures
        ({
            match spec_reconcile_action(records@, name@, kind, content@) {
                ReconcileAction::Keep => r is NoOp,
                ReconcileAction::Refresh(i) => r matches RecordPlan::Update {
                    record_id,
                    record,
                } && record_id@ == records@[i].id@ && record.id@ == records@[i].id@
                    && record.kind == records@[i].kind && record.name@ == records@[i].name@
                    && record.content@ == content@ && record.comment == records@[i].comment
                    && record.proxied == records@[i].proxied && record.ttl == records@[i].ttl,
                ReconcileAction::Add => r matches RecordPlan::Create { record } && record.id@
                    == Seq::<char>::empty() && record.kind == kind && record.name@ == name@
                    && record.content@ == content@ && record.comment is None && record.proxied
                    == false && record.ttl == DEFAULT_RECORD_TTL,
            }
        }),
{
    let mut i: usize = 0;
    while i < records.len()
        invariant
            i <= records@.len(),
            forall|k: int| 0 <= k < i ==> !spec_record_matches(records@[k], name@, kind),
        decreases records@.len() - i,
    {
        let rec = &records[i];
        if str_eq(rec.name.as_str(), name) && rec.kind == kind {
            proof {
                lemma_find_record_found(records@, name@, kind, i as int);
            }
            if str_eq(rec.content.as_str(), content) {
                return RecordPlan::NoOp;
            }
            let comment: Option<String> = match &rec.comment {
                Some(c) => Some(c.clone()),
                None => None,
            };
            let record = CloudflareDnsRecord {
                id: rec.id.clone(),
                kind: rec.kind,
                name: rec.name.clone(),
                content: content.to_owned(),
                comment,
                proxied: rec.proxied,
                ttl: rec.ttl,
            };
            return RecordPlan::Update { record_id: rec.id.clone(), record };
        }
        i = i + 1;
    }
    proof {
        lemma_find_record_none(records@, name@, kind);
    }
    let record = CloudflareDnsRecord {
        id: String::new(),
        kind,
        name: name.to_owned(),
        content: content.to_owned(),
        comment: None,
        proxied: false,
        ttl: DEFAULT_RECORD_TTL,
    };
    RecordPlan::Create { record }
}

/// A configuration fault found at startup: the credential must resolve
/// to exactly one zone.
#[derive(Debug, Clone, Copy, PartialEq, Eq, Structural)]
pub enum ZoneSelectError {
    /// The credential is assigned to no zone.
    NoZones,
    /// The credential is assigned to more than one zone.
    MultipleZones,
}

/// Picks the single zone a credential is scoped to; zero or several
/// zones is a configuration error, not a retryable fault.
pub fn select_single_zone(zones: Vec<CloudflareZone>) -> (r: Result<
    CloudflareZone,
    ZoneSelectError,
>)
    ensures
        zones@.len() == 0 ==> (r matches Err(e) && e == ZoneSelectError::NoZones),
        zones@.len() == 1 ==> (r matches Ok(z) && z == zones@[0]),
        zones@.len() > 1 ==> (r matches Err(e) && e == ZoneSelectError::MultipleZones),
{
    let mut zones = zones;
    if zones.len() == 0 {
        Err(ZoneSelectError::NoZones)
    } else if zones.len() > 1 {
        Err(ZoneSelectError::MultipleZones)
    } else {
        match zones.pop() {
            Some(z) => Ok(z),
            None => Err(ZoneSelectError::NoZones),
        }
    }
}

} // verus!
