//! Cross-store replay consistency checker and divergence taxonomy contracts.
//!
//! The checker reads, from the runtime snapshot, its state version and
//! cursor, and from the channel, message and task snapshots, their schema
//! versions and record counts; it reports the first failing check of a fixed
//! sequence (presence, schema, runtime continuity, cardinality).
use vstd::prelude::*;
use crate::text::{
    concat, dec_seq, dec_string, join_seqs, lemma_split_on_concat, lemma_split_on_no_sep, split_on,
};

verus! {

pub const CROSS_STORE_REPLAY_REASON_TAXONOMY_VERSION: &'static str =
    "kamn.runtime.cross-store-replay-consistency-reason-taxonomy.v1";
pub const CROSS_STORE_REPLAY_REASON_CODES_CSV: &'static str = "none,cross_store_replay_divergence_all_snapshots_missing,cross_store_replay_divergence_runtime_snapshot_missing,cross_store_replay_divergence_channel_snapshot_missing,cross_store_replay_divergence_message_snapshot_missing,cross_store_replay_divergence_task_snapshot_missing,cross_store_replay_divergence_channel_schema_version_mismatch,cross_store_replay_divergence_message_schema_version_mismatch,cross_store_replay_divergence_task_schema_version_mismatch,cross_store_replay_divergence_runtime_cursor_state_version_mismatch,cross_store_replay_divergence_aggregate_records_missing_for_advanced_runtime_state,cross_store_replay_divergence_aggregate_records_exceed_runtime_cursor";
/// Source marker carried by every report.
pub const CROSS_STORE_REPLAY_SOURCE_MARKER: &'static str = "cross_store_replay_consistency_checker";

/// Deterministic status emitted by the cross-store replay consistency checker.
#[derive(Debug, Clone, Copy, PartialEq, Eq, Structural)]
pub enum CrossStoreReplayConsistencyStatus {
    /// All required cross-store checks passed.
    Consistent,
    /// One or more cross-store checks failed.
    Divergent,
}

/// Deterministic divergence classes for replay consistency failures.
#[derive(Debug, Clone, Copy, PartialEq, Eq, Structural)]
pub enum CrossStoreReplayDivergenceClass {
    /// No divergence was detected.
    Consistent,
    /// Snapshot presence drift across required stores.
    PresenceDrift,
    /// Snapshot schema-version drift across required stores.
    SchemaDrift,
    /// Runtime snapshot continuity drift for state_version/cursor contracts.
    RuntimeContinuityDrift,
    /// Cross-store cardinality drift between runtime cursor and domain records.
    CardinalityDrift,
}

/// What the checker reads from a runtime snapshot.
#[derive(Debug, Clone, Copy, PartialEq, Eq, Structural)]
pub struct RuntimeSnapshotSummary {
    pub state_version: u64,
    pub cursor: u64,
}

/// What the checker reads from a channel, message or task snapshot.
#[derive(Debug, Clone, Copy, PartialEq, Eq, Structural)]
pub struct StoreSnapshotSummary {
    pub schema_version: u16,
    pub record_count: usize,
}

/// The schema versions the channel, message and task stores must carry.
#[derive(Debug, Clone, Copy, PartialEq, Eq, Structural)]
pub struct CrossStoreSchemaVersions {
    pub channel: u16,
    pub message: u16,
    pub task: u16,
}

/// Numbers rendered in decimal in fingerprints.
pub trait DecimalValue {
    spec fn spec_value(&self) -> nat;

    fn render(&self) -> (s: String)
        ensures
            s@ == dec_seq(self.spec_value()),
    ;
}

impl DecimalValue for u64 {
    open spec fn spec_value(&self) -> nat {
        *self as nat
    }

    fn render(&self) -> (s: String) {
        dec_string(*self)
    }
}

impl DecimalValue for u16 {
    open spec fn spec_value(&self) -> nat {
        *self as nat
    }

    fn render(&self) -> (s: String) {
        dec_string(*self as u64)
    }
}

impl DecimalValue for usize {
    open spec fn spec_value(&self) -> nat {
        *self as nat
    }

    fn render(&self) -> (s: String) {
        dec_string(*self as u64)
    }
}

/// An optional number as text: its decimal digits, or `none`.
pub open spec fn render_opt_text(v: Option<nat>) -> Seq<char> {
    match v {
        Some(n) => dec_seq(n),
        None => "none"@,
    }
}

/// Renders an optional number: its decimal digits, or `none`.
pub fn render_opt<T: DecimalValue>(value: Option<T>) -> (s: String)
    ensures
        s@ == render_opt_text(
            match value {
                Some(v) => Some(v.spec_value()),
                None => None,
            },
        ),
{
    match value {
        Some(v) => v.render(),
        None => "none".to_owned(),
    }
}

/// Returns the reason taxonomy marker.
pub fn cross_store_replay_reason_taxonomy_version() -> (s: &'static str)
    ensures
        s@ == CROSS_STORE_REPLAY_REASON_TAXONOMY_VERSION@,
{
    CROSS_STORE_REPLAY_REASON_TAXONOMY_VERSION
}

/// Returns the ordered reason-code list, comma separated.
pub fn cross_store_replay_reason_codes_csv() -> (s: &'static str)
    ensures
        s@ == CROSS_STORE_REPLAY_REASON_CODES_CSV@,
{
    CROSS_STORE_REPLAY_REASON_CODES_CSV
}

/// A report as values.
pub struct ReplayReportModel {
    pub status: CrossStoreReplayConsistencyStatus,
    pub reason_code: Seq<char>,
    pub divergence_class: CrossStoreReplayDivergenceClass,
    pub runtime_state_version: Option<u64>,
    pub runtime_cursor: Option<u64>,
    pub channel_schema_version: Option<u16>,
    pub message_schema_version: Option<u16>,
    pub task_schema_version: Option<u16>,
    pub channel_record_count: Option<usize>,
    pub message_record_count: Option<usize>,
    pub task_record_count: Option<usize>,
    pub aggregate_record_count: Option<usize>,
    pub consistency_fingerprint: Seq<char>,
}

pub open spec fn opt_nat_u64(v: Option<u64>) -> Option<nat> {
    match v {
        Some(x) => Some(x as nat),
        None => None,
    }
}

pub open spec fn opt_nat_u16(v: Option<u16>) -> Option<nat> {
    match v {
        Some(x) => Some(x as nat),
        None => None,
    }
}

pub open spec fn opt_nat_usize(v: Option<usize>) -> Option<nat> {
    match v {
        Some(x) => Some(x as nat),
        None => None,
    }
}

pub open spec fn state_version_of(o: Option<RuntimeSnapshotSummary>) -> Option<u64> {
    match o {
        Some(r) => Some(r.state_version),
        None => None,
    }
}

pub open spec fn cursor_of(o: Option<RuntimeSnapshotSummary>) -> Option<u64> {
    match o {
        Some(r) => Some(r.cursor),
        None => None,
    }
}

pub open spec fn schema_of(o: Option<StoreSnapshotSummary>) -> Option<u16> {
    match o {
        Some(c) => Some(c.schema_version),
        None => None,
    }
}

pub open spec fn count_of(o: Option<StoreSnapshotSummary>) -> Option<usize> {
    match o {
        Some(c) => Some(c.record_count),
        None => None,
    }
}

/// Sum of the three record counts, when all three are known.
pub open spec fn aggregate_of(
    channel: Option<StoreSnapshotSummary>,
    message: Option<StoreSnapshotSummary>,
    task: Option<StoreSnapshotSummary>,
) -> Option<usize> {
    match (channel, message, task) {
        (Some(c), Some(m), Some(t)) => Some((c.record_count + m.record_count + t.record_count) as usize),
        _ => None,
    }
}

/// The replay outcome: status, reason code and divergence class of the
/// first comparison that fails.
pub open spec fn replay_verdict(
    runtime: Option<RuntimeSnapshotSummary>,
    channel: Option<StoreSnapshotSummary>,
    message: Option<StoreSnapshotSummary>,
    task: Option<StoreSnapshotSummary>,
    versions: CrossStoreSchemaVersions,
) -> (CrossStoreReplayConsistencyStatus, Seq<char>, CrossStoreReplayDivergenceClass) {
    let divergent = CrossStoreReplayConsistencyStatus::Divergent;
    if runtime is None && channel is None && message is None && task is None {
        (divergent, "cross_store_replay_divergence_all_snapshots_missing"@, CrossStoreReplayDivergenceClass::PresenceDrift)
    } else if runtime is None {
        (divergent, "cross_store_replay_divergence_runtime_snapshot_missing"@, CrossStoreReplayDivergenceClass::PresenceDrift)
    } else if channel is None {
        (divergent, "cross_store_replay_divergence_channel_snapshot_missing"@, CrossStoreReplayDivergenceClass::PresenceDrift)
    } else if message is None {
        (divergent, "cross_store_replay_divergence_message_snapshot_missing"@, CrossStoreReplayDivergenceClass::PresenceDrift)
    } else if task is None {
        (divergent, "cross_store_replay_divergence_task_snapshot_missing"@, CrossStoreReplayDivergenceClass::PresenceDrift)
    } else if channel->0.schema_version != versions.channel {
        (divergent, "cross_store_replay_divergence_channel_schema_version_mismatch"@, CrossStoreReplayDivergenceClass::SchemaDrift)
    } else if message->0.schema_version != versions.message {
        (divergent, "cross_store_replay_divergence_message_schema_version_mismatch"@, CrossStoreReplayDivergenceClass::SchemaDrift)
    } else if task->0.schema_version != versions.task {
        (divergent, "cross_store_replay_divergence_task_schema_version_mismatch"@, CrossStoreReplayDivergenceClass::SchemaDrift)
    } else if runtime->0.cursor < runtime->0.state_version {
        (divergent, "cross_store_replay_divergence_runtime_cursor_state_version_mismatch"@, CrossStoreReplayDivergenceClass::RuntimeContinuityDrift)
    } else if runtime->0.state_version > 1 && aggregate_of(channel, message, task)->0 == 0 {
        (divergent, "cross_store_replay_divergence_aggregate_records_missing_for_advanced_runtime_state"@, CrossStoreReplayDivergenceClass::CardinalityDrift)
    } else if aggregate_of(channel, message, task)->0 > runtime->0.cursor {
        (divergent, "cross_store_replay_divergence_aggregate_records_exceed_runtime_cursor"@, CrossStoreReplayDivergenceClass::CardinalityDrift)
    } else {
        (CrossStoreReplayConsistencyStatus::Consistent, "none"@, CrossStoreReplayDivergenceClass::Consistent)
    }
}

/// Fingerprint of a projection and a reason code.
pub open spec fn fingerprint_text(
    runtime: Option<RuntimeSnapshotSummary>,
    channel: Option<StoreSnapshotSummary>,
    message: Option<StoreSnapshotSummary>,
    task: Option<StoreSnapshotSummary>,
    reason: Seq<char>,
) -> Seq<char> {
    "runtime:"@ + render_opt_text(opt_nat_u64(state_version_of(runtime)))
        + ":"@ + render_opt_text(opt_nat_u64(cursor_of(runtime)))
        + "|channel:"@ + render_opt_text(opt_nat_u16(schema_of(channel)))
        + ":"@ + render_opt_text(opt_nat_usize(count_of(channel)))
        + "|message:"@ + render_opt_text(opt_nat_u16(schema_of(message)))
        + ":"@ + render_opt_text(opt_nat_usize(count_of(message)))
        + "|task:"@ + render_opt_text(opt_nat_u16(schema_of(task)))
        + ":"@ + render_opt_text(opt_nat_usize(count_of(task)))
        + "|aggregate:"@ + render_opt_text(opt_nat_usize(aggregate_of(channel, message, task)))
        + "|reason:"@ + reason
}

/// The report the checker emits.
pub open spec fn expected_report(
    runtime: Option<RuntimeSnapshotSummary>,
    channel: Option<StoreSnapshotSummary>,
    message: Option<StoreSnapshotSummary>,
    task: Option<StoreSnapshotSummary>,
    versions: CrossStoreSchemaVersions,
) -> ReplayReportModel {
    let v = replay_verdict(runtime, channel, message, task, versions);
    ReplayReportModel {
        status: v.0,
        reason_code: v.1,
        divergence_class: v.2,
        runtime_state_version: state_version_of(runtime),
        runtime_cursor: cursor_of(runtime),
        channel_schema_version: schema_of(channel),
        message_schema_version: schema_of(message),
        task_schema_version: schema_of(task),
        channel_record_count: count_of(channel),
        message_record_count: count_of(message),
        task_record_count: count_of(task),
        aggregate_record_count: aggregate_of(channel, message, task),
        consistency_fingerprint: fingerprint_text(runtime, channel, message, task, v.1),
    }
}

/// Deterministic report emitted by replay consistency evaluation.
#[derive(Debug, Clone, PartialEq, Eq)]
pub struct CrossStoreReplayConsistencyReport {
    status: CrossStoreReplayConsistencyStatus,
    reason_code: String,
    divergence_class: CrossStoreReplayDivergenceClass,
    source_marker: &'static str,
    runtime_state_version: Option<u64>,
    runtime_cursor: Option<u64>,
    channel_schema_version: Option<u16>,
    message_schema_version: Option<u16>,
    task_schema_version: Option<u16>,
    channel_record_count: Option<usize>,
    message_record_count: Option<usize>,
    task_record_count: Option<usize>,
    aggregate_record_count: Option<usize>,
    consistency_fingerprint: String,
}

impl CrossStoreReplayConsistencyReport {
    /// The report's fields as values.
    pub closed spec fn fields(&self) -> ReplayReportModel {
        ReplayReportModel {
            status: self.status,
            reason_code: self.reason_code@,
            divergence_class: self.divergence_class,
            runtime_state_version: self.runtime_state_version,
            runtime_cursor: self.runtime_cursor,
            channel_schema_version: self.channel_schema_version,
            message_schema_version: self.message_schema_version,
            task_schema_version: self.task_schema_version,
            channel_record_count: self.channel_record_count,
            message_record_count: self.message_record_count,
            task_record_count: self.task_record_count,
            aggregate_record_count: self.aggregate_record_count,
            consistency_fingerprint: self.consistency_fingerprint@,
        }
    }

    /// The report's source marker.
    pub closed spec fn source_marker_text(&self) -> Seq<char> {
        self.source_marker@
    }

    /// Returns deterministic consistency status.
    pub fn status(&self) -> (r: CrossStoreReplayConsistencyStatus)
        ensures
            r == self.fields().status,
    {
        self.status
    }

    /// Returns deterministic reason code.
    pub fn reason_code(&self) -> (r: &str)
        ensures
            r@ == self.fields().reason_code,
    {
        self.reason_code.as_str()
    }

    /// Returns deterministic divergence class.
    pub fn divergence_class(&self) -> (r: CrossStoreReplayDivergenceClass)
        ensures
            r == self.fields().divergence_class,
    {
        self.divergence_class
    }

    /// Returns deterministic source marker.
    pub fn source_marker(&self) -> (r: &'static str)
        ensures
            r@ == self.source_marker_text(),
    {
        self.source_marker
    }

    /// Returns deterministic reason taxonomy version marker.
    pub fn reason_taxonomy_version(&self) -> (r: &'static str)
        ensures
            r@ == CROSS_STORE_REPLAY_REASON_TAXONOMY_VERSION@,
    {
        cross_store_replay_reason_taxonomy_version()
    }

    /// Returns deterministic runtime state version projection.
    pub fn runtime_state_version(&self) -> (r: Option<u64>)
        ensures
            r == self.fields().runtime_state_version,
    {
        self.runtime_state_version
    }

    /// Returns deterministic runtime cursor projection.
    pub fn runtime_cursor(&self) -> (r: Option<u64>)
        ensures
            r == self.fields().runtime_cursor,
    {
        self.runtime_cursor
    }

    /// Returns deterministic channel schema version projection.
    pub fn channel_schema_version(&self) -> (r: Option<u16>)
        ensures
            r == self.fields().channel_schema_version,
    {
        self.channel_schema_version
    }

    /// Returns deterministic message schema version projection.
    pub fn message_schema_version(&self) -> (r: Option<u16>)
        ensures
            r == self.fields().message_schema_version,
    {
        self.message_schema_version
    }

    /// Returns deterministic task schema version projection.
    pub fn task_schema_version(&self) -> (r: Option<u16>)
        ensures
            r == self.fields().task_schema_version,
    {
        self.task_schema_version
    }

    /// Returns deterministic channel record count projection.
    pub fn channel_record_count(&self) -> (r: Option<usize>)
        ensures
            r == self.fields().channel_record_count,
    {
        self.channel_record_count
    }

    /// Returns deterministic message record count projection.
    pub fn message_record_count(&self) -> (r: Option<usize>)
        ensures
            r == self.fields().message_record_count,
    {
        self.message_record_count
    }

    /// Returns deterministic task record count projection.
    pub fn task_record_count(&self) -> (r: Option<usize>)
        ensures
            r == self.fields().task_record_count,
    {
        self.task_record_count
    }

    /// Returns deterministic aggregate record count projection.
    pub fn aggregate_record_count(&self) -> (r: Option<usize>)
        ensures
            r == self.fields().aggregate_record_count,
    {
        self.aggregate_record_count
    }

    /// Returns deterministic replay-consistency fingerprint.
    pub fn consistency_fingerprint(&self) -> (r: &str)
        ensures
            r@ == self.fields().consistency_fingerprint,
    {
        self.consistency_fingerprint.as_str()
    }
}

fn fingerprint(
    runtime: Option<RuntimeSnapshotSummary>,
    channel: Option<StoreSnapshotSummary>,
    message: Option<StoreSnapshotSummary>,
    task: Option<StoreSnapshotSummary>,
    aggregate: Option<usize>,
    reason: &str,
) -> (s: String)
    requires
        aggregate == aggregate_of(channel, message, task),
    ensures
        s@ == fingerprint_text(runtime, channel, message, task, reason@),
{
    let rt_version = match runtime { Some(r) => Some(r.state_version), None => None };
    let rt_cursor = match runtime { Some(r) => Some(r.cursor), None => None };
    let ch_schema = match channel { Some(c) => Some(c.schema_version), None => None };
    let ch_count = match channel { Some(c) => Some(c.record_count), None => None };
    let msg_schema = match message { Some(c) => Some(c.schema_version), None => None };
    let msg_count = match message { Some(c) => Some(c.record_count), None => None };
    let task_schema = match task { Some(c) => Some(c.schema_version), None => None };
    let task_count = match task { Some(c) => Some(c.record_count), None => None };
    let s = concat("runtime:", render_opt(rt_version).as_str());
    let s = concat(s.as_str(), ":");
    let s = concat(s.as_str(), render_opt(rt_cursor).as_str());
    let s = concat(s.as_str(), "|channel:");
    let s = concat(s.as_str(), render_opt(ch_schema).as_str());
    let s = concat(s.as_str(), ":");
    let s = concat(s.as_str(), render_opt(ch_count).as_str());
    let s = concat(s.as_str(), "|message:");
    let s = concat(s.as_str(), render_opt(msg_schema).as_str());
    let s = concat(s.as_str(), ":");
    let s = concat(s.as_str(), render_opt(msg_count).as_str());
    let s = concat(s.as_str(), "|task:");
    let s = concat(s.as_str(), render_opt(task_schema).as_str());
    let s = concat(s.as_str(), ":");
    let s = concat(s.as_str(), render_opt(task_count).as_str());
    let s = concat(s.as_str(), "|aggregate:");
    let s = concat(s.as_str(), render_opt(aggregate).as_str());
    let s = concat(s.as_str(), "|reason:");
    concat(s.as_str(), reason)
}

fn build_report(
    status: CrossStoreReplayConsistencyStatus,
    reason_code: &str,
    divergence_class: CrossStoreReplayDivergenceClass,
    runtime: Option<RuntimeSnapshotSummary>,
    channel: Option<StoreSnapshotSummary>,
    message: Option<StoreSnapshotSummary>,
    task: Option<StoreSnapshotSummary>,
    aggregate: Option<usize>,
) -> (r: CrossStoreReplayConsistencyReport)
    requires
        aggregate == aggregate_of(channel, message, task),
    ensures
        r.fields().status == status,
        r.fields().reason_code == reason_code@,
        r.fields().divergence_class == divergence_class,
        r.fields().runtime_state_version == state_version_of(runtime),
        r.fields().runtime_cursor == cursor_of(runtime),
        r.fields().channel_schema_version == schema_of(channel),
        r.fields().message_schema_version == schema_of(message),
        r.fields().task_schema_version == schema_of(task),
        r.fields().channel_record_count == count_of(channel),
        r.fields().message_record_count == count_of(message),
        r.fields().task_record_count == count_of(task),
        r.fields().aggregate_record_count == aggregate,
        r.fields().consistency_fingerprint == fingerprint_text(runtime, channel, message, task, reason_code@),
        r.source_marker_text() == CROSS_STORE_REPLAY_SOURCE_MARKER@,
{
    CrossStoreReplayConsistencyReport {
        status,
        reason_code: reason_code.to_owned(),
        divergence_class,
        source_marker: CROSS_STORE_REPLAY_SOURCE_MARKER,
        runtime_state_version: match runtime { Some(x) => Some(x.state_version), None => None },
        runtime_cursor: match runtime { Some(x) => Some(x.cursor), None => None },
        channel_schema_version: match channel { Some(c) => Some(c.schema_version), None => None },
        message_schema_version: match message { Some(c) => Some(c.schema_version), None => None },
        task_schema_version: match task { Some(c) => Some(c.schema_version), None => None },
        channel_record_count: match channel { Some(c) => Some(c.record_count), None => None },
        message_record_count: match message { Some(c) => Some(c.record_count), None => None },
        task_record_count: match task { Some(c) => Some(c.record_count), None => None },
        aggregate_record_count: aggregate,
        consistency_fingerprint: fingerprint(runtime, channel, message, task, aggregate, reason_code),
    }
}

/// Evaluates runtime/channel/message/task snapshot parity and emits the
/// report of the first failing check: presence (all missing, then runtime,
/// channel, message, task), schema versions (channel, message, task), the
/// runtime cursor not behind its state version, records present once the
/// state version is past one, and records not beyond the cursor.
pub fn evaluate_cross_store_replay_consistency(
    runtime_snapshot: Option<RuntimeSnapshotSummary>,
    channel_snapshot: Option<StoreSnapshotSummary>,
    message_snapshot: Option<StoreSnapshotSummary>,
    task_snapshot: Option<StoreSnapshotSummary>,
    versions: CrossStoreSchemaVersions,
) -> (r: CrossStoreReplayConsistencyReport)
    requires
        channel_snapshot is Some && message_snapshot is Some && task_snapshot is Some
            ==> channel_snapshot->0.record_count + message_snapshot->0.record_count
            + task_snapshot->0.record_count <= usize::MAX,
    ensures
        r.fields() == expected_report(runtime_snapshot, channel_snapshot, message_snapshot, task_snapshot, versions),
        r.source_marker_text() == CROSS_STORE_REPLAY_SOURCE_MARKER@,
{
    let aggregate = match (channel_snapshot, message_snapshot, task_snapshot) {
        (Some(c), Some(m), Some(t)) => Some(c.record_count + m.record_count + t.record_count),
        _ => None,
    };
    let divergent = CrossStoreReplayConsistencyStatus::Divergent;
    let (status, reason, class) = if runtime_snapshot.is_none() && channel_snapshot.is_none()
        && message_snapshot.is_none() && task_snapshot.is_none() {
        (divergent, "cross_store_replay_divergence_all_snapshots_missing", CrossStoreReplayDivergenceClass::PresenceDrift)
    } else if runtime_snapshot.is_none() {
        (divergent, "cross_store_replay_divergence_runtime_snapshot_missing", CrossStoreReplayDivergenceClass::PresenceDrift)
    } else if channel_snapshot.is_none() {
        (divergent, "cross_store_replay_divergence_channel_snapshot_missing", CrossStoreReplayDivergenceClass::PresenceDrift)
    } else if message_snapshot.is_none() {
        (divergent, "cross_store_replay_divergence_message_snapshot_missing", CrossStoreReplayDivergenceClass::PresenceDrift)
    } else if task_snapshot.is_none() {
        (divergent, "cross_store_replay_divergence_task_snapshot_missing", CrossStoreReplayDivergenceClass::PresenceDrift)
    } else {
        let runtime = runtime_snapshot.unwrap();
        let channel = channel_snapshot.unwrap();
        let message = message_snapshot.unwrap();
        let task = task_snapshot.unwrap();
        let total = channel.record_count + message.record_count + task.record_count;
        if channel.schema_version != versions.channel {
            (divergent, "cross_store_replay_divergence_channel_schema_version_mismatch", CrossStoreReplayDivergenceClass::SchemaDrift)
        } else if message.schema_version != versions.message {
            (divergent, "cross_store_replay_divergence_message_schema_version_mismatch", CrossStoreReplayDivergenceClass::SchemaDrift)
        } else if task.schema_version != versions.task {
            (divergent, "cross_store_replay_divergence_task_schema_version_mismatch", CrossStoreReplayDivergenceClass::SchemaDrift)
        } else if runtime.cursor < runtime.state_version {
            (divergent, "cross_store_replay_divergence_runtime_cursor_state_version_mismatch", CrossStoreReplayDivergenceClass::RuntimeContinuityDrift)
        } else if runtime.state_version > 1 && total == 0 {
            (divergent, "cross_store_replay_divergence_aggregate_records_missing_for_advanced_runtime_state", CrossStoreReplayDivergenceClass::CardinalityDrift)
        } else if total as u64 > runtime.cursor {
            (divergent, "cross_store_replay_divergence_aggregate_records_exceed_runtime_cursor", CrossStoreReplayDivergenceClass::CardinalityDrift)
        } else {
            (CrossStoreReplayConsistencyStatus::Consistent, "none", CrossStoreReplayDivergenceClass::Consistent)
        }
    };
    let r = build_report(status, reason, class, runtime_snapshot, channel_snapshot, message_snapshot, task_snapshot, aggregate);
    assert(r.fields() =~= expected_report(runtime_snapshot, channel_snapshot, message_snapshot, task_snapshot, versions));
    r
}

/// The reason codes, in the order the published list gives them.
pub open spec fn replay_reason_codes() -> Seq<Seq<char>> {
    seq![
        "none"@,
        "cross_store_replay_divergence_all_snapshots_missing"@,
        "cross_store_replay_divergence_runtime_snapshot_missing"@,
        "cross_store_replay_divergence_channel_snapshot_missing"@,
        "cross_store_replay_divergence_message_snapshot_missing"@,
        "cross_store_replay_divergence_task_snapshot_missing"@,
        "cross_store_replay_divergence_channel_schema_version_mismatch"@,
        "cross_store_replay_divergence_message_schema_version_mismatch"@,
        "cross_store_replay_divergence_task_schema_version_mismatch"@,
        "cross_store_replay_divergence_runtime_cursor_state_version_mismatch"@,
        "cross_store_replay_divergence_aggregate_records_missing_for_advanced_runtime_state"@,
        "cross_store_replay_divergence_aggregate_records_exceed_runtime_cursor"@,
    ]
}

/// A sequence without a comma.
spec fn comma_free(s: Seq<char>) -> bool {
    forall|i: int| 0 <= i < s.len() ==> #[trigger] s[i] != ','
}

proof fn lemma_reason_list_text()
    ensures
        CROSS_STORE_REPLAY_REASON_CODES_CSV@ == join_seqs(replay_reason_codes(), ","@),
{
    reveal_strlit("none");
    reveal_strlit("cross_store_replay_divergence_all_snapshots_missing");
    reveal_strlit("cross_store_replay_divergence_runtime_snapshot_missing");
    reveal_strlit("cross_store_replay_divergence_channel_snapshot_missing");
    reveal_strlit("cross_store_replay_divergence_message_snapshot_missing");
    reveal_strlit("cross_store_replay_divergence_task_snapshot_missing");
    reveal_strlit("cross_store_replay_divergence_channel_schema_version_mismatch");
    reveal_strlit("cross_store_replay_divergence_message_schema_version_mismatch");
    reveal_strlit("cross_store_replay_divergence_task_schema_version_mismatch");
    reveal_strlit("cross_store_replay_divergence_runtime_cursor_state_version_mismatch");
    reveal_strlit("cross_store_replay_divergence_aggregate_records_missing_for_advanced_runtime_state");
    reveal_strlit("cross_store_replay_divergence_aggregate_records_exceed_runtime_cursor");
    reveal_strlit(",");
    reveal_strlit("none,cross_store_replay_divergence_all_snapshots_missing,cross_store_replay_divergence_runtime_snapshot_missing,cross_store_replay_divergence_channel_snapshot_missing,cross_store_replay_divergence_message_snapshot_missing,cross_store_replay_divergence_task_snapshot_missing,cross_store_replay_divergence_channel_schema_version_mismatch,cross_store_replay_divergence_message_schema_version_mismatch,cross_store_replay_divergence_task_schema_version_mismatch,cross_store_replay_divergence_runtime_cursor_state_version_mismatch,cross_store_replay_divergence_aggregate_records_missing_for_advanced_runtime_state,cross_store_replay_divergence_aggregate_records_exceed_runtime_cursor");
    reveal_with_fuel(join_seqs, 13);
    assert(CROSS_STORE_REPLAY_REASON_CODES_CSV@ =~= join_seqs(replay_reason_codes(), ","@));
}

proof fn lemma_split_join(parts: Seq<Seq<char>>)
    requires
        parts.len() >= 1,
        forall|i: int| 0 <= i < parts.len() ==> comma_free(#[trigger] parts[i]),
    ensures
        split_on(join_seqs(parts, seq![',']), ',') == parts,
    decreases parts.len(),
{
    if parts.len() == 1 {
        lemma_split_on_no_sep(parts[0], ',');
        assert(seq![parts[0]] =~= parts);
    } else {
        let init = parts.drop_last();
        assert forall|i: int| 0 <= i < init.len() implies comma_free(#[trigger] init[i]) by {
            assert(init[i] == parts[i]);
        }
        lemma_split_join(init);
        assert(comma_free(parts[parts.len() - 1]));
        lemma_split_on_no_sep(parts.last(), ',');
        lemma_split_on_concat(join_seqs(init, seq![',']), parts.last(), ',');
        assert(init + seq![parts.last()] =~= parts);
    }
}

/// The published reason-code list: split at its commas it gives the twelve
/// reason codes, pairwise distinct, `none` first, and the reason code of
/// every replay verdict is one of them.
pub proof fn lemma_reason_codes_listed(
    runtime: Option<RuntimeSnapshotSummary>,
    channel: Option<StoreSnapshotSummary>,
    message: Option<StoreSnapshotSummary>,
    task: Option<StoreSnapshotSummary>,
    versions: CrossStoreSchemaVersions,
)
    ensures
        split_on(CROSS_STORE_REPLAY_REASON_CODES_CSV@, ',') == replay_reason_codes(),
        replay_reason_codes().len() == 12,
        replay_reason_codes()[0] == "none"@,
        forall|i: int, j: int|
            0 <= i < j < 12 ==> #[trigger] replay_reason_codes()[i] != #[trigger] replay_reason_codes()[j],
        replay_reason_codes().contains(replay_verdict(runtime, channel, message, task, versions).1),
{
    reveal_strlit("none");
    reveal_strlit("cross_store_replay_divergence_all_snapshots_missing");
    reveal_strlit("cross_store_replay_divergence_runtime_snapshot_missing");
    reveal_strlit("cross_store_replay_divergence_channel_snapshot_missing");
    reveal_strlit("cross_store_replay_divergence_message_snapshot_missing");
    reveal_strlit("cross_store_replay_divergence_task_snapshot_missing");
    reveal_strlit("cross_store_replay_divergence_channel_schema_version_mismatch");
    reveal_strlit("cross_store_replay_divergence_message_schema_version_mismatch");
    reveal_strlit("cross_store_replay_divergence_task_schema_version_mismatch");
    reveal_strlit("cross_store_replay_divergence_runtime_cursor_state_version_mismatch");
    reveal_strlit("cross_store_replay_divergence_aggregate_records_missing_for_advanced_runtime_state");
    reveal_strlit("cross_store_replay_divergence_aggregate_records_exceed_runtime_cursor");
    reveal_strlit(",");
    let codes = replay_reason_codes();
    lemma_reason_list_text();
    assert forall|i: int| 0 <= i < codes.len() implies comma_free(#[trigger] codes[i]) by {
    }
    assert(","@ =~= seq![',']);
    lemma_split_join(codes);
    assert forall|i: int, j: int| 0 <= i < j < 12 implies #[trigger] codes[i] != #[trigger] codes[j] by {
        if i == 1 && j == 5 {
            assert(codes[i][30] != codes[j][30]);
        }
        if i == 2 && j == 3 {
            assert(codes[i][30] != codes[j][30]);
        }
        if i == 2 && j == 4 {
            assert(codes[i][30] != codes[j][30]);
        }
        if i == 3 && j == 4 {
            assert(codes[i][30] != codes[j][30]);
        }
        if i == 6 && j == 7 {
            assert(codes[i][30] != codes[j][30]);
        }
    }
    let v = replay_verdict(runtime, channel, message, task, versions).1;
    assert(exists|i: int| 0 <= i < codes.len() && codes[i] == v);
}

/// A replay is reported consistent only when every snapshot is present, each
/// store's schema version is the expected one, the runtime cursor has reached
/// the runtime state version, the stores hold records once the runtime has
/// moved past its first state, and they hold no more records than the cursor
/// counts. With every snapshot present, any store with an unexpected schema
/// version makes the report divergent with schema drift; a missing snapshot
/// makes it divergent with presence drift. Status and class agree on
/// consistency.
pub proof fn lemma_replay_consistency_conditions(
    runtime: Option<RuntimeSnapshotSummary>,
    channel: Option<StoreSnapshotSummary>,
    message: Option<StoreSnapshotSummary>,
    task: Option<StoreSnapshotSummary>,
    versions: CrossStoreSchemaVersions,
)
    ensures
        ({
            let r = expected_report(runtime, channel, message, task, versions);
            let all_present = runtime is Some && channel is Some && message is Some && task is Some;
            &&& (r.status == CrossStoreReplayConsistencyStatus::Consistent) <==> (r.divergence_class
                == CrossStoreReplayDivergenceClass::Consistent)
            &&& r.status == CrossStoreReplayConsistencyStatus::Consistent ==> {
                &&& all_present
                &&& channel->0.schema_version == versions.channel
                &&& message->0.schema_version == versions.message
                &&& task->0.schema_version == versions.task
                &&& runtime->0.cursor >= runtime->0.state_version
                &&& !(runtime->0.state_version > 1 && aggregate_of(channel, message, task)->0 == 0)
                &&& aggregate_of(channel, message, task)->0 <= runtime->0.cursor
            }
            &&& all_present && (channel->0.schema_version != versions.channel || message->0.schema_version
                != versions.message || task->0.schema_version != versions.task) ==> r.status
                == CrossStoreReplayConsistencyStatus::Divergent && r.divergence_class
                == CrossStoreReplayDivergenceClass::SchemaDrift
            &&& !all_present ==> r.status == CrossStoreReplayConsistencyStatus::Divergent && r.divergence_class
                == CrossStoreReplayDivergenceClass::PresenceDrift
            &&& (r.status == CrossStoreReplayConsistencyStatus::Consistent) <==> (r.reason_code == "none"@)
        }),
{
    lemma_reason_codes_listed(runtime, channel, message, task, versions);
    let codes = replay_reason_codes();
    let v = replay_verdict(runtime, channel, message, task, versions);
    if v.1 == "none"@ {
        let i = choose|i: int| 0 <= i < codes.len() && codes[i] == v.1;
        if i != 0 {
            assert(codes[0] != codes[i]);
        }
    }
}

} // verus!
