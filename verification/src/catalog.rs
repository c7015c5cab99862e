//! The metric catalog.
//!
//! A fixed table defined once for the process lifetime: every series the
//! exporter can expose has a canonical name here, a kind (gauge or
//! counter), and a label schema.  External dashboards depend on the exact
//! exposed names, so the table is data, not derived logic.  Any status key
//! absent from this table is unsupported and its line is dropped.

use vstd::prelude::*;

use crate::text::bytes_eq;
use vstd::string::StringSliceAdditionalSpecFns;

verus! {

/// The canonical name of one exposed metric.  Every variant stands for one
/// entry of the fixed catalog.
#[derive(Clone, Copy, Debug, PartialEq, Eq, Structural)]
pub enum MetricName {
    Up,
    UptimeInSeconds,
    ProcessId,
    IoThreadsActive,
    ConnectedClients,
    BlockedClients,
    TrackingClients,
    ClientsInTimeoutTable,
    PubsubClients,
    WatchingClients,
    TotalWatchedKeys,
    TotalBlockingKeys,
    TotalBlockingKeysOnNokey,
    ClientLongestOutputList,
    ClientBiggestInputBuf,
    ClientRecentMaxOutputBuffer,
    ClientRecentMaxInputBuffer,
    AllocatorActive,
    AllocatorAllocated,
    AllocatorResident,
    AllocatorFragRatio,
    AllocatorFragBytes,
    AllocatorRssRatio,
    AllocatorRssBytes,
    MemoryUsedBytes,
    MemoryUsedRssBytes,
    MemoryUsedPeakBytes,
    MemoryUsedLuaBytes,
    MemoryUsedVmEvalBytes,
    MemoryUsedScriptsEvalBytes,
    MemoryUsedOverheadBytes,
    MemoryUsedStartupBytes,
    MemoryUsedDatasetBytes,
    NumberOfCachedScripts,
    NumberOfFunctions,
    NumberOfLibraries,
    MemoryUsedVmFunctionsBytes,
    MemoryUsedScriptsBytes,
    MemoryUsedFunctionsBytes,
    UsedMemoryVmTotal,
    MemoryMaxBytes,
    MemoryFragmentationRatio,
    KeyspaceHitsTotal,
    KeyspaceMissesTotal,
    MasterLastIoSecondsAgo,
    ConnectedSlaves,
    CommandsTotal,
    CommandsRejectedCallsTotal,
    CommandsDurationSecondsTotal,
    DbKeys,
    DbKeysExpiring,
    EvictedKeysTotal,
}

/// Whether a series is overwritten on update or accumulates.
#[derive(Clone, Copy, Debug, PartialEq, Eq, Structural)]
pub enum Kind {
    /// Overwritten on each update.
    Gauge,
    /// Only ever increased.
    Counter,
}

/// The ordered label names a metric's series carry.
#[derive(Clone, Copy, Debug, PartialEq, Eq, Structural)]
pub enum LabelSchema {
    /// `(target, target_name)`.
    PerTarget,
    /// `(cmd, target, target_name)`.
    PerCommand,
    /// `(db, target, target_name)`.
    PerDatabase,
}

/// One entry of the catalog.
#[derive(Clone, Copy, Debug, PartialEq, Eq, Structural)]
pub struct MetricDef {
    pub name: MetricName,
    pub kind: Kind,
    pub schema: LabelSchema,
}

impl LabelSchema {
    /// How many label values a series of this schema carries.
    pub open spec fn spec_arity(self) -> int {
        match self {
            LabelSchema::PerTarget => 2,
            LabelSchema::PerCommand => 3,
            LabelSchema::PerDatabase => 3,
        }
    }

    /// Executable form of the arity.
    pub fn arity(self) -> (r: usize)
        ensures
            r == self.spec_arity(),
    {
        match self {
            LabelSchema::PerTarget => 2,
            LabelSchema::PerCommand => 3,
            LabelSchema::PerDatabase => 3,
        }
    }
}

impl MetricName {
    /// The kind of the catalog entry: one counter, the rest gauges.
    pub open spec fn spec_kind(self) -> Kind {
        match self {
            MetricName::EvictedKeysTotal => Kind::Counter,
            _ => Kind::Gauge,
        }
    }

    /// Executable form of the kind.
    pub fn kind(self) -> (r: Kind)
        ensures
            r == self.spec_kind(),
    {
        match self {
            MetricName::EvictedKeysTotal => Kind::Counter,
            _ => Kind::Gauge,
        }
    }

    /// The label schema of the catalog entry: the per-command and
    /// per-database breakdowns carry one extra leading label.
    pub open spec fn spec_schema(self) -> LabelSchema {
        match self {
            MetricName::CommandsTotal => LabelSchema::PerCommand,
            MetricName::CommandsRejectedCallsTotal => LabelSchema::PerCommand,
            MetricName::CommandsDurationSecondsTotal => LabelSchema::PerCommand,
            MetricName::DbKeys => LabelSchema::PerDatabase,
            MetricName::DbKeysExpiring => LabelSchema::PerDatabase,
            _ => LabelSchema::PerTarget,
        }
    }

    /// Executable form of the schema.
    pub fn schema(self) -> (r: LabelSchema)
        ensures
            r == self.spec_schema(),
    {
        match self {
            MetricName::CommandsTotal => LabelSchema::PerCommand,
            MetricName::CommandsRejectedCallsTotal => LabelSchema::PerCommand,
            MetricName::CommandsDurationSecondsTotal => LabelSchema::PerCommand,
            MetricName::DbKeys => LabelSchema::PerDatabase,
            MetricName::DbKeysExpiring => LabelSchema::PerDatabase,
            _ => LabelSchema::PerTarget,
        }
    }

    /// The catalog entry of this name.
    pub open spec fn spec_def(self) -> MetricDef {
        MetricDef { name: self, kind: self.spec_kind(), schema: self.spec_schema() }
    }

    /// Executable form of the catalog entry.
    pub fn def(self) -> (r: MetricDef)
        ensures
            r == self.spec_def(),
    {
        MetricDef { name: self, kind: self.kind(), schema: self.schema() }
    }

    /// The exact exposed name of the metric, as the exposition endpoint and
    /// external dashboards see it.
    pub open spec fn spec_text(self) -> Seq<char> {
        match self {
            MetricName::Up => "up"@,
            MetricName::UptimeInSeconds => "uptime_in_seconds"@,
            MetricName::ProcessId => "process_id"@,
            MetricName::IoThreadsActive => "io_threads_active"@,
            MetricName::ConnectedClients => "connected_clients"@,
            MetricName::BlockedClients => "blocked_clients"@,
            MetricName::TrackingClients => "tracking_clients"@,
            MetricName::ClientsInTimeoutTable => "clients_in_timeout_table"@,
            MetricName::PubsubClients => "pubsub_clients"@,
            MetricName::WatchingClients => "watching_clients"@,
            MetricName::TotalWatchedKeys => "total_watched_keys"@,
            MetricName::TotalBlockingKeys => "total_blocking_keys"@,
            MetricName::TotalBlockingKeysOnNokey => "total_blocking_keys_on_nokey"@,
            MetricName::ClientLongestOutputList => "client_longest_output_list"@,
            MetricName::ClientBiggestInputBuf => "client_biggest_input_buf"@,
            MetricName::ClientRecentMaxOutputBuffer => "client_recent_max_output_buffer"@,
            MetricName::ClientRecentMaxInputBuffer => "client_recent_max_input_buffer"@,
            MetricName::AllocatorActive => "allocator_active"@,
            MetricName::AllocatorAllocated => "allocator_allocated"@,
            MetricName::AllocatorResident => "allocator_resident"@,
            MetricName::AllocatorFragRatio => "allocator_frag_ratio"@,
            MetricName::AllocatorFragBytes => "allocator_frag_bytes"@,
            MetricName::AllocatorRssRatio => "allocator_rss_ratio"@,
            MetricName::AllocatorRssBytes => "allocator_rss_bytes"@,
            MetricName::MemoryUsedBytes => "memory_used_bytes"@,
            MetricName::MemoryUsedRssBytes => "memory_used_rss_bytes"@,
            MetricName::MemoryUsedPeakBytes => "memory_used_peak_bytes"@,
            MetricName::MemoryUsedLuaBytes => "memory_used_lua_bytes"@,
            MetricName::MemoryUsedVmEvalBytes => "memory_used_vm_eval_bytes"@,
            MetricName::MemoryUsedScriptsEvalBytes => "memory_used_scripts_eval_bytes"@,
            MetricName::MemoryUsedOverheadBytes => "memory_used_overhead_bytes"@,
            MetricName::MemoryUsedStartupBytes => "memory_used_startup_bytes"@,
            MetricName::MemoryUsedDatasetBytes => "memory_used_dataset_bytes"@,
            MetricName::NumberOfCachedScripts => "number_of_cached_scripts"@,
            MetricName::NumberOfFunctions => "number_of_functions"@,
            MetricName::NumberOfLibraries => "number_of_libraries"@,
            MetricName::MemoryUsedVmFunctionsBytes => "memory_used_vm_functions_bytes"@,
            MetricName::MemoryUsedScriptsBytes => "memory_used_scripts_bytes"@,
            MetricName::MemoryUsedFunctionsBytes => "memory_used_functions_bytes"@,
            MetricName::UsedMemoryVmTotal => "used_memory_vm_total"@,
            MetricName::MemoryMaxBytes => "memory_max_bytes"@,
            MetricName::MemoryFragmentationRatio => "memory_fragmentation_ratio"@,
            MetricName::KeyspaceHitsTotal => "keyspace_hits_total"@,
            MetricName::KeyspaceMissesTotal => "keyspace_misses_total"@,
            MetricName::MasterLastIoSecondsAgo => "master_last_io_seconds_ago"@,
            MetricName::ConnectedSlaves => "connected_slaves"@,
            MetricName::CommandsTotal => "commands_total"@,
            MetricName::CommandsRejectedCallsTotal => "commands_rejected_calls_total"@,
            MetricName::CommandsDurationSecondsTotal => "commands_duration_seconds_total"@,
            MetricName::DbKeys => "db_keys"@,
            MetricName::DbKeysExpiring => "db_keys_expiring"@,
            MetricName::EvictedKeysTotal => "evicted_keys_total"@,
        }
    }

    /// The exposed name of the metric.
    pub fn text(self) -> (r: &'static str)
        ensures
            r@ == self.spec_text(),
    {
        match self {
            MetricName::Up => "up",
            MetricName::UptimeInSeconds => "uptime_in_seconds",
            MetricName::ProcessId => "process_id",
            MetricName::IoThreadsActive => "io_threads_active",
            MetricName::ConnectedClients => "connected_clients",
            MetricName::BlockedClients => "blocked_clients",
            MetricName::TrackingClients => "tracking_clients",
            MetricName::ClientsInTimeoutTable => "clients_in_timeout_table",
            MetricName::PubsubClients => "pubsub_clients",
            MetricName::WatchingClients => "watching_clients",
            MetricName::TotalWatchedKeys => "total_watched_keys",
            MetricName::TotalBlockingKeys => "total_blocking_keys",
            MetricName::TotalBlockingKeysOnNokey => "total_blocking_keys_on_nokey",
            MetricName::ClientLongestOutputList => "client_longest_output_list",
            MetricName::ClientBiggestInputBuf => "client_biggest_input_buf",
            MetricName::ClientRecentMaxOutputBuffer => "client_recent_max_output_buffer",
            MetricName::ClientRecentMaxInputBuffer => "client_recent_max_input_buffer",
            MetricName::AllocatorActive => "allocator_active",
            MetricName::AllocatorAllocated => "allocator_allocated",
            MetricName::AllocatorResident => "allocator_resident",
            MetricName::AllocatorFragRatio => "allocator_frag_ratio",
            MetricName::AllocatorFragBytes => "allocator_frag_bytes",
            MetricName::AllocatorRssRatio => "allocator_rss_ratio",
            MetricName::AllocatorRssBytes => "allocator_rss_bytes",
            MetricName::MemoryUsedBytes => "memory_used_bytes",
            MetricName::MemoryUsedRssBytes => "memory_used_rss_bytes",
            MetricName::MemoryUsedPeakBytes => "memory_used_peak_bytes",
            MetricName::MemoryUsedLuaBytes => "memory_used_lua_bytes",
            MetricName::MemoryUsedVmEvalBytes => "memory_used_vm_eval_bytes",
            MetricName::MemoryUsedScriptsEvalBytes => "memory_used_scripts_eval_bytes",
            MetricName::MemoryUsedOverheadBytes => "memory_used_overhead_bytes",
            MetricName::MemoryUsedStartupBytes => "memory_used_startup_bytes",
            MetricName::MemoryUsedDatasetBytes => "memory_used_dataset_bytes",
            MetricName::NumberOfCachedScripts => "number_of_cached_scripts",
            MetricName::NumberOfFunctions => "number_of_functions",
            MetricName::NumberOfLibraries => "number_of_libraries",
            MetricName::MemoryUsedVmFunctionsBytes => "memory_used_vm_functions_bytes",
            MetricName::MemoryUsedScriptsBytes => "memory_used_scripts_bytes",
            MetricName::MemoryUsedFunctionsBytes => "memory_used_functions_bytes",
            MetricName::UsedMemoryVmTotal => "used_memory_vm_total",
            MetricName::MemoryMaxBytes => "memory_max_bytes",
            MetricName::MemoryFragmentationRatio => "memory_fragmentation_ratio",
            MetricName::KeyspaceHitsTotal => "keyspace_hits_total",
            MetricName::KeyspaceMissesTotal => "keyspace_misses_total",
            MetricName::MasterLastIoSecondsAgo => "master_last_io_seconds_ago",
            MetricName::ConnectedSlaves => "connected_slaves",
            MetricName::CommandsTotal => "commands_total",
            MetricName::CommandsRejectedCallsTotal => "commands_rejected_calls_total",
            MetricName::CommandsDurationSecondsTotal => "commands_duration_seconds_total",
            MetricName::DbKeys => "db_keys",
            MetricName::DbKeysExpiring => "db_keys_expiring",
            MetricName::EvictedKeysTotal => "evicted_keys_total",
        }
    }
}

/// The gauge entry a status key names in the flat lookup table, if any.
/// The keys are the store's own key names; where the exposed name differs,
/// the table carries the renaming.
#[verifier::opaque]
pub open spec fn spec_gauge_for_key(k: Seq<u8>) -> Option<MetricName> {
    if k == "up".spec_bytes() {
        Some(MetricName::Up)
    } else if k == "uptime_in_seconds".spec_bytes() {
        Some(MetricName::UptimeInSeconds)
    } else if k == "process_id".spec_bytes() {
        Some(MetricName::ProcessId)
    } else if k == "io_threads_active".spec_bytes() {
        Some(MetricName::IoThreadsActive)
    } else if k == "connected_clients".spec_bytes() {
        Some(MetricName::ConnectedClients)
    } else if k == "blocked_clients".spec_bytes() {
        Some(MetricName::BlockedClients)
    } else if k == "tracking_clients".spec_bytes() {
        Some(MetricName::TrackingClients)
    } else if k == "clients_in_timeout_table".spec_bytes() {
        Some(MetricName::ClientsInTimeoutTable)
    } else if k == "pubsub_clients".spec_bytes() {
        Some(MetricName::PubsubClients)
    } else if k == "watching_clients".spec_bytes() {
        Some(MetricName::WatchingClients)
    } else if k == "total_watched_keys".spec_bytes() {
        Some(MetricName::TotalWatchedKeys)
    } else if k == "total_blocking_keys".spec_bytes() {
        Some(MetricName::TotalBlockingKeys)
    } else if k == "total_blocking_keys_on_nokey".spec_bytes() {
        Some(MetricName::TotalBlockingKeysOnNokey)
    } else if k == "client_longest_output_list".spec_bytes() {
        Some(MetricName::ClientLongestOutputList)
    } else if k == "client_biggest_input_buf".spec_bytes() {
        Some(MetricName::ClientBiggestInputBuf)
    } else if k == "client_recent_max_output_buffer".spec_bytes() {
        Some(MetricName::ClientRecentMaxOutputBuffer)
    } else if k == "client_recent_max_input_buffer".spec_bytes() {
        Some(MetricName::ClientRecentMaxInputBuffer)
    } else if k == "allocator_active".spec_bytes() {
        Some(MetricName::AllocatorActive)
    } else if k == "allocator_allocated".spec_bytes() {
        Some(MetricName::AllocatorAllocated)
    } else if k == "allocator_resident".spec_bytes() {
        Some(MetricName::AllocatorResident)
    } else if k == "allocator_frag_ratio".spec_bytes() {
        Some(MetricName::AllocatorFragRatio)
    } else if k == "allocator_frag_bytes".spec_bytes() {
        Some(MetricName::AllocatorFragBytes)
    } else if k == "allocator_rss_ratio".spec_bytes() {
        Some(MetricName::AllocatorRssRatio)
    } else if k == "allocator_rss_bytes".spec_bytes() {
        Some(MetricName::AllocatorRssBytes)
    } else if k == "used_memory".spec_bytes() {
        Some(MetricName::MemoryUsedBytes)
    } else if k == "used_memory_rss".spec_bytes() {
        Some(MetricName::MemoryUsedRssBytes)
    } else if k == "used_memory_peak".spec_bytes() {
        Some(MetricName::MemoryUsedPeakBytes)
    } else if k == "used_memory_lua".spec_bytes() {
        Some(MetricName::MemoryUsedLuaBytes)
    } else if k == "used_memory_vm_eval".spec_bytes() {
        Some(MetricName::MemoryUsedVmEvalBytes)
    } else if k == "used_memory_scripts_eval".spec_bytes() {
        Some(MetricName::MemoryUsedScriptsEvalBytes)
    } else if k == "used_memory_overhead".spec_bytes() {
        Some(MetricName::MemoryUsedOverheadBytes)
    } else if k == "used_memory_startup".spec_bytes() {
        Some(MetricName::MemoryUsedStartupBytes)
    } else if k == "used_memory_dataset".spec_bytes() {
        Some(MetricName::MemoryUsedDatasetBytes)
    } else if k == "number_of_cached_scripts".spec_bytes() {
        Some(MetricName::NumberOfCachedScripts)
    } else if k == "number_of_functions".spec_bytes() {
        Some(MetricName::NumberOfFunctions)
    } else if k == "number_of_libraries".spec_bytes() {
        Some(MetricName::NumberOfLibraries)
    } else if k == "used_memory_vm_functions".spec_bytes() {
        Some(MetricName::MemoryUsedVmFunctionsBytes)
    } else if k == "used_memory_scripts".spec_bytes() {
        Some(MetricName::MemoryUsedScriptsBytes)
    } else if k == "used_memory_functions".spec_bytes() {
        Some(MetricName::MemoryUsedFunctionsBytes)
    } else if k == "used_memory_vm_total".spec_bytes() {
        Some(MetricName::UsedMemoryVmTotal)
    } else if k == "maxmemory".spec_bytes() {
        Some(MetricName::MemoryMaxBytes)
    } else if k == "mem_fragmentation_ratio".spec_bytes() {
        Some(MetricName::MemoryFragmentationRatio)
    } else if k == "keyspace_hits".spec_bytes() {
        Some(MetricName::KeyspaceHitsTotal)
    } else if k == "keyspace_misses".spec_bytes() {
        Some(MetricName::KeyspaceMissesTotal)
    } else if k == "master_last_io_seconds_ago".spec_bytes() {
        Some(MetricName::MasterLastIoSecondsAgo)
    } else if k == "connected_slaves".spec_bytes() {
        Some(MetricName::ConnectedSlaves)
    } else {
        None
    }
}

/// The counter entry a status key names, if any: the one catalog counter.
pub open spec fn spec_counter_for_key(k: Seq<u8>) -> Option<MetricName> {
    if k == "evicted_keys".spec_bytes() {
        Some(MetricName::EvictedKeysTotal)
    } else {
        None
    }
}

/// Looks a status key up in the gauge table.
pub fn gauge_for_key(k: &[u8]) -> (r: Option<MetricName>)
    ensures
        r == spec_gauge_for_key(k@),
{
    proof {
        reveal(spec_gauge_for_key);
    }
    if bytes_eq(k, "up".as_bytes()) {
        Some(MetricName::Up)
    } else if bytes_eq(k, "uptime_in_seconds".as_bytes()) {
        Some(MetricName::UptimeInSeconds)
    } else if bytes_eq(k, "process_id".as_bytes()) {
        Some(MetricName::ProcessId)
    } else if bytes_eq(k, "io_threads_active".as_bytes()) {
        Some(MetricName::IoThreadsActive)
    } else if bytes_eq(k, "connected_clients".as_bytes()) {
        Some(MetricName::ConnectedClients)
    } else if bytes_eq(k, "blocked_clients".as_bytes()) {
        Some(MetricName::BlockedClients)
    } else if bytes_eq(k, "tracking_clients".as_bytes()) {
        Some(MetricName::TrackingClients)
    } else if bytes_eq(k, "clients_in_timeout_table".as_bytes()) {
        Some(MetricName::ClientsInTimeoutTable)
    } else if bytes_eq(k, "pubsub_clients".as_bytes()) {
        Some(MetricName::PubsubClients)
    } else if bytes_eq(k, "watching_clients".as_bytes()) {
        Some(MetricName::WatchingClients)
    } else if bytes_eq(k, "total_watched_keys".as_bytes()) {
        Some(MetricName::TotalWatchedKeys)
    } else if bytes_eq(k, "total_blocking_keys".as_bytes()) {
        Some(MetricName::TotalBlockingKeys)
    } else if bytes_eq(k, "total_blocking_keys_on_nokey".as_bytes()) {
        Some(MetricName::TotalBlockingKeysOnNokey)
    } else if bytes_eq(k, "client_longest_output_list".as_bytes()) {
        Some(MetricName::ClientLongestOutputList)
    } else if bytes_eq(k, "client_biggest_input_buf".as_bytes()) {
        Some(MetricName::ClientBiggestInputBuf)
    } else if bytes_eq(k, "client_recent_max_output_buffer".as_bytes()) {
        Some(MetricName::ClientRecentMaxOutputBuffer)
    } else if bytes_eq(k, "client_recent_max_input_buffer".as_bytes()) {
        Some(MetricName::ClientRecentMaxInputBuffer)
    } else if bytes_eq(k, "allocator_active".as_bytes()) {
        Some(MetricName::AllocatorActive)
    } else if bytes_eq(k, "allocator_allocated".as_bytes()) {
        Some(MetricName::AllocatorAllocated)
    } else if bytes_eq(k, "allocator_resident".as_bytes()) {
        Some(MetricName::AllocatorResident)
    } else if bytes_eq(k, "allocator_frag_ratio".as_bytes()) {
        Some(MetricName::AllocatorFragRatio)
    } else if bytes_eq(k, "allocator_frag_bytes".as_bytes()) {
        Some(MetricName::AllocatorFragBytes)
    } else if bytes_eq(k, "allocator_rss_ratio".as_bytes()) {
        Some(MetricName::AllocatorRssRatio)
    } else if bytes_eq(k, "allocator_rss_bytes".as_bytes()) {
        Some(MetricName::AllocatorRssBytes)
    } else if bytes_eq(k, "used_memory".as_bytes()) {
        Some(MetricName::MemoryUsedBytes)
    } else if bytes_eq(k, "used_memory_rss".as_bytes()) {
        Some(MetricName::MemoryUsedRssBytes)
    } else if bytes_eq(k, "used_memory_peak".as_bytes()) {
        Some(MetricName::MemoryUsedPeakBytes)
    } else if bytes_eq(k, "used_memory_lua".as_bytes()) {
        Some(MetricName::MemoryUsedLuaBytes)
    } else if bytes_eq(k, "used_memory_vm_eval".as_bytes()) {
        Some(MetricName::MemoryUsedVmEvalBytes)
    } else if bytes_eq(k, "used_memory_scripts_eval".as_bytes()) {
        Some(MetricName::MemoryUsedScriptsEvalBytes)
    } else if bytes_eq(k, "used_memory_overhead".as_bytes()) {
        Some(MetricName::MemoryUsedOverheadBytes)
    } else if bytes_eq(k, "used_memory_startup".as_bytes()) {
        Some(MetricName::MemoryUsedStartupBytes)
    } else if bytes_eq(k, "used_memory_dataset".as_bytes()) {
        Some(MetricName::MemoryUsedDatasetBytes)
    } else if bytes_eq(k, "number_of_cached_scripts".as_bytes()) {
        Some(MetricName::NumberOfCachedScripts)
    } else if bytes_eq(k, "number_of_functions".as_bytes()) {
        Some(MetricName::NumberOfFunctions)
    } else if bytes_eq(k, "number_of_libraries".as_bytes()) {
        Some(MetricName::NumberOfLibraries)
    } else if bytes_eq(k, "used_memory_vm_functions".as_bytes()) {
        Some(MetricName::MemoryUsedVmFunctionsBytes)
    } else if bytes_eq(k, "used_memory_scripts".as_bytes()) {
        Some(MetricName::MemoryUsedScriptsBytes)
    } else if bytes_eq(k, "used_memory_functions".as_bytes()) {
        Some(MetricName::MemoryUsedFunctionsBytes)
    } else if bytes_eq(k, "used_memory_vm_total".as_bytes()) {
        Some(MetricName::UsedMemoryVmTotal)
    } else if bytes_eq(k, "maxmemory".as_bytes()) {
        Some(MetricName::MemoryMaxBytes)
    } else if bytes_eq(k, "mem_fragmentation_ratio".as_bytes()) {
        Some(MetricName::MemoryFragmentationRatio)
    } else if bytes_eq(k, "keyspace_hits".as_bytes()) {
        Some(MetricName::KeyspaceHitsTotal)
    } else if bytes_eq(k, "keyspace_misses".as_bytes()) {
        Some(MetricName::KeyspaceMissesTotal)
    } else if bytes_eq(k, "master_last_io_seconds_ago".as_bytes()) {
        Some(MetricName::MasterLastIoSecondsAgo)
    } else if bytes_eq(k, "connected_slaves".as_bytes()) {
        Some(MetricName::ConnectedSlaves)
    } else {
        None
    }
}

/// Every entry of the gauge table is a per-target gauge.
pub proof fn lemma_gauge_for_key_shape(k: Seq<u8>)
    ensures
        match spec_gauge_for_key(k) {
            Some(n) => n.spec_kind() == Kind::Gauge && n.spec_schema() == LabelSchema::PerTarget,
            None => true,
        },
{
    reveal(spec_gauge_for_key);
}

/// Looks a status key up in the counter table.
pub fn counter_for_key(k: &[u8]) -> (r: Option<MetricName>)
    ensures
        r == spec_counter_for_key(k@),
{
    if bytes_eq(k, "evicted_keys".as_bytes()) {
        Some(MetricName::EvictedKeysTotal)
    } else {
        None
    }
}

/// Every name of the catalog: one entry for each metric the exporter can
/// expose.
#[verifier::rlimit(100)]
pub fn catalog_names() -> (r: Vec<MetricName>)
    ensures
        forall|n: MetricName| r@.contains(n),
{
    let mut v: Vec<MetricName> = Vec::new();
    v.push(MetricName::Up);
    v.push(MetricName::UptimeInSeconds);
    v.push(MetricName::ProcessId);
    v.push(MetricName::IoThreadsActive);
    v.push(MetricName::ConnectedClients);
    v.push(MetricName::BlockedClients);
    v.push(MetricName::TrackingClients);
    v.push(MetricName::ClientsInTimeoutTable);
    v.push(MetricName::PubsubClients);
    v.push(MetricName::WatchingClients);
    v.push(MetricName::TotalWatchedKeys);
    v.push(MetricName::TotalBlockingKeys);
    v.push(MetricName::TotalBlockingKeysOnNokey);
    v.push(MetricName::ClientLongestOutputList);
    v.push(MetricName::ClientBiggestInputBuf);
    v.push(MetricName::ClientRecentMaxOutputBuffer);
    v.push(MetricName::ClientRecentMaxInputBuffer);
    v.push(MetricName::AllocatorActive);
    v.push(MetricName::AllocatorAllocated);
    v.push(MetricName::AllocatorResident);
    v.push(MetricName::AllocatorFragRatio);
    v.push(MetricName::AllocatorFragBytes);
    v.push(MetricName::AllocatorRssRatio);
    v.push(MetricName::AllocatorRssBytes);
    v.push(MetricName::MemoryUsedBytes);
    v.push(MetricName::MemoryUsedRssBytes);
    v.push(MetricName::MemoryUsedPeakBytes);
    v.push(MetricName::MemoryUsedLuaBytes);
    v.push(MetricName::MemoryUsedVmEvalBytes);
    v.push(MetricName::MemoryUsedScriptsEvalBytes);
    v.push(MetricName::MemoryUsedOverheadBytes);
    v.push(MetricName::MemoryUsedStartupBytes);
    v.push(MetricName::MemoryUsedDatasetBytes);
    v.push(MetricName::NumberOfCachedScripts);
    v.push(MetricName::NumberOfFunctions);
    v.push(MetricName::NumberOfLibraries);
    v.push(MetricName::MemoryUsedVmFunctionsBytes);
    v.push(MetricName::MemoryUsedScriptsBytes);
    v.push(MetricName::MemoryUsedFunctionsBytes);
    v.push(MetricName::UsedMemoryVmTotal);
    v.push(MetricName::MemoryMaxBytes);
    v.push(MetricName::MemoryFragmentationRatio);
    v.push(MetricName::KeyspaceHitsTotal);
    v.push(MetricName::KeyspaceMissesTotal);
    v.push(MetricName::MasterLastIoSecondsAgo);
    v.push(MetricName::ConnectedSlaves);
    v.push(MetricName::CommandsTotal);
    v.push(MetricName::CommandsRejectedCallsTotal);
    v.push(MetricName::CommandsDurationSecondsTotal);
    v.push(MetricName::DbKeys);
    v.push(MetricName::DbKeysExpiring);
    v.push(MetricName::EvictedKeysTotal);
    proof {
        assert forall|n: MetricName| v@.contains(n) by {
            match n {
                MetricName::Up => assert(v@[0] == n),
                MetricName::UptimeInSeconds => assert(v@[1] == n),
                MetricName::ProcessId => assert(v@[2] == n),
                MetricName::IoThreadsActive => assert(v@[3] == n),
                MetricName::ConnectedClients => assert(v@[4] == n),
                MetricName::BlockedClients => assert(v@[5] == n),
                MetricName::TrackingClients => assert(v@[6] == n),
                MetricName::ClientsInTimeoutTable => assert(v@[7] == n),
                MetricName::PubsubClients => assert(v@[8] == n),
                MetricName::WatchingClients => assert(v@[9] == n),
                MetricName::TotalWatchedKeys => assert(v@[10] == n),
                MetricName::TotalBlockingKeys => assert(v@[11] == n),
                MetricName::TotalBlockingKeysOnNokey => assert(v@[12] == n),
                MetricName::ClientLongestOutputList => assert(v@[13] == n),
                MetricName::ClientBiggestInputBuf => assert(v@[14] == n),
                MetricName::ClientRecentMaxOutputBuffer => assert(v@[15] == n),
                MetricName::ClientRecentMaxInputBuffer => assert(v@[16] == n),
                MetricName::AllocatorActive => assert(v@[17] == n),
                MetricName::AllocatorAllocated => assert(v@[18] == n),
                MetricName::AllocatorResident => assert(v@[19] == n),
                MetricName::AllocatorFragRatio => assert(v@[20] == n),
                MetricName::AllocatorFragBytes => assert(v@[21] == n),
                MetricName::AllocatorRssRatio => assert(v@[22] == n),
                MetricName::AllocatorRssBytes => assert(v@[23] == n),
                MetricName::MemoryUsedBytes => assert(v@[24] == n),
                MetricName::MemoryUsedRssBytes => assert(v@[25] == n),
                MetricName::MemoryUsedPeakBytes => assert(v@[26] == n),
                MetricName::MemoryUsedLuaBytes => assert(v@[27] == n),
                MetricName::MemoryUsedVmEvalBytes => assert(v@[28] == n),
                MetricName::MemoryUsedScriptsEvalBytes => assert(v@[29] == n),
                MetricName::MemoryUsedOverheadBytes => assert(v@[30] == n),
                MetricName::MemoryUsedStartupBytes => assert(v@[31] == n),
                MetricName::MemoryUsedDatasetBytes => assert(v@[32] == n),
                MetricName::NumberOfCachedScripts => assert(v@[33] == n),
                MetricName::NumberOfFunctions => assert(v@[34] == n),
                MetricName::NumberOfLibraries => assert(v@[35] == n),
                MetricName::MemoryUsedVmFunctionsBytes => assert(v@[36] == n),
                MetricName::MemoryUsedScriptsBytes => assert(v@[37] == n),
                MetricName::MemoryUsedFunctionsBytes => assert(v@[38] == n),
                MetricName::UsedMemoryVmTotal => assert(v@[39] == n),
                MetricName::MemoryMaxBytes => assert(v@[40] == n),
                MetricName::MemoryFragmentationRatio => assert(v@[41] == n),
                MetricName::KeyspaceHitsTotal => assert(v@[42] == n),
                MetricName::KeyspaceMissesTotal => assert(v@[43] == n),
                MetricName::MasterLastIoSecondsAgo => assert(v@[44] == n),
                MetricName::ConnectedSlaves => assert(v@[45] == n),
                MetricName::CommandsTotal => assert(v@[46] == n),
                MetricName::CommandsRejectedCallsTotal => assert(v@[47] == n),
                MetricName::CommandsDurationSecondsTotal => assert(v@[48] == n),
                MetricName::DbKeys => assert(v@[49] == n),
                MetricName::DbKeysExpiring => assert(v@[50] == n),
                MetricName::EvictedKeysTotal => assert(v@[51] == n),
            }
        }
    }
    v
}

} // verus!
