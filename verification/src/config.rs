//! Node configuration contracts for role and sync-mode policy surfaces.
//!
//! Strongly typed role and synchronization profiles used by runtime startup,
//! recovery, and CLI/config validation paths.
use vstd::prelude::*;
use crate::text::{is_blank, is_blank_seq, str_eq};

verus! {

/// Node execution role determining primary runtime responsibilities.
#[derive(Debug, Clone, Copy, PartialEq, Eq, Structural)]
pub enum NodeRole {
    /// Processes and executes protocol work units.
    Processor,
    /// Primarily listens and relays events without approval authority.
    Listener,
    /// Reviews and approves gated transitions or proposals.
    Approver,
}

/// Canonical text of a role.
pub open spec fn role_text(role: NodeRole) -> Seq<char> {
    match role {
        NodeRole::Processor => "processor"@,
        NodeRole::Listener => "listener"@,
        NodeRole::Approver => "approver"@,
    }
}

/// Canonical text of a sync mode.
pub open spec fn sync_mode_text(mode: SyncMode) -> Seq<char> {
    match mode {
        SyncMode::Fast => "fast"@,
        SyncMode::Slow => "slow"@,
        SyncMode::Archive => "archive"@,
    }
}

impl NodeRole {
    /// Returns the canonical lowercase string form used in config parsing.
    pub fn as_str(&self) -> (s: &'static str)
        ensures
            s@ == role_text(*self),
    {
        match self {
            NodeRole::Processor => "processor",
            NodeRole::Listener => "listener",
            NodeRole::Approver => "approver",
        }
    }

    /// Parses the canonical lowercase form of a role.
    pub fn parse(value: &str) -> (r: Result<NodeRole, ConfigError>)
        ensures
            r matches Ok(role) ==> role_text(role) == value@,
            r is Err ==> (forall|role: NodeRole| role_text(role) != value@),
            r matches Err(e) ==> e matches ConfigError::InvalidRole(v) && v@ == value@,
    {
        if str_eq(value, "processor") {
            Ok(NodeRole::Processor)
        } else if str_eq(value, "listener") {
            Ok(NodeRole::Listener)
        } else if str_eq(value, "approver") {
            Ok(NodeRole::Approver)
        } else {
            proof {
                assert forall|role: NodeRole| role_text(role) != value@ by {
                    match role {
                        NodeRole::Processor => {},
                        NodeRole::Listener => {},
                        NodeRole::Approver => {},
                    }
                }
            }
            Err(ConfigError::InvalidRole(value.to_owned()))
        }
    }
}

impl std::str::FromStr for NodeRole {
    type Err = ConfigError;

    fn from_str(value: &str) -> (r: Result<Self, Self::Err>)
        ensures
            r matches Ok(role) ==> role_text(role) == value@,
            r is Err ==> (forall|role: NodeRole| role_text(role) != value@),
            r matches Err(e) ==> e matches ConfigError::InvalidRole(v) && v@ == value@,
    {
        NodeRole::parse(value)
    }
}

/// Chain synchronization mode used for startup and recovery planning.
#[derive(Debug, Clone, Copy, PartialEq, Eq, Structural)]
pub enum SyncMode {
    /// Prioritize fast startup with minimal replay.
    Fast,
    /// Replay more history with stricter version matching.
    Slow,
    /// Maintain complete historical state and replay coverage.
    Archive,
}

/// Startup strategy chosen by sync-mode policy.
#[derive(Debug, Clone, Copy, PartialEq, Eq, Structural)]
pub enum SyncStartupStrategy {
    /// Sync to latest state before serving traffic.
    StateSyncToLatest,
    /// Replay blocks from genesis to construct local state.
    BlockReplayFromGenesis,
    /// Perform archive-grade sync from genesis state.
    ArchiveStateSyncFromGenesis,
}

/// Recovery strategy chosen by sync-mode policy.
#[derive(Debug, Clone, Copy, PartialEq, Eq, Structural)]
pub enum SyncRecoveryStrategy {
    /// Resume from recent persisted state with minimal replay.
    ResumeRecentState,
    /// Replay only missing block range after outage.
    ReplayMissingBlocks,
    /// Replay archived history to preserve full lineage.
    ReplayArchivedHistory,
}

/// Derived operational profile for a selected synchronization mode.
#[derive(Debug, Clone, Copy, PartialEq, Eq, Structural)]
pub struct SyncOperationalProfile {
    /// Source sync mode that generated this profile.
    pub mode: SyncMode,
    /// Startup strategy contract for initialization.
    pub startup_strategy: SyncStartupStrategy,
    /// Recovery strategy contract after interruption.
    pub recovery_strategy: SyncRecoveryStrategy,
    /// Whether chain-version parity is required before joining.
    pub requires_chain_version_match: bool,
    /// Whether full historical state retention is required.
    pub maintain_full_history: bool,
}

/// The operational profile each sync mode resolves to.
pub open spec fn spec_profile(mode: SyncMode) -> SyncOperationalProfile {
    match mode {
        SyncMode::Fast => SyncOperationalProfile {
            mode,
            startup_strategy: SyncStartupStrategy::StateSyncToLatest,
            recovery_strategy: SyncRecoveryStrategy::ResumeRecentState,
            requires_chain_version_match: false,
            maintain_full_history: false,
        },
        SyncMode::Slow => SyncOperationalProfile {
            mode,
            startup_strategy: SyncStartupStrategy::BlockReplayFromGenesis,
            recovery_strategy: SyncRecoveryStrategy::ReplayMissingBlocks,
            requires_chain_version_match: true,
            maintain_full_history: false,
        },
        SyncMode::Archive => SyncOperationalProfile {
            mode,
            startup_strategy: SyncStartupStrategy::ArchiveStateSyncFromGenesis,
            recovery_strategy: SyncRecoveryStrategy::ReplayArchivedHistory,
            requires_chain_version_match: false,
            maintain_full_history: true,
        },
    }
}

impl SyncMode {
    /// Returns the canonical lowercase string form used in config parsing.
    pub fn as_str(&self) -> (s: &'static str)
        ensures
            s@ == sync_mode_text(*self),
    {
        match self {
            SyncMode::Fast => "fast",
            SyncMode::Slow => "slow",
            SyncMode::Archive => "archive",
        }
    }

    /// Resolves the operational startup/recovery profile for this sync mode.
    pub fn profile(self) -> (p: SyncOperationalProfile)
        ensures
            p == spec_profile(self),
    {
        match self {
            SyncMode::Fast => SyncOperationalProfile {
                mode: self,
                startup_strategy: SyncStartupStrategy::StateSyncToLatest,
                recovery_strategy: SyncRecoveryStrategy::ResumeRecentState,
                requires_chain_version_match: false,
                maintain_full_history: false,
            },
            SyncMode::Slow => SyncOperationalProfile {
                mode: self,
                startup_strategy: SyncStartupStrategy::BlockReplayFromGenesis,
                recovery_strategy: SyncRecoveryStrategy::ReplayMissingBlocks,
                requires_chain_version_match: true,
                maintain_full_history: false,
            },
            SyncMode::Archive => SyncOperationalProfile {
                mode: self,
                startup_strategy: SyncStartupStrategy::ArchiveStateSyncFromGenesis,
                recovery_strategy: SyncRecoveryStrategy::ReplayArchivedHistory,
                requires_chain_version_match: false,
                maintain_full_history: true,
            },
        }
    }

    /// Parses the canonical lowercase form of a sync mode.
    pub fn parse(value: &str) -> (r: Result<SyncMode, ConfigError>)
        ensures
            r matches Ok(mode) ==> sync_mode_text(mode) == value@,
            r is Err ==> (forall|mode: SyncMode| sync_mode_text(mode) != value@),
            r matches Err(e) ==> e matches ConfigError::InvalidSyncMode(v) && v@ == value@,
    {
        if str_eq(value, "fast") {
            Ok(SyncMode::Fast)
        } else if str_eq(value, "slow") {
            Ok(SyncMode::Slow)
        } else if str_eq(value, "archive") {
            Ok(SyncMode::Archive)
        } else {
            proof {
                assert forall|mode: SyncMode| sync_mode_text(mode) != value@ by {
                    match mode {
                        SyncMode::Fast => {},
                        SyncMode::Slow => {},
                        SyncMode::Archive => {},
                    }
                }
            }
            Err(ConfigError::InvalidSyncMode(value.to_owned()))
        }
    }
}

impl std::str::FromStr for SyncMode {
    type Err = ConfigError;

    fn from_str(value: &str) -> (r: Result<Self, Self::Err>)
        ensures
            r matches Ok(mode) ==> sync_mode_text(mode) == value@,
            r is Err ==> (forall|mode: SyncMode| sync_mode_text(mode) != value@),
            r matches Err(e) ==> e matches ConfigError::InvalidSyncMode(v) && v@ == value@,
    {
        SyncMode::parse(value)
    }
}

/// Node runtime configuration envelope validated before startup.
#[derive(Debug, Clone, PartialEq, Eq)]
pub struct NodeConfig {
    /// Logical chain identifier the node should join.
    pub chain_id: String,
    /// Expected chain runtime/schema version.
    pub chain_version: String,
    /// Node runtime role.
    pub role: NodeRole,
    /// Filesystem path used for durable node storage.
    pub storage_dir: String,
    /// Whether gossip transport is enabled.
    pub enable_gossip: bool,
    /// Synchronization mode used for startup/recovery.
    pub sync_mode: SyncMode,
}

/// Which field, if any, makes a configuration invalid (checked in field order).
pub open spec fn config_error(config: NodeConfig) -> Option<ConfigError> {
    if is_blank_seq(config.chain_id@) {
        Some(ConfigError::EmptyChainId)
    } else if is_blank_seq(config.chain_version@) {
        Some(ConfigError::EmptyChainVersion)
    } else if is_blank_seq(config.storage_dir@) {
        Some(ConfigError::EmptyStorageDir)
    } else {
        None
    }
}

impl NodeConfig {
    /// Validates required configuration fields for non-empty values.
    pub fn validate(&self) -> (r: Result<(), ConfigError>)
        ensures
            r is Ok <==> config_error(*self) is None,
            r matches Err(e) ==> config_error(*self) == Some(e),
    {
        if is_blank(self.chain_id.as_str()) {
            return Err(ConfigError::EmptyChainId);
        }
        if is_blank(self.chain_version.as_str()) {
            return Err(ConfigError::EmptyChainVersion);
        }
        if is_blank(self.storage_dir.as_str()) {
            return Err(ConfigError::EmptyStorageDir);
        }
        Ok(())
    }

    /// Returns the derived operational sync profile for this configuration.
    pub fn operational_profile(&self) -> (p: SyncOperationalProfile)
        ensures
            p == spec_profile(self.sync_mode),
    {
        self.sync_mode.profile()
    }
}

/// Error surface for config parsing and runtime option validation.
#[derive(Debug, Clone, PartialEq, Eq)]
pub enum ConfigError {
    /// `chain_id` was empty.
    EmptyChainId,
    /// `chain_version` was empty.
    EmptyChainVersion,
    /// `storage_dir` was empty.
    EmptyStorageDir,
    /// Migration planning argument validation failed.
    MigrationPlan(String),
    /// Token model argument validation failed.
    TokenModel(String),
    /// Unknown or invalid node role string.
    InvalidRole(String),
    /// Unknown or invalid sync mode string.
    InvalidSyncMode(String),
    /// Unknown or invalid output mode string.
    InvalidOutputMode(String),
    /// Unknown or invalid node profile string.
    InvalidNodeProfile(String),
    /// Unknown or invalid diagnostics mode string.
    InvalidDiagnosticsMode(String),
    /// Unknown or invalid runtime mode string.
    InvalidRuntimeMode(String),
    /// Invalid expected state version argument.
    InvalidExpectedStateVersion(String),
    /// Invalid daemon control argument.
    InvalidDaemonControlArgument(String),
    /// Invalid daemon lifecycle event argument.
    InvalidDaemonLifecycleEvent(String),
    /// Invalid governance proposal argument.
    InvalidProposalArgument(String),
    /// Invalid rejoin-attempt argument.
    InvalidRejoinAttemptArgument(String),
    /// Runtime planner argument validation failure.
    RuntimePlanner(String),
    /// Runtime recovery argument validation failure.
    RuntimeRecovery(String),
    /// Runtime daemon lifecycle argument validation failure.
    RuntimeDaemonLifecycle(String),
    /// Unknown command-line/config argument.
    UnknownArgument(String),
    /// Argument flag required a value but none was provided.
    MissingArgumentValue(&'static str),
}

/// The error's message text.
pub open spec fn config_error_message(e: ConfigError) -> Seq<char> {
    match e {
        ConfigError::EmptyChainId => "chain_id must not be empty"@,
        ConfigError::EmptyChainVersion => "chain_version must not be empty"@,
        ConfigError::EmptyStorageDir => "storage_dir must not be empty"@,
        ConfigError::MigrationPlan(message) => "migration planning failed: "@ + message@,
        ConfigError::TokenModel(message) => "token model validation failed: "@ + message@,
        ConfigError::InvalidRole(value) => "invalid role: "@ + value@,
        ConfigError::InvalidSyncMode(value) => "invalid sync mode: "@ + value@,
        ConfigError::InvalidOutputMode(value) => "invalid output mode: "@ + value@,
        ConfigError::InvalidNodeProfile(value) => "invalid node profile: "@ + value@,
        ConfigError::InvalidDiagnosticsMode(value) => "invalid diagnostics mode: "@ + value@,
        ConfigError::InvalidRuntimeMode(value) => "invalid runtime mode: "@ + value@,
        ConfigError::InvalidExpectedStateVersion(value) => "invalid expected state version: "@ + value@,
        ConfigError::InvalidDaemonControlArgument(value) => "invalid daemon control argument: "@ + value@,
        ConfigError::InvalidDaemonLifecycleEvent(value) => "invalid daemon lifecycle event: "@ + value@,
        ConfigError::InvalidProposalArgument(value) => "invalid proposal argument: "@ + value@,
        ConfigError::InvalidRejoinAttemptArgument(value) => "invalid rejoin attempt argument: "@ + value@,
        ConfigError::RuntimePlanner(message) => "runtime planner validation failed: "@ + message@,
        ConfigError::RuntimeRecovery(message) => "runtime recovery validation failed: "@ + message@,
        ConfigError::RuntimeDaemonLifecycle(message) => "runtime daemon lifecycle validation failed: "@ + message@,
        ConfigError::UnknownArgument(value) => "unknown argument: "@ + value@,
        ConfigError::MissingArgumentValue(flag) => "missing value for argument: "@ + flag@,
    }
}

impl ConfigError {
    /// The error's message text.
    pub fn message(&self) -> (r: String)
        ensures
            r@ == config_error_message(*self),
    {
        match self {
            ConfigError::EmptyChainId => {
                let mut out = String::new();
                out.append("chain_id must not be empty");
                proof {
                    assert(out@ =~= "chain_id must not be empty"@);
                }
                out
            },
            ConfigError::EmptyChainVersion => {
                let mut out = String::new();
                out.append("chain_version must not be empty");
                proof {
                    assert(out@ =~= "chain_version must not be empty"@);
                }
                out
            },
            ConfigError::EmptyStorageDir => {
                let mut out = String::new();
                out.append("storage_dir must not be empty");
                proof {
                    assert(out@ =~= "storage_dir must not be empty"@);
                }
                out
            },
            ConfigError::MigrationPlan(message) => {
                let mut out = String::new();
                out.append("migration planning failed: ");
                out.append(message.as_str());
                proof {
                    assert(out@ =~= "migration planning failed: "@ + message@);
                }
                out
            },
            ConfigError::TokenModel(message) => {
                let mut out = String::new();
                out.append("token model validation failed: ");
                out.append(message.as_str());
                proof {
                    assert(out@ =~= "token model validation failed: "@ + message@);
                }
                out
            },
            ConfigError::InvalidRole(value) => {
                let mut out = String::new();
                out.append("invalid role: ");
                out.append(value.as_str());
                proof {
                    assert(out@ =~= "invalid role: "@ + value@);
                }
                out
            },
            ConfigError::InvalidSyncMode(value) => {
                let mut out = String::new();
                out.append("invalid sync mode: ");
                out.append(value.as_str());
                proof {
                    assert(out@ =~= "invalid sync mode: "@ + value@);
                }
                out
            },
            ConfigError::InvalidOutputMode(value) => {
                let mut out = String::new();
                out.append("invalid output mode: ");
                out.append(value.as_str());
                proof {
                    assert(out@ =~= "invalid output mode: "@ + value@);
                }
                out
            },
            ConfigError::InvalidNodeProfile(value) => {
                let mut out = String::new();
                out.append("invalid node profile: ");
                out.append(value.as_str());
                proof {
                    assert(out@ =~= "invalid node profile: "@ + value@);
                }
                out
            },
            ConfigError::InvalidDiagnosticsMode(value) => {
                let mut out = String::new();
                out.append("invalid diagnostics mode: ");
                out.append(value.as_str());
                proof {
                    assert(out@ =~= "invalid diagnostics mode: "@ + value@);
                }
                out
            },
            ConfigError::InvalidRuntimeMode(value) => {
                let mut out = String::new();
                out.append("invalid runtime mode: ");
                out.append(value.as_str());
                proof {
                    assert(out@ =~= "invalid runtime mode: "@ + value@);
                }
                out
            },
            ConfigError::InvalidExpectedStateVersion(value) => {
                let mut out = String::new();
                out.append("invalid expected state version: ");
                out.append(value.as_str());
                proof {
                    assert(out@ =~= "invalid expected state version: "@ + value@);
                }
                out
            },
            ConfigError::InvalidDaemonControlArgument(value) => {
                let mut out = String::new();
                out.append("invalid daemon control argument: ");
                out.append(value.as_str());
                proof {
                    assert(out@ =~= "invalid daemon control argument: "@ + value@);
                }
                out
            },
            ConfigError::InvalidDaemonLifecycleEvent(value) => {
                let mut out = String::new();
                out.append("invalid daemon lifecycle event: ");
                out.append(value.as_str());
                proof {
                    assert(out@ =~= "invalid daemon lifecycle event: "@ + value@);
                }
                out
            },
            ConfigError::InvalidProposalArgument(value) => {
                let mut out = String::new();
                out.append("invalid proposal argument: ");
                out.append(value.as_str());
                proof {
                    assert(out@ =~= "invalid proposal argument: "@ + value@);
                }
                out
            },
            ConfigError::InvalidRejoinAttemptArgument(value) => {
                let mut out = String::new();
                out.append("invalid rejoin attempt argument: ");
                out.append(value.as_str());
                proof {
                    assert(out@ =~= "invalid rejoin attempt argument: "@ + value@);
                }
                out
            },
            ConfigError::RuntimePlanner(message) => {
                let mut out = String::new();
                out.append("runtime planner validation failed: ");
                out.append(message.as_str());
                proof {
                    assert(out@ =~= "runtime planner validation failed: "@ + message@);
                }
                out
            },
            ConfigError::RuntimeRecovery(message) => {
                let mut out = String::new();
                out.append("runtime recovery validation failed: ");
                out.append(message.as_str());
                proof {
                    assert(out@ =~= "runtime recovery validation failed: "@ + message@);
                }
                out
            },
            ConfigError::RuntimeDaemonLifecycle(message) => {
                let mut out = String::new();
                out.append("runtime daemon lifecycle validation failed: ");
                out.append(message.as_str());
                proof {
                    assert(out@ =~= "runtime daemon lifecycle validation failed: "@ + message@);
                }
                out
            },
            ConfigError::UnknownArgument(value) => {
                let mut out = String::new();
                out.append("unknown argument: ");
                out.append(value.as_str());
                proof {
                    assert(out@ =~= "unknown argument: "@ + value@);
                }
                out
            },
            ConfigError::MissingArgumentValue(flag) => {
                let mut out = String::new();
                out.append("missing value for argument: ");
                out.append(*flag);
                proof {
                    assert(out@ =~= "missing value for argument: "@ + flag@);
                }
                out
            },
        }
    }
}

/// The sync modes differ in how a node starts and recovers: the fast mode
/// syncs to the latest state and resumes from recent state; the slow mode
/// replays blocks from genesis, replays missing blocks after an outage, and
/// alone insists on a matching chain version; the archive mode syncs archive
/// state from genesis, replays archived history and alone keeps full history.
/// Distinct modes start, and recover, differently, and each profile names
/// its own mode.
pub proof fn lemma_sync_profiles(m: SyncMode, n: SyncMode)
    ensures
        spec_profile(m).mode == m,
        m != n ==> spec_profile(m).startup_strategy != spec_profile(n).startup_strategy,
        m != n ==> spec_profile(m).recovery_strategy != spec_profile(n).recovery_strategy,
        (spec_profile(m).startup_strategy == SyncStartupStrategy::StateSyncToLatest) <==> (m == SyncMode::Fast),
        (spec_profile(m).recovery_strategy == SyncRecoveryStrategy::ResumeRecentState) <==> (m == SyncMode::Fast),
        (spec_profile(m).startup_strategy == SyncStartupStrategy::BlockReplayFromGenesis) <==> (m == SyncMode::Slow),
        (spec_profile(m).recovery_strategy == SyncRecoveryStrategy::ReplayMissingBlocks) <==> (m == SyncMode::Slow),
        spec_profile(m).requires_chain_version_match <==> (m == SyncMode::Slow),
        (spec_profile(m).startup_strategy == SyncStartupStrategy::ArchiveStateSyncFromGenesis) <==> (m
            == SyncMode::Archive),
        (spec_profile(m).recovery_strategy == SyncRecoveryStrategy::ReplayArchivedHistory) <==> (m
            == SyncMode::Archive),
        spec_profile(m).maintain_full_history <==> (m == SyncMode::Archive),
{
}

} // verus!
