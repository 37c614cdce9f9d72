use kamn_core::config::{
    ConfigError, NodeConfig, NodeRole, SyncMode, SyncRecoveryStrategy, SyncStartupStrategy,
};

fn node_config(chain_id: &str, sync_mode: SyncMode) -> NodeConfig {
    NodeConfig {
        chain_id: chain_id.to_owned(),
        chain_version: "v0.1.0".to_owned(),
        role: NodeRole::Processor,
        storage_dir: "/tmp/kamn".to_owned(),
        enable_gossip: true,
        sync_mode,
    }
}

#[test]
fn parses_node_roles() {
    assert_eq!("processor".parse::<NodeRole>(), Ok(NodeRole::Processor));
    assert_eq!("listener".parse::<NodeRole>(), Ok(NodeRole::Listener));
    assert_eq!("approver".parse::<NodeRole>(), Ok(NodeRole::Approver));
}

#[test]
fn parses_sync_modes() {
    assert_eq!("fast".parse::<SyncMode>(), Ok(SyncMode::Fast));
    assert_eq!("slow".parse::<SyncMode>(), Ok(SyncMode::Slow));
    assert_eq!("archive".parse::<SyncMode>(), Ok(SyncMode::Archive));
}

#[test]
fn rejects_invalid_role() {
    assert_eq!("invalid".parse::<NodeRole>(), Err(ConfigError::InvalidRole("invalid".to_owned())));
}

#[test]
fn rejects_invalid_sync_mode() {
    assert_eq!("turbo".parse::<SyncMode>(), Err(ConfigError::InvalidSyncMode("turbo".to_owned())));
}

#[test]
fn validates_config_fields() {
    let config = node_config("kamn-devnet", SyncMode::Fast);
    assert!(config.validate().is_ok());
}

#[test]
fn operational_profile_maps_archive_recovery() {
    let config = node_config("kamn-devnet", SyncMode::Archive);
    let profile = config.operational_profile();
    assert_eq!(profile.mode, SyncMode::Archive);
    assert_eq!(profile.startup_strategy, SyncStartupStrategy::ArchiveStateSyncFromGenesis);
    assert_eq!(profile.recovery_strategy, SyncRecoveryStrategy::ReplayArchivedHistory);
    assert!(profile.maintain_full_history);
}

#[test]
fn rejects_empty_chain_id() {
    let config = node_config("", SyncMode::Fast);
    assert_eq!(config.validate(), Err(ConfigError::EmptyChainId));
}

#[test]
fn role_and_mode_labels_round_trip() {
    for role in [NodeRole::Processor, NodeRole::Listener, NodeRole::Approver] {
        assert_eq!(NodeRole::parse(role.as_str()), Ok(role));
    }
    for mode in [SyncMode::Fast, SyncMode::Slow, SyncMode::Archive] {
        assert_eq!(SyncMode::parse(mode.as_str()), Ok(mode));
    }
}
