//! Protocol and domain contracts of the KAMN core: channel policies, content
//! storage and lifecycle, replication, retrieval, classification, cross-chain
//! routing, replay consistency, and the M0/M1/M10/M11 data-layer contracts.
use vstd::prelude::*;

pub mod text;
pub mod strmap;
pub mod sorting;
pub mod config;
pub mod did;
pub mod constant_time_eq;
pub mod content_storage;
pub mod content_lifecycle;
pub mod channel_policies;
pub mod digest;
pub mod data_layer_m1;
pub mod cross_chain_bridge;
pub mod content_replication;
pub mod content_retrieval;
pub mod data_layer_m10_partition_archival;
pub mod cross_store_replay_consistency;
pub mod data_layer_m11_hardening_readiness;
pub mod data_layer_m0;
pub mod data_classification;
pub mod data_layer_m1_anchoring_orchestrator;

verus! {

} // verus!
