//! Verified domain core of a Monas state node: value objects, identities,
//! capabilities, access control, content networks, token checks, the
//! decisions that the node service takes on requests, events and
//! placement, the answers of its HTTP API, and client-side credentials.

pub mod identity;
pub mod key_store;
pub mod keyed;
pub mod merge_policy;
pub mod monas_account;
pub mod network;
pub mod node_auth;
pub mod node_service;
pub mod placement;
pub mod value_objects;
pub mod access_control;
pub mod access_policy;
pub mod auth_capability;
pub mod auth_token;
pub mod auth_token_verifier;
pub mod config;
pub mod content_network;
pub mod content_network_repository;
pub mod content_storage_repository;
pub mod credentials;
pub mod crypto;
pub mod encoding;
pub mod errors;
pub mod event_routing;
pub mod events;
pub mod http_api;
pub mod inbox;
pub mod signature_verifier;
pub mod state_node;
pub mod storage;
pub mod service_steps;
pub mod sync;
pub mod text;
pub mod ucan;
pub mod universal_network;
