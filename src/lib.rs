//! Request authorization for a federated graph gateway: root-field
//! introspection, fact derivation, policy evaluation through a capability
//! token engine, identity extraction and per-hop token narrowing.

pub mod attenuate;
pub mod context;
pub mod engine;
pub mod error;
pub mod facts;
pub mod decision;
pub mod operation;
pub mod request;
pub mod token;
