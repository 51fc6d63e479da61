//! Keeps per-namespace image-pull credentials and service-account bindings
//! consistent with a centrally maintained credential list.
//!
//! The verified core models the cluster objects the agent touches (registry
//! secrets, service-account pull-secret lists) as plain values, decides for
//! every (namespace, credential) pair what must be written, and proves that
//! the decisions are deterministic, idempotent and isolated per pair.

pub mod config;
pub mod convergence;
pub mod model;
pub mod plan;
pub mod reconcile;
pub mod watch;
