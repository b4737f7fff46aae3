//! Control-plane core of a service-mesh sidecar proxy.
//!
//! Three pieces compose the library: an identity daemon that keeps a
//! workload certificate fresh, a per-destination HTTP profile router
//! that dispatches requests to route-specialized services, and the
//! telemetry sensors that count router errors.
pub mod identity;
pub mod matching;
pub mod order;
pub mod profiles;
pub mod router;
pub mod telemetry;
