//! Configuration logic of a sandbox runtime: which diagnostic logs are shown and
//! captured, and how TLS connections of a sandbox are intercepted and routed.

pub mod log_args;
pub mod log_level;
pub mod tls;
pub mod tracing_plan;
