//! Native-side bridge for the Weld engine: a verified string and pattern
//! runtime for generated code, and the decision logic of the host bridge.
pub mod bridge;
pub mod conf;
pub mod handles;
pub mod log_level;
pub mod text;
pub mod utf8lib;
