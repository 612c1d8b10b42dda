//! Environment resolution for sandboxed applications: the request sent to the
//! control plane, the two-stage reading of its answer, and the merge of global
//! and app-scoped settings into an ordered list of environment writes.
pub mod environment;
pub mod json;
pub mod launch;
pub mod resolve;
pub mod text;
