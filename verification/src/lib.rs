//! Verified core of an SSH `ProxyCommand` helper that reaches Kubernetes
//! workloads through the cluster CLI: hostname parsing, target resolution,
//! selector rendering, bundle installation planning, and the remote
//! bootstrap decisions.

pub mod bundle;
pub mod cli;
pub mod cluster;
pub mod errors;
pub mod hostspec;
pub mod keys;
pub mod pods;
pub mod remote;
pub mod selector;
pub mod session;
pub mod strutil;

pub use cli::ProxyArgs;
pub use errors::SshPodError;
pub use hostspec::{parse, HostSpec, HostSpecError, Target};
pub use keys::LocalKey;
pub use pods::PodInfo;
