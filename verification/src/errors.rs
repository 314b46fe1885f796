//! The failure kinds of the pipeline, each with an exactly specified
//! human-readable rendering.

use crate::hostspec::HostSpecError;
use crate::strutil::{join_strings, join_with};
use vstd::prelude::*;

verus! {

/// Everything that can go wrong between hostname and bridge.
#[derive(Debug, Clone, PartialEq, Eq)]
pub enum SshPodError {
    /// The hostname did not decode.
    BadHostname { err: HostSpecError },
    /// The requested context is not configured.
    UnknownContext { context: String, available: Vec<String> },
    /// A cluster CLI call failed; `detail` carries its stderr.
    ClusterQueryFailed { detail: String },
    /// The selector matched no pods.
    NoPodFound { kind: String, selector: String, namespace: String },
    /// The container choice is missing or wrong for this pod.
    AmbiguousContainer { requested: Option<String>, pod: String, containers: Vec<String> },
    /// `uname -m` reported a machine outside the supported set.
    UnsupportedArch { machine: String },
    /// No payload is embedded and no sibling bundle file exists.
    BundleMissing { filename: String },
    /// All three decompression strategies failed.
    BundleInstallFailed { base: String, xz_error: String, gzip_error: String, plain_error: String },
    /// The container runs as a non-root user other than the requested one.
    UserMismatch { requested: String, actual: String },
    /// Port attempts were exhausted without a live daemon.
    SshdStartFailed { log_path: String, detail: String },
    /// A pump direction failed inside the bridge.
    BridgeIoError { detail: String },
    /// The port-forward could not be started or died early.
    PortForwardFailed { detail: String },
}

impl SshPodError {
    /// What `message` returns, character for character.
    pub open spec fn spec_message(&self) -> Seq<char> {
        match self {
            SshPodError::BadHostname { err } => match err {
                HostSpecError::MissingSuffix => ("hostname must end with .sshpod")@,
                HostSpecError::InvalidFormat => (
                "hostname must contain exactly one pod--/deployment--/job-- target with optional container--, namespace-- and context-- qualifiers"
                )@,
            },
            SshPodError::UnknownContext { context, available } => ("context `")@ + context@ + (
            "` not found. Available contexts: ")@ + join_with(available.deep_view(), (", ")@),
            SshPodError::ClusterQueryFailed { detail } => ("cluster query failed: ")@ + detail@,
            SshPodError::NoPodFound { kind, selector, namespace } => ("no pods found for ")@
                + kind@ + (" selector `")@ + selector@ + ("` in namespace ")@ + namespace@,
            SshPodError::AmbiguousContainer { requested, pod, containers } => match requested {
                Option::Some(c) => ("container `")@ + c@ + ("` not found in pod ")@ + pod@ + (
                " (containers: ")@ + join_with(containers.deep_view(), (", ")@) + (")")@,
                Option::None => ("pod ")@ + pod@ + (" has multiple containers (")@ + join_with(
                    containers.deep_view(),
                    (", ")@,
                ) + ("); add a container--<name> qualifier")@,
            },
            SshPodError::UnsupportedArch { machine } => ("unsupported remote architecture: ")@
                + machine@,
            SshPodError::BundleMissing { filename } => ("bundle file ")@ + filename@ + (
            " not found; place it alongside the binary or in ./bundles")@,
            SshPodError::BundleInstallFailed { base, xz_error, gzip_error, plain_error } => (
            "failed to install bundle into ")@ + base@ + (" (xz error: ")@ + xz_error@ + (
            "; gzip error: ")@ + gzip_error@ + ("; plain error: ")@ + plain_error@ + (")")@,
            SshPodError::UserMismatch { requested, actual } => (
            "this pod runs as non-root; use the container user for login (requested: ")@
                + requested@ + (", required: ")@ + actual@ + (")")@,
            SshPodError::SshdStartFailed { log_path, detail } => (
            "sshd did not start; see ")@ + log_path@ + (": ")@ + detail@,
            SshPodError::BridgeIoError { detail } => ("bridge I/O failed: ")@ + detail@,
            SshPodError::PortForwardFailed { detail } => ("port-forward failed: ")@ + detail@,
        }
    }

    /// Render the error for the terminal.
    pub fn message(&self) -> (r: String)
        ensures
            r@ == self.spec_message(),
    {
        match self {
            SshPodError::BadHostname { err } => match err {
                HostSpecError::MissingSuffix => {
                    let r = String::from_str("hostname must end with .sshpod");
                    r
                },
                HostSpecError::InvalidFormat => {
                    let r = String::from_str(
                        "hostname must contain exactly one pod--/deployment--/job-- target with optional container--, namespace-- and context-- qualifiers",
                    );
                    r
                },
            },
            SshPodError::UnknownContext { context, available } => {
                let mut r = String::from_str("context `");
                r.append(context.as_str());
                r.append("` not found. Available contexts: ");
                let joined = join_strings(available, ", ");
                r.append(joined.as_str());
                r
            },
            SshPodError::ClusterQueryFailed { detail } => {
                let mut r = String::from_str("cluster query failed: ");
                r.append(detail.as_str());
                r
            },
            SshPodError::NoPodFound { kind, selector, namespace } => {
                let mut r = String::from_str("no pods found for ");
                r.append(kind.as_str());
                r.append(" selector `");
                r.append(selector.as_str());
                r.append("` in namespace ");
                r.append(namespace.as_str());
                r
            },
            SshPodError::AmbiguousContainer { requested, pod, containers } => match requested {
                Option::Some(c) => {
                    let mut r = String::from_str("container `");
                    r.append(c.as_str());
                    r.append("` not found in pod ");
                    r.append(pod.as_str());
                    r.append(" (containers: ");
                    let joined = join_strings(containers, ", ");
                    r.append(joined.as_str());
                    r.append(")");
                    r
                },
                Option::None => {
                    let mut r = String::from_str("pod ");
                    r.append(pod.as_str());
                    r.append(" has multiple containers (");
                    let joined = join_strings(containers, ", ");
                    r.append(joined.as_str());
                    r.append("); add a container--<name> qualifier");
                    r
                },
            },
            SshPodError::UnsupportedArch { machine } => {
                let mut r = String::from_str("unsupported remote architecture: ");
                r.append(machine.as_str());
                r
            },
            SshPodError::BundleMissing { filename } => {
                let mut r = String::from_str("bundle file ");
                r.append(filename.as_str());
                r.append(" not found; place it alongside the binary or in ./bundles");
                r
            },
            SshPodError::BundleInstallFailed { base, xz_error, gzip_error, plain_error } => {
                let mut r = String::from_str("failed to install bundle into ");
                r.append(base.as_str());
                r.append(" (xz error: ");
                r.append(xz_error.as_str());
                r.append("; gzip error: ");
                r.append(gzip_error.as_str());
                r.append("; plain error: ");
                r.append(plain_error.as_str());
                r.append(")");
                r
            },
            SshPodError::UserMismatch { requested, actual } => {
                let mut r = String::from_str(
                    "this pod runs as non-root; use the container user for login (requested: ",
                );
                r.append(requested.as_str());
                r.append(", required: ");
                r.append(actual.as_str());
                r.append(")");
                r
            },
            SshPodError::SshdStartFailed { log_path, detail } => {
                let mut r = String::from_str("sshd did not start; see ");
                r.append(log_path.as_str());
                r.append(": ");
                r.append(detail.as_str());
                r
            },
            SshPodError::BridgeIoError { detail } => {
                let mut r = String::from_str("bridge I/O failed: ");
                r.append(detail.as_str());
                r
            },
            SshPodError::PortForwardFailed { detail } => {
                let mut r = String::from_str("port-forward failed: ");
                r.append(detail.as_str());
                r
            },
        }
    }
}

} // verus!
