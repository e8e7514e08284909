//! A small operational toolkit: build, format and conclude invocations of
//! external command-line tools, and resolve the remote resources (a cluster
//! identifier, a cluster configuration file) that surround those invocations.
//!
//! Everything that decides or computes lives here, verified. The operating
//! system work itself — creating a process, draining its output pipes,
//! waiting for its exit, issuing an HTTP request — is injected by the caller
//! as a closure or performed by an unverified shell around this crate, and
//! the contracts here state how each outcome of that work is interpreted.

pub mod cmd;
pub mod digitalocean;
pub mod error;
