//! Firecracker microVM runtime for OpenShell sandboxes, planned and decided in verified code.
//!
//! # Architecture
//!
//! Each sandbox gets:
//! - a dedicated TAP device (`fc-tap-<id>`) with a /30 subnet ([`tap`], [`subnet`]),
//! - a dm-snapshot workspace overlay, copy-on-write on top of a base ext4 image that is made for
//!   the sandbox (`<id>-ws-base.img`) ([`overlay`]),
//! - iptables rules that redirect all VM TCP egress to the host-side proxy ([`routing`]),
//! - a Firecracker process restored from a base snapshot ([`vm`], [`runtime`]).
//!
//! # Plans and runs
//!
//! Nothing in this crate touches the host. What is to be done is a [`plan`]: operations
//! ([`host`]) in order, each with what is to be released when it fails. A [`run`] of a plan says
//! which action comes next; a driver performs it and hands back an [`event`], and the
//! [`verdict`] on that event decides how the run goes on. What the host has told in the course
//! of a run are its [`facts`].
//!
//! The contract of a function that starts a run gives the whole plan; the laws in [`run`] say
//! what a run of any plan does.

pub mod api;
pub mod error;
pub mod event;
pub mod facts;
pub mod host;
pub mod id;
pub mod overlay;
pub mod plan;
pub mod routing;
pub mod run;
pub mod runtime;
pub mod sandbox;
pub mod size;
pub mod subnet;
pub mod tap;
pub mod text;
pub mod verdict;
pub mod vm;

pub use runtime::{FirecrackerRuntime, FirecrackerRuntimeConfig};
