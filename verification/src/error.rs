//! What can go wrong with a microVM.

use crate::text::{cat, cat3, decimal, decimal_text};
use vstd::prelude::*;
use vstd::string::*;

verus! {

/// A failure of the Firecracker runtime.
#[derive(Debug)]
pub enum FirecrackerError {
    /// A tap device could not be set up.
    Tap(String),
    /// A workspace overlay could not be set up.
    Overlay(String),
    /// Firecracker refused a request, or the request could not be written (status 0).
    Api { status: u16, body: String },
    /// Firecracker could not be reached, or its answer not be read.
    ApiConnect(String),
    /// The VM process could not be started.
    Process(String),
    /// A snapshot could not be taken.
    Snapshot(String),
    /// A routing rule could not be set.
    Routing(String),
    /// The host has no `/dev/kvm`.
    KvmUnavailable,
    /// There is no firecracker binary at `path`.
    BinaryNotFound { path: String },
    /// The operating system reported an error.
    Io(String),
}

/// The content of a [`FirecrackerError`].
pub enum Failure {
    Tap(Seq<char>),
    Overlay(Seq<char>),
    Api { status: u16, body: Seq<char> },
    ApiConnect(Seq<char>),
    Process(Seq<char>),
    Snapshot(Seq<char>),
    Routing(Seq<char>),
    KvmUnavailable,
    BinaryNotFound { path: Seq<char> },
    Io(Seq<char>),
}

impl View for FirecrackerError {
    type V = Failure;

    open spec fn view(&self) -> Failure {
        match self {
            FirecrackerError::Tap(text) => Failure::Tap(text@),
            FirecrackerError::Overlay(text) => Failure::Overlay(text@),
            FirecrackerError::Api { status, body } => Failure::Api { status: *status, body: body@ },
            FirecrackerError::ApiConnect(text) => Failure::ApiConnect(text@),
            FirecrackerError::Process(text) => Failure::Process(text@),
            FirecrackerError::Snapshot(text) => Failure::Snapshot(text@),
            FirecrackerError::Routing(text) => Failure::Routing(text@),
            FirecrackerError::KvmUnavailable => Failure::KvmUnavailable,
            FirecrackerError::BinaryNotFound { path } => Failure::BinaryNotFound { path: path@ },
            FirecrackerError::Io(text) => Failure::Io(text@),
        }
    }
}

/// The message that tells a failure.
pub open spec fn message(failure: Failure) -> Seq<char> {
    match failure {
        Failure::Tap(text) => "tap device error: "@ + text,
        Failure::Overlay(text) => "overlay error: "@ + text,
        Failure::Api { status, body } => "Firecracker API error ("@ + decimal(status as nat) + "): "@
            + body,
        Failure::ApiConnect(text) => "Firecracker API connection error: "@ + text,
        Failure::Process(text) => "VM process error: "@ + text,
        Failure::Snapshot(text) => "snapshot error: "@ + text,
        Failure::Routing(text) => "routing error: "@ + text,
        Failure::KvmUnavailable => "/dev/kvm is not available — Firecracker requires KVM"@,
        Failure::BinaryNotFound { path } => "firecracker binary not found at "@ + path,
        Failure::Io(text) => text,
    }
}

impl FirecrackerError {
    /// The message that tells this error.
    pub fn message(&self) -> (text: String)
        ensures
            text@ == message(self@),
    {
        match self {
            FirecrackerError::Tap(text) => cat("tap device error: ", text.as_str()),
            FirecrackerError::Overlay(text) => cat("overlay error: ", text.as_str()),
            FirecrackerError::Api { status, body } => cat3(
                "Firecracker API error (",
                decimal_text(*status as u64).as_str(),
                "): ",
            ).concat(body.as_str()),
            FirecrackerError::ApiConnect(text) => cat(
                "Firecracker API connection error: ",
                text.as_str(),
            ),
            FirecrackerError::Process(text) => cat("VM process error: ", text.as_str()),
            FirecrackerError::Snapshot(text) => cat("snapshot error: ", text.as_str()),
            FirecrackerError::Routing(text) => cat("routing error: ", text.as_str()),
            FirecrackerError::KvmUnavailable =>
                "/dev/kvm is not available — Firecracker requires KVM".to_owned(),
            FirecrackerError::BinaryNotFound { path } => cat(
                "firecracker binary not found at ",
                path.as_str(),
            ),
            FirecrackerError::Io(text) => text.clone(),
        }
    }
}

// ── Laws ─────────────────────────────────────────────────────────────────────

/// A message names what went wrong and ends with the text that came with it, whole.
pub proof fn law_messages(text: Seq<char>, status: u16)
    ensures
        message(Failure::Tap(text)) == "tap device error: "@ + text,
        message(Failure::Overlay(text)) == "overlay error: "@ + text,
        message(Failure::Api { status, body: text }) == "Firecracker API error ("@ + decimal(
            status as nat,
        ) + "): "@ + text,
        message(Failure::ApiConnect(text)) == "Firecracker API connection error: "@ + text,
        message(Failure::Process(text)) == "VM process error: "@ + text,
        message(Failure::Snapshot(text)) == "snapshot error: "@ + text,
        message(Failure::Routing(text)) == "routing error: "@ + text,
        message(Failure::KvmUnavailable)
            == "/dev/kvm is not available — Firecracker requires KVM"@,
        message(Failure::BinaryNotFound { path: text }) == "firecracker binary not found at "@
            + text,
        message(Failure::Io(text)) == text,
{
}

/// What is said of an error is what the error holds.
pub proof fn law_errors_are_what_they_say(text: String, status: u16)
    ensures
        FirecrackerError::Tap(text)@ == Failure::Tap(text@),
        FirecrackerError::Overlay(text)@ == Failure::Overlay(text@),
        (FirecrackerError::Api { status, body: text })@ == (Failure::Api { status, body: text@ }),
        FirecrackerError::ApiConnect(text)@ == Failure::ApiConnect(text@),
        FirecrackerError::Process(text)@ == Failure::Process(text@),
        FirecrackerError::Snapshot(text)@ == Failure::Snapshot(text@),
        FirecrackerError::Routing(text)@ == Failure::Routing(text@),
        FirecrackerError::KvmUnavailable@ == Failure::KvmUnavailable,
        (FirecrackerError::BinaryNotFound { path: text })@ == (Failure::BinaryNotFound {
            path: text@,
        }),
        FirecrackerError::Io(text)@ == Failure::Io(text@),
{
}

} // verus!
