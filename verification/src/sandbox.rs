//! `SandboxRuntime`: abstraction over sandbox execution backends, and the Firecracker one.

use crate::subnet::Ipv4Addr;
use vstd::prelude::*;
use vstd::string::*;

verus! {

/// Error returned by [`SandboxRuntime::create`].
#[derive(Debug)]
pub enum RuntimeCreateError {
    /// A sandbox with this name already exists.
    AlreadyExists,
    /// Any other failure.
    Other(String),
}

/// The message that tells an error of creation.
pub open spec fn create_error_message(error: RuntimeCreateError) -> Seq<char> {
    match error {
        RuntimeCreateError::AlreadyExists => "sandbox already exists"@,
        RuntimeCreateError::Other(text) => text@,
    }
}

impl RuntimeCreateError {
    /// The message that tells this error.
    pub fn message(&self) -> (text: String)
        ensures
            text@ == create_error_message(*self),
    {
        match self {
            RuntimeCreateError::AlreadyExists => "sandbox already exists".to_owned(),
            RuntimeCreateError::Other(text) => text.clone(),
        }
    }
}

/// The gRPC status codes that a runtime answers with.
#[derive(Clone, Copy, PartialEq, Eq, Debug, Structural)]
pub enum StatusCode {
    /// The operation is not implemented or not supported.
    Unimplemented,
}

/// A gRPC status, ready to be returned to a caller.
#[derive(Debug)]
pub struct Status {
    pub code: StatusCode,
    pub message: String,
}

/// Abstraction over sandbox execution backends.
pub trait SandboxRuntime {
    /// Default container/disk image for new sandboxes (used when the spec does not specify
    /// one).
    fn default_image(&self) -> (image: &str);

    /// Verify the runtime can satisfy a GPU sandbox request.
    fn validate_gpu_support(&self) -> (result: Result<(), Status>);

    /// Create the sandbox of this name.
    ///
    /// Returns [`RuntimeCreateError::AlreadyExists`] when a sandbox with the same name is
    /// already running.
    fn create(&self, sandbox_name: &str) -> (result: Result<(), RuntimeCreateError>);

    /// Delete a sandbox by name.
    ///
    /// Returns `Ok(true)` when the sandbox was found and deleted, `Ok(false)` when it was
    /// already gone.
    fn delete(&self, sandbox_name: &str) -> (result: Result<bool, String>);

    /// Resolve the IP address for the running agent process inside a sandbox.
    ///
    /// Returns `Ok(None)` when the sandbox is not yet ready.
    fn agent_ip(&self, identifier: &str) -> (result: Result<Option<Ipv4Addr>, String>);
}

/// Firecracker microVM runtime, not yet wired to the VM lifecycle.
#[derive(Debug)]
pub struct FirecrackerSandboxRuntime {
    default_image: String,
}

impl View for FirecrackerSandboxRuntime {
    type V = Seq<char>;

    /// The default image.
    closed spec fn view(&self) -> Seq<char> {
        self.default_image@
    }
}

impl FirecrackerSandboxRuntime {
    /// A runtime with the given default image.
    pub fn new(default_image: String) -> (runtime: Self)
        ensures
            runtime@ == default_image@,
    {
        Self { default_image }
    }
}

impl SandboxRuntime for FirecrackerSandboxRuntime {
    fn default_image(&self) -> (image: &str)
        ensures
            image@ == self@,
    {
        self.default_image.as_str()
    }

    fn validate_gpu_support(&self) -> (result: Result<(), Status>)
        ensures
            result matches Err(status) && status.code == StatusCode::Unimplemented
                && status.message@ == "GPU sandboxes are not supported by the Firecracker runtime"@,
    {
        Err(
            Status {
                code: StatusCode::Unimplemented,
                message: "GPU sandboxes are not supported by the Firecracker runtime".to_owned(),
            },
        )
    }

    fn create(&self, _sandbox_name: &str) -> (result: Result<(), RuntimeCreateError>)
        ensures
            result matches Err(RuntimeCreateError::Other(text)) && text@
                == "Firecracker runtime: create not yet implemented (Phase 4)"@,
    {
        Err(
            RuntimeCreateError::Other(
                "Firecracker runtime: create not yet implemented (Phase 4)".to_owned(),
            ),
        )
    }

    fn delete(&self, _sandbox_name: &str) -> (result: Result<bool, String>)
        ensures
            result matches Err(text) && text@
                == "Firecracker runtime: delete not yet implemented (Phase 4)"@,
    {
        Err("Firecracker runtime: delete not yet implemented (Phase 4)".to_owned())
    }

    fn agent_ip(&self, _identifier: &str) -> (result: Result<Option<Ipv4Addr>, String>)
        ensures
            result matches Err(text) && text@
                == "Firecracker runtime: agent_ip not yet implemented (Phase 4)"@,
    {
        Err("Firecracker runtime: agent_ip not yet implemented (Phase 4)".to_owned())
    }
}

// ── Laws ─────────────────────────────────────────────────────────────────────

/// A sandbox that exists is told as such; any other failure is told by its own text.
pub proof fn law_create_error_messages(text: String)
    ensures
        create_error_message(RuntimeCreateError::AlreadyExists) == "sandbox already exists"@,
        create_error_message(RuntimeCreateError::Other(text)) == text@,
{
}

} // verus!
