//! The sandbox runtime that is not yet wired.

use openshell_firecracker::sandbox::{
    FirecrackerSandboxRuntime, RuntimeCreateError, SandboxRuntime, StatusCode,
};

#[test]
fn default_image_is_the_given_one() {
    let runtime = FirecrackerSandboxRuntime::new("base:latest".to_string());
    assert_eq!(runtime.default_image(), "base:latest");
}

#[test]
fn gpu_is_unimplemented() {
    let runtime = FirecrackerSandboxRuntime::new(String::new());
    match runtime.validate_gpu_support() {
        Err(status) => {
            assert_eq!(status.code, StatusCode::Unimplemented);
            assert_eq!(
                status.message,
                "GPU sandboxes are not supported by the Firecracker runtime"
            );
        }
        Ok(()) => panic!("no GPU"),
    }
}

#[test]
fn lifecycle_is_not_implemented() {
    let runtime = FirecrackerSandboxRuntime::new(String::new());
    let error = runtime.create("a").unwrap_err();
    assert!(matches!(error, RuntimeCreateError::Other(_)));
    assert_eq!(error.message(), "Firecracker runtime: create not yet implemented (Phase 4)");
    assert_eq!(
        runtime.delete("a").unwrap_err(),
        "Firecracker runtime: delete not yet implemented (Phase 4)"
    );
    assert_eq!(
        runtime.agent_ip("a").unwrap_err(),
        "Firecracker runtime: agent_ip not yet implemented (Phase 4)"
    );
}

#[test]
fn create_error_messages() {
    assert_eq!(RuntimeCreateError::AlreadyExists.message(), "sandbox already exists");
    assert_eq!(RuntimeCreateError::Other("no disk".to_string()).message(), "no disk");
}
