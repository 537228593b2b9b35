//! Tests of the shim lifecycle decisions and the failure protocol.

use volta_core::fail::{ErrorDetails, ExitCode, FailExt, ResultExt, VoltaError, VoltaFail};
use volta_core::shim::{self, LinkOutcome, RemovalOutcome, ShimResult};

fn failed_link() -> LinkOutcome {
    LinkOutcome::Failed {
        inner: Some("inner cause".to_string()),
        error: "permission denied".to_string(),
    }
}

#[test]
fn create_reports_idempotent_branches() {
    assert_eq!(shim::create(LinkOutcome::Linked).unwrap(), ShimResult::Created);
    assert_eq!(
        shim::create(LinkOutcome::AlreadyExists).unwrap(),
        ShimResult::AlreadyExists
    );
}

#[test]
fn create_failure_keeps_cause_chain() {
    let e = shim::create(failed_link()).err().expect("must fail");
    assert!(matches!(e.details, ErrorDetails::SymlinkError { .. }));
    assert_eq!(e.message(), "inner cause");
    assert_eq!(e.causes, vec!["permission denied".to_string()]);
    assert_eq!(e.exit_code().code(), 7);
}

#[test]
fn create_failure_without_inner_uses_outer_message() {
    let e = shim::create(LinkOutcome::Failed { inner: None, error: "disk full".to_string() })
        .err()
        .expect("must fail");
    assert_eq!(e.message(), "disk full");
    assert_eq!(e.causes, vec!["disk full".to_string()]);
}

#[test]
fn delete_reports_idempotent_branches() {
    assert_eq!(
        shim::delete("typescript", RemovalOutcome::NotFound).unwrap(),
        ShimResult::DoesntExist
    );
    assert_eq!(
        shim::delete("typescript", RemovalOutcome::Removed).unwrap(),
        ShimResult::Deleted
    );
}

#[test]
fn delete_failure_keeps_cause_chain() {
    let e = shim::delete(
        "typescript",
        RemovalOutcome::Failed { inner: None, error: "is a directory".to_string() },
    )
    .err()
    .expect("must fail");
    assert!(matches!(e.details, ErrorDetails::SymlinkError { .. }));
    assert_eq!(e.message(), "is a directory");
    assert_eq!(e.exit_code().code(), 7);
}

#[test]
fn builtins_cannot_be_deleted() {
    for name in ["node", "npm", "yarn", "npx"] {
        let e = shim::delete(name, RemovalOutcome::Removed).err().expect("must fail");
        assert!(matches!(e.details, ErrorDetails::SymlinkError { .. }));
        assert_eq!(
            e.message(),
            format!("cannot delete `{}`, not a 3rd-party executable", name)
        );
        assert_eq!(e.exit_code().code(), 7);
        // The guard refuses before any filesystem work would happen.
        assert!(shim::delete_guard(name).is_err());
        assert!(!shim::is_3p_shim(name));
    }
}

#[test]
fn third_party_names_pass_the_guard() {
    assert!(shim::is_3p_shim("typescript"));
    assert!(shim::is_3p_shim("nodenv"));
    assert!(shim::is_3p_shim(""));
    assert!(shim::delete_guard("typescript").is_ok());
}

#[test]
fn exit_codes_match_the_table() {
    assert_eq!(ExitCode::Success.code(), 0);
    assert_eq!(ExitCode::UnknownError.code(), 1);
    assert_eq!(ExitCode::InvalidArguments.code(), 3);
    assert_eq!(ExitCode::NoVersionMatch.code(), 4);
    assert_eq!(ExitCode::NetworkError.code(), 5);
    assert_eq!(ExitCode::EnvironmentError.code(), 6);
    assert_eq!(ExitCode::FileSystemError.code(), 7);
    assert_eq!(ExitCode::ConfigurationError.code(), 8);
    assert_eq!(ExitCode::NotYetImplemented.code(), 9);
    assert_eq!(ExitCode::ExecutionFailure.code(), 126);
    assert_eq!(ExitCode::ExecutableNotFound.code(), 127);
}

#[test]
fn variant_exit_codes_are_stable() {
    let parse = ErrorDetails::VersionParseError { error: "bad".to_string() };
    let symlink = ErrorDetails::SymlinkError { error: "bad".to_string() };
    let unknown = ErrorDetails::UnknownError { error: "bad".to_string() };
    assert_eq!(parse.exit_code().code(), 4);
    assert_eq!(symlink.exit_code().code(), 7);
    assert_eq!(unknown.exit_code().code(), 1);
}

#[test]
fn with_context_wraps_a_lower_message() {
    let e = "connection reset".to_string().with_context(ErrorDetails::UnknownError {
        error: "could not fetch the archive".to_string(),
    });
    assert_eq!(e.message(), "could not fetch the archive");
    assert_eq!(e.exit_code().code(), 1);
    assert_eq!(e.causes, vec!["connection reset".to_string()]);
}

#[test]
fn with_context_chains_root_errors() {
    let inner = "connection reset".to_string().with_context(ErrorDetails::UnknownError {
        error: "could not fetch the archive".to_string(),
    });
    let outer = inner.with_context(ErrorDetails::SymlinkError {
        error: "could not install the package".to_string(),
    });
    assert_eq!(outer.message(), "could not install the package");
    assert_eq!(outer.exit_code().code(), 7);
    assert_eq!(
        outer.causes,
        vec![
            "could not fetch the archive".to_string(),
            "connection reset".to_string(),
        ]
    );
}

#[test]
fn result_with_context_keeps_success() {
    let ok: Result<u8, String> = Ok(17);
    let r = ok.with_context(ErrorDetails::UnknownError { error: "unused".to_string() });
    assert_eq!(r.unwrap(), 17);
}

#[test]
fn result_with_context_wraps_failure() {
    let bad: Result<u8, String> = Err("broken pipe".to_string());
    let e = bad
        .with_context(ErrorDetails::SymlinkError { error: "could not write shim".to_string() })
        .err()
        .expect("must fail");
    assert_eq!(e.message(), "could not write shim");
    assert_eq!(e.causes, vec!["broken pipe".to_string()]);
}

#[test]
fn new_error_has_empty_cause_chain() {
    let e = VoltaError::new(ErrorDetails::UnknownError { error: "lone".to_string() });
    assert_eq!(e.message(), "lone");
    assert!(e.causes.is_empty());
}
