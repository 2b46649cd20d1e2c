use font_install::errors::{is_cross_device, is_perm_denied, IoKind, SysError};
use font_install::orchestrate::{
    after_rename, classify_cache_refresh, escalate_exit_code, exit_code_for, parse_args,
    transition, CacheNote, ElevationState, ParsedArgs, RenameFollowUp, EXIT_FAILURE,
    EXIT_SUCCESS, EXIT_USAGE, INSTALL_FILE_MODE,
};

fn b(s: &str) -> Vec<u8> {
    s.as_bytes().to_vec()
}

fn perm_error() -> SysError {
    SysError {
        kind: IoKind::PermissionDenied,
        raw: Some(13),
    }
}

#[test]
fn zero_arguments_are_a_usage_error() {
    let args: Vec<Vec<u8>> = vec![];
    assert!(matches!(parse_args(&args), ParsedArgs::Usage));
}

#[test]
fn three_arguments_are_a_usage_error() {
    let args = vec![b("a.ttf"), b("--user"), b("extra")];
    assert!(matches!(parse_args(&args), ParsedArgs::Usage));
}

#[test]
fn single_argument_is_a_system_request() {
    match parse_args(&vec![b("Roboto.ttf")]) {
        ParsedArgs::Request(req) => {
            assert_eq!(req.source, b("Roboto.ttf"));
            assert!(!req.user_mode);
        }
        ParsedArgs::Usage => panic!("expected a request"),
    }
}

#[test]
fn user_flag_selects_user_mode() {
    match parse_args(&vec![b("Roboto.ttf"), b("--user")]) {
        ParsedArgs::Request(req) => {
            assert_eq!(req.source, b("Roboto.ttf"));
            assert!(req.user_mode);
        }
        ParsedArgs::Usage => panic!("expected a request"),
    }
}

#[test]
fn success_is_terminal() {
    assert_eq!(
        transition(false, false, &Ok(())),
        ElevationState::TerminalSuccess
    );
    assert_eq!(
        transition(true, true, &Ok(())),
        ElevationState::TerminalSuccess
    );
}

#[test]
fn system_permission_failure_escalates_once() {
    assert_eq!(
        transition(false, false, &Err(perm_error())),
        ElevationState::ElevatedRetry
    );
}

#[test]
fn elevated_permission_failure_is_terminal() {
    assert_eq!(
        transition(false, true, &Err(perm_error())),
        ElevationState::TerminalFailure
    );
}

#[test]
fn user_mode_never_escalates() {
    assert_eq!(
        transition(true, false, &Err(perm_error())),
        ElevationState::TerminalFailure
    );
}

#[test]
fn non_permission_failure_is_terminal() {
    let e = SysError {
        kind: IoKind::InvalidData,
        raw: None,
    };
    assert_eq!(
        transition(false, false, &Err(e)),
        ElevationState::TerminalFailure
    );
}

#[test]
fn raw_errno_alone_triggers_escalation() {
    let e = SysError {
        kind: IoKind::Other,
        raw: Some(13),
    };
    assert_eq!(
        transition(false, false, &Err(e)),
        ElevationState::ElevatedRetry
    );
}

#[test]
fn exit_codes_match_the_contract() {
    assert_eq!(exit_code_for(ElevationState::TerminalSuccess), 0);
    assert_eq!(exit_code_for(ElevationState::TerminalFailure), 1);
    assert_eq!(EXIT_SUCCESS, 0);
    assert_eq!(EXIT_FAILURE, 1);
    assert_eq!(EXIT_USAGE, 2);
}

#[test]
fn child_exit_status_is_adopted() {
    assert_eq!(escalate_exit_code(&Some(7)), 7);
    assert_eq!(escalate_exit_code(&Some(0)), 0);
    assert_eq!(escalate_exit_code(&None), 1);
}

#[test]
fn permission_denied_by_kind() {
    let e = SysError {
        kind: IoKind::PermissionDenied,
        raw: None,
    };
    assert!(is_perm_denied(&e));
}

#[test]
fn permission_denied_by_raw_errno() {
    let e = SysError {
        kind: IoKind::Other,
        raw: Some(13),
    };
    assert!(is_perm_denied(&e));
}

#[test]
fn other_errors_are_not_permission_denied() {
    let e = SysError {
        kind: IoKind::Other,
        raw: Some(5),
    };
    assert!(!is_perm_denied(&e));
    let e2 = SysError {
        kind: IoKind::NotFound,
        raw: None,
    };
    assert!(!is_perm_denied(&e2));
}

#[test]
fn cross_device_by_kind_or_errno() {
    let by_kind = SysError {
        kind: IoKind::CrossesDevices,
        raw: None,
    };
    let by_errno = SysError {
        kind: IoKind::Other,
        raw: Some(18),
    };
    assert!(is_cross_device(&by_kind));
    assert!(is_cross_device(&by_errno));
    assert!(!is_cross_device(&perm_error()));
}

#[test]
fn successful_rename_is_done() {
    assert_eq!(after_rename(&None), RenameFollowUp::Done);
}

#[test]
fn cross_device_rename_falls_back_to_copy() {
    let e = SysError {
        kind: IoKind::Other,
        raw: Some(18),
    };
    assert_eq!(after_rename(&Some(e)), RenameFollowUp::CopyThenDelete);
}

#[test]
fn other_rename_failures_propagate() {
    assert_eq!(after_rename(&Some(perm_error())), RenameFollowUp::Propagate);
    let disk_full = SysError {
        kind: IoKind::Other,
        raw: Some(28),
    };
    assert_eq!(after_rename(&Some(disk_full)), RenameFollowUp::Propagate);
}

#[test]
fn cache_refresh_outcomes_are_warnings_only() {
    assert_eq!(classify_cache_refresh(true, true), CacheNote::Refreshed);
    assert_eq!(classify_cache_refresh(true, false), CacheNote::ToolFailed);
    assert_eq!(classify_cache_refresh(false, false), CacheNote::ToolMissing);
}

#[test]
fn installed_files_are_world_readable() {
    assert_eq!(INSTALL_FILE_MODE, 0o644);
}
