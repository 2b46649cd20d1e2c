//! Orchestration decisions.
//!
//! The installer runs a linear pipeline (detect, resolve, move, fix
//! permissions, refresh the cache) and, when a system-mode run fails for
//! lack of permission, re-invokes itself elevated exactly once. Every
//! decision in that control flow is a pure function here; the driver
//! performs the effects and feeds the results back.

use vstd::prelude::*;
use crate::errors::{SysError, perm_denied, cross_device};
use crate::errors::{is_perm_denied, is_cross_device};

verus! {

/// Exit code of a successful install.
pub const EXIT_SUCCESS: i32 = 0;

/// Exit code of a failed install, and the default when an elevated
/// child's status is unavailable.
pub const EXIT_FAILURE: i32 = 1;

/// Exit code of a usage error (wrong argument count).
pub const EXIT_USAGE: i32 = 2;

/// The permission bits given to an installed font file: rw-r--r--.
pub const INSTALL_FILE_MODE: u32 = 0o644;

/// A parsed invocation: the source path and whether the install goes to
/// the per-user font directory.
pub struct InstallRequest {
    pub source: Vec<u8>,
    pub user_mode: bool,
}

/// What the command line decides: a usage error, or a request.
pub enum ParsedArgs {
    Usage,
    Request(InstallRequest),
}

/// The flag `--user`, as bytes.
pub open spec fn user_flag() -> Seq<u8> {
    seq![45u8, 45u8, 117u8, 115u8, 101u8, 114u8]
}

/// A usage error: no argument, or more than two.
pub open spec fn is_usage_error(args: Seq<Seq<u8>>) -> bool {
    args.len() == 0 || args.len() > 2
}

/// Whether any argument is the `--user` flag.
pub open spec fn wants_user_mode(args: Seq<Seq<u8>>) -> bool {
    exists|j: int| 0 <= j < args.len() && args[j] == user_flag()
}

/// The flag `--user`.
fn user_flag_vec() -> (r: Vec<u8>)
    ensures
        r@ == user_flag(),
{
    let mut v: Vec<u8> = Vec::new();
    v.push(45);
    v.push(45);
    v.push(117);
    v.push(115);
    v.push(101);
    v.push(114);
    proof {
        assert(v@ =~= user_flag());
    }
    v
}

/// Whether any argument is the `--user` flag.
fn any_user_flag(args: &Vec<Vec<u8>>) -> (r: bool)
    ensures
        r == wants_user_mode(args.deep_view()),
{
    let ghost dv = args.deep_view();
    let flag = user_flag_vec();
    let mut m: usize = 0;
    while m < args.len()
        invariant
            0 <= m <= args@.len(),
            dv == args.deep_view(),
            dv.len() == args@.len(),
            forall|j: int| 0 <= j < m ==> dv[j] != user_flag(),
            flag@ == user_flag(),
        decreases args@.len() - m,
    {
        proof {
            assert(dv[m as int] =~= args@[m as int]@);
        }
        if crate::bytes::bytes_eq(&args[m], &flag) {
            return true;
        }
        m = m + 1;
    }
    proof {
        if wants_user_mode(dv) {
            let w = choose|j: int| 0 <= j < dv.len() && dv[j] == user_flag();
            assert(false);
        }
    }
    false
}

/// Parse the process arguments (program name excluded): zero or three or
/// more of them are a usage error; otherwise the first is the source path
/// and `--user` anywhere among them selects user mode.
pub fn parse_args(args: &Vec<Vec<u8>>) -> (r: ParsedArgs)
    ensures
        match r {
            ParsedArgs::Usage => is_usage_error(args.deep_view()),
            ParsedArgs::Request(req) => !is_usage_error(args.deep_view())
                && req.source@ == args.deep_view()[0]
                && req.user_mode == wants_user_mode(args.deep_view()),
        },
{
    let ghost dv = args.deep_view();
    if args.len() == 0 || args.len() > 2 {
        return ParsedArgs::Usage;
    }
    let user_mode = any_user_flag(args);
    let source = crate::bytes::copy_bytes(&args[0]);
    proof {
        assert(dv[0] =~= args@[0]@);
    }
    ParsedArgs::Request(InstallRequest { source, user_mode })
}

/// The states of the elevation protocol. A run starts in
/// `UnprivilegedAttempt`; a system-mode permission failure of a
/// not-yet-elevated process moves to `ElevatedRetry`; everything else is
/// terminal.
#[derive(Clone, Copy, Debug, PartialEq, Eq, Structural)]
pub enum ElevationState {
    UnprivilegedAttempt,
    ElevatedRetry,
    TerminalSuccess,
    TerminalFailure,
}

/// Where the protocol goes after the pipeline ran: success is terminal;
/// a permission-denied failure escalates if and only if the install is
/// system-mode and the process is not already elevated; every other
/// failure is terminal.
pub open spec fn next_state(
    user_mode: bool,
    already_elevated: bool,
    outcome: Result<(), SysError>,
) -> ElevationState {
    match outcome {
        Result::Ok(_) => ElevationState::TerminalSuccess,
        Result::Err(e) => if perm_denied(e) && !user_mode && !already_elevated {
            ElevationState::ElevatedRetry
        } else {
            ElevationState::TerminalFailure
        },
    }
}

/// Decide the next protocol state from the pipeline's outcome.
pub fn transition(user_mode: bool, already_elevated: bool, outcome: &Result<(), SysError>) -> (r:
    ElevationState)
    ensures
        r == next_state(user_mode, already_elevated, *outcome),
{
    match outcome {
        Result::Ok(_) => ElevationState::TerminalSuccess,
        Result::Err(e) => {
            if is_perm_denied(e) && !user_mode && !already_elevated {
                ElevationState::ElevatedRetry
            } else {
                ElevationState::TerminalFailure
            }
        },
    }
}

/// Elevation happens at most once, and never for a user-mode install: an
/// already-elevated process never escalates again, whatever the outcome,
/// and neither does a user-mode run.
pub proof fn lemma_elevation_at_most_once(
    user_mode: bool,
    already_elevated: bool,
    outcome: Result<(), SysError>,
)
    ensures
        already_elevated ==> next_state(user_mode, already_elevated, outcome)
            != ElevationState::ElevatedRetry,
        user_mode ==> next_state(user_mode, already_elevated, outcome)
            != ElevationState::ElevatedRetry,
{
}

/// Only a permission-denied failure ever escalates: any other error is
/// terminal at once.
pub proof fn lemma_only_permission_escalates(
    user_mode: bool,
    already_elevated: bool,
    e: SysError,
)
    requires
        !perm_denied(e),
    ensures
        next_state(user_mode, already_elevated, Result::Err(e)) == ElevationState::TerminalFailure,
{
}

/// The exit code of a terminal state: 0 for success, 1 for failure.
pub open spec fn terminal_exit_code(state: ElevationState) -> i32 {
    if state == ElevationState::TerminalSuccess {
        EXIT_SUCCESS
    } else {
        EXIT_FAILURE
    }
}

/// The exit code for a terminal protocol state.
pub fn exit_code_for(state: ElevationState) -> (r: i32)
    requires
        state == ElevationState::TerminalSuccess || state == ElevationState::TerminalFailure,
    ensures
        r == terminal_exit_code(state),
{
    if state == ElevationState::TerminalSuccess {
        EXIT_SUCCESS
    } else {
        EXIT_FAILURE
    }
}

/// The exit code the parent adopts after the elevated child finished:
/// the child's own code, or 1 when the OS reports none.
pub fn escalate_exit_code(child_status: &Option<i32>) -> (r: i32)
    ensures
        r == (match *child_status {
            Option::Some(code) => code,
            Option::None => EXIT_FAILURE,
        }),
{
    match child_status {
        Option::Some(code) => *code,
        Option::None => EXIT_FAILURE,
    }
}

/// What to do after a rename attempt: done, fall back to copy-then-
/// delete, or propagate the error unchanged.
#[derive(Clone, Copy, Debug, PartialEq, Eq, Structural)]
pub enum RenameFollowUp {
    Done,
    CopyThenDelete,
    Propagate,
}

/// A failed rename falls back to copy-then-delete exactly when source
/// and destination are on different filesystems; any other failure
/// (permission denial included) propagates unchanged.
pub open spec fn rename_follow_up(outcome: Option<SysError>) -> RenameFollowUp {
    match outcome {
        Option::None => RenameFollowUp::Done,
        Option::Some(e) => if cross_device(e) {
            RenameFollowUp::CopyThenDelete
        } else {
            RenameFollowUp::Propagate
        },
    }
}

/// Decide what follows a rename attempt; `None` means it succeeded.
pub fn after_rename(outcome: &Option<SysError>) -> (r: RenameFollowUp)
    ensures
        r == rename_follow_up(*outcome),
{
    match outcome {
        Option::None => RenameFollowUp::Done,
        Option::Some(e) => {
            if is_cross_device(e) {
                RenameFollowUp::CopyThenDelete
            } else {
                RenameFollowUp::Propagate
            }
        },
    }
}

/// How a cache-refresh attempt is reported. The refresh is best-effort:
/// none of these outcomes fails the installation, which is why the
/// pipeline's own result does not mention it.
#[derive(Clone, Copy, Debug, PartialEq, Eq, Structural)]
pub enum CacheNote {
    Refreshed,
    ToolFailed,
    ToolMissing,
}

/// The report for a cache-refresh attempt: the tool could not be
/// launched, it exited non-zero, or it succeeded.
pub open spec fn cache_note(launched: bool, exit_ok: bool) -> CacheNote {
    if !launched {
        CacheNote::ToolMissing
    } else if !exit_ok {
        CacheNote::ToolFailed
    } else {
        CacheNote::Refreshed
    }
}

/// Classify a cache-refresh attempt for reporting.
pub fn classify_cache_refresh(launched: bool, exit_ok: bool) -> (r: CacheNote)
    ensures
        r == cache_note(launched, exit_ok),
{
    if !launched {
        CacheNote::ToolMissing
    } else if !exit_ok {
        CacheNote::ToolFailed
    } else {
        CacheNote::Refreshed
    }
}

} // verus!
