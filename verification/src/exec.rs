//! The decision prefix of command execution: whether the session's
//! user may run the requested command as the requested target, and
//! whether the proof of authentication is still valid. The actual
//! privilege transition and process spawn are the surrounding
//! program's work.

use vstd::prelude::*;

use crate::ElevError;
use crate::auth::AuthState;
use crate::config::Config;
use crate::config::RequestV;
use crate::config::spec_permitted;
use crate::text::str_views;

verus! {

/// Whether the user's OS groups include the required group.
pub fn check_group_permission(groups: &[String], required_group: &str) -> (b: bool)
    ensures
        b == str_views(groups@).contains(required_group@),
{
    crate::text::slice_contains_str(groups, required_group)
}

/// Decides whether the session's user may run `cmd` as `target_user`
/// at `now`: denied when no allow rule wins the request, timed out
/// when the proof of authentication is absent or stale, and cleared
/// to run otherwise.
pub fn authorize_command(
    config: &Config,
    state: &AuthState,
    target_user: &str,
    cmd: &str,
    now: u64,
) -> (r: Result<(), ElevError>)
    ensures
        ({
            let q = RequestV {
                user: state.username@,
                groups: str_views(state.groups@),
                target: target_user@,
                command: cmd@,
                roles: str_views(state.roles@),
            };
            r == (if !spec_permitted(config@.rules, q) {
                Result::<(), ElevError>::Err(ElevError::PermissionDenied)
            } else if !state.timeout_ok(now) {
                Result::<(), ElevError>::Err(ElevError::SessionTimedOut)
            } else {
                Result::<(), ElevError>::Ok(())
            })
        }),
{
    let permitted = config.is_permitted(
        state.username.as_str(),
        state.groups.as_slice(),
        target_user,
        cmd,
        state.roles.as_slice(),
    );
    if !permitted {
        return Err(ElevError::PermissionDenied);
    }
    if !state.check_timeout(now) {
        return Err(ElevError::SessionTimedOut);
    }
    Ok(())
}

} // verus!
