//! Log messages sent by wiki pages, and who may send them.

use vstd::prelude::*;
use crate::outcome::{GuardOutcome, UNAUTHORIZED};
use crate::text::{string_from_range, to_chars};
use crate::user::{AuthState, User};

verus! {

/// How many characters of a debug message are logged.
pub const TRUNC_DEBUG_LEN: usize = 256;

/// The body of a log request.
pub struct LogData {
    pub log_text: String,
}

/// Permission to write to the log: the user is logged in, or the site
/// allows logging without logging in.
pub struct LogUser(pub User);

/// A logged-in user may log, as themselves; a visitor may log, as a user
/// that is not logged in, where the site's logging setting is on, and is
/// refused as unauthorized otherwise, also where the setting is missing.
pub open spec fn log_user_outcome(
    logged_in: Option<User>,
    visitors_may_log: Option<bool>,
    r: GuardOutcome<LogUser>,
) -> bool {
    match logged_in {
        Some(u) => r == GuardOutcome::Success(LogUser(u)),
        None => if visitors_may_log == Some(true) {
            r matches GuardOutcome::Success(l) && l.0.auth == AuthState::AuthNotAuth
                && l.0.name@ == Seq::<char>::empty()
        } else {
            r == GuardOutcome::<LogUser>::Failure(UNAUTHORIZED)
        },
    }
}

/// A logged-in user always logs, as themselves, whatever the logging
/// setting; a visitor logs exactly where the setting is on, and is refused
/// with 401 otherwise.
pub proof fn law_log_guard(
    logged_in: Option<User>,
    visitors_may_log: Option<bool>,
    r: GuardOutcome<LogUser>,
)
    requires
        log_user_outcome(logged_in, visitors_may_log, r),
    ensures
        logged_in matches Some(u) ==> r == GuardOutcome::Success(LogUser(u)),
        logged_in is None ==> (r is Success <==> visitors_may_log == Some(true)),
        logged_in is None ==> (r matches GuardOutcome::Success(l) ==> l.0.auth
            == AuthState::AuthNotAuth),
        !(r is Success) ==> r == GuardOutcome::<LogUser>::Failure(401),
{
}

impl LogUser {
    /// Lets a logged-in user log; a visitor may log only where the site's
    /// `authentication_required_for_logging` setting, `visitors_may_log`,
    /// is true (it allows visitors to log), and is refused as unauthorized
    /// otherwise, also where the configuration is missing (`None`).
    pub fn decide(logged_in: Option<User>, visitors_may_log: Option<bool>) -> (r: GuardOutcome<
        LogUser,
    >)
        ensures
            log_user_outcome(logged_in, visitors_may_log, r),
    {
        let need_auth = match visitors_may_log {
            Some(b) => !b,
            None => true,
        };
        match logged_in {
            Some(u) => GuardOutcome::Success(LogUser(u)),
            None => {
                if need_auth {
                    GuardOutcome::Failure(UNAUTHORIZED)
                } else {
                    GuardOutcome::Success(LogUser(User::new_unauth()))
                }
            },
        }
    }
}

/// The first `n` characters of `text`, all of it where it is shorter.
pub fn truncate_chars(text: &str, n: usize) -> (r: String)
    ensures
        r@ == text@.take(if n < text@.len() {
            n as int
        } else {
            text@.len() as int
        }),
{
    let cs = to_chars(text);
    let end = if n < cs.len() {
        n
    } else {
        cs.len()
    };
    string_from_range(&cs, 0, end)
}

/// The part of a debug message that is logged: its first
/// `TRUNC_DEBUG_LEN` characters.
pub fn debug_log_text(input: &LogData) -> (r: String)
    ensures
        r@ == input.log_text@.take(if TRUNC_DEBUG_LEN < input.log_text@.len() {
            TRUNC_DEBUG_LEN as int
        } else {
            input.log_text@.len() as int
        }),
{
    truncate_chars(input.log_text.as_str(), TRUNC_DEBUG_LEN)
}

} // verus!
