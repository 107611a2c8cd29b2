//! The lock screen's decisions on the results of the PAM conversation.

use vstd::prelude::*;

use crate::text::{i64_to_string, signed_decimal};

verus! {

/// PAM's success return code.
pub const PAM_SUCCESS: i32 = 0;

/// PAM's message style for a prompt whose answer is not echoed.
pub const PAM_PROMPT_ECHO_OFF: i32 = 1;

/// PAM's message style for a prompt whose answer is echoed.
pub const PAM_PROMPT_ECHO_ON: i32 = 2;

/// Whether the conversation answers a message of style `msg_style` with
/// the password (prompts do; other messages get no answer).
pub fn answers_with_password(msg_style: i32) -> (b: bool)
    ensures
        b == (msg_style == PAM_PROMPT_ECHO_OFF || msg_style == PAM_PROMPT_ECHO_ON),
{
    msg_style == PAM_PROMPT_ECHO_OFF || msg_style == PAM_PROMPT_ECHO_ON
}

/// The error for a failed `pam_start`, `None` when it succeeded.
pub fn pam_start_error(status: i32) -> (e: Option<String>)
    ensures
        status == PAM_SUCCESS ==> e is None,
        status != PAM_SUCCESS ==> (e matches Some(m) && m@ == "pam_start failed: "@
            + signed_decimal(status as int)),
{
    if status != PAM_SUCCESS {
        let mut m = String::from_str("pam_start failed: ");
        let d = i64_to_string(status as i64);
        m.append(d.as_str());
        Some(m)
    } else {
        None
    }
}

/// Whether the user is let in: both authentication and account checks succeeded.
pub fn pam_granted(auth_status: i32, acct_status: i32) -> (b: bool)
    ensures
        b == (auth_status == PAM_SUCCESS && acct_status == PAM_SUCCESS),
{
    auth_status == PAM_SUCCESS && acct_status == PAM_SUCCESS
}

/// Whether a password typed in test mode matches the expected one.
pub fn test_password_matches(password: &String, expected: &String) -> (b: bool)
    ensures
        b == (password@ == expected@),
{
    *password == *expected
}

} // verus!
