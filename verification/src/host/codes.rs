//! libpam's numbers and what they mean at the border.
use vstd::prelude::*;
use crate::border::env::{AcctVerdict, CredFlag, PamClass, PamError};

verus! {

pub const PAM_SUCCESS: i32 = 0;

pub const PAM_SYSTEM_ERR: i32 = 4;

pub const PAM_BUF_ERR: i32 = 5;

pub const PAM_PERM_DENIED: i32 = 6;

pub const PAM_AUTH_ERR: i32 = 7;

pub const PAM_CRED_INSUFFICIENT: i32 = 8;

pub const PAM_AUTHINFO_UNAVAIL: i32 = 9;

pub const PAM_USER_UNKNOWN: i32 = 10;

pub const PAM_MAXTRIES: i32 = 11;

pub const PAM_NEW_AUTHTOK_REQD: i32 = 12;

pub const PAM_ACCT_EXPIRED: i32 = 13;

pub const PAM_CONV_ERR: i32 = 19;

pub const PAM_ABORT: i32 = 26;

pub const PAM_PROMPT_ECHO_OFF: i32 = 1;

pub const PAM_PROMPT_ECHO_ON: i32 = 2;

pub const PAM_ERROR_MSG: i32 = 3;

pub const PAM_TEXT_INFO: i32 = 4;

pub const PAM_ESTABLISH_CRED: i32 = 0x0002;

pub const PAM_DELETE_CRED: i32 = 0x0004;

pub const PAM_REINITIALIZE_CRED: i32 = 0x0008;

pub const PAM_REFRESH_CRED: i32 = 0x0010;

/// The class of a code that is no success. Too many tries is a class of its
/// own: retrying on it locks an account.
pub open spec fn class_for(code: i32) -> PamClass {
    if code == PAM_USER_UNKNOWN {
        PamClass::UserUnknown
    } else if code == PAM_MAXTRIES {
        PamClass::MaxTries
    } else if code == PAM_CRED_INSUFFICIENT {
        PamClass::CredInsufficient
    } else if code == PAM_AUTHINFO_UNAVAIL {
        PamClass::AuthInfoUnavail
    } else if code == PAM_ABORT || code == PAM_SYSTEM_ERR || code == PAM_BUF_ERR {
        PamClass::Abort
    } else {
        PamClass::AuthError
    }
}

/// The border's class for one of libpam's codes.
pub fn class_of(code: i32) -> (c: PamClass)
    ensures
        c == class_for(code),
{
    if code == PAM_USER_UNKNOWN {
        PamClass::UserUnknown
    } else if code == PAM_MAXTRIES {
        PamClass::MaxTries
    } else if code == PAM_CRED_INSUFFICIENT {
        PamClass::CredInsufficient
    } else if code == PAM_AUTHINFO_UNAVAIL {
        PamClass::AuthInfoUnavail
    } else if code == PAM_ABORT || code == PAM_SYSTEM_ERR || code == PAM_BUF_ERR {
        PamClass::Abort
    } else {
        PamClass::AuthError
    }
}

/// The verdict of an account-management code: what is neither a success, nor a
/// token to be changed, nor an expiry, is a denial.
pub open spec fn verdict_for(code: i32) -> AcctVerdict {
    if code == PAM_SUCCESS {
        AcctVerdict::Okay
    } else if code == PAM_NEW_AUTHTOK_REQD {
        AcctVerdict::NewAuthTokRequired
    } else if code == PAM_ACCT_EXPIRED {
        AcctVerdict::AcctExpired
    } else {
        AcctVerdict::PermDenied
    }
}

/// The border's verdict for an account-management code.
pub fn verdict_of(code: i32) -> (v: AcctVerdict)
    ensures
        v == verdict_for(code),
{
    if code == PAM_SUCCESS {
        AcctVerdict::Okay
    } else if code == PAM_NEW_AUTHTOK_REQD {
        AcctVerdict::NewAuthTokRequired
    } else if code == PAM_ACCT_EXPIRED {
        AcctVerdict::AcctExpired
    } else {
        AcctVerdict::PermDenied
    }
}

pub open spec fn cred_code(f: CredFlag) -> i32 {
    match f {
        CredFlag::Establish => PAM_ESTABLISH_CRED,
        CredFlag::Delete => PAM_DELETE_CRED,
        CredFlag::Reinitialize => PAM_REINITIALIZE_CRED,
        CredFlag::Refresh => PAM_REFRESH_CRED,
    }
}

/// libpam's flag for a way of moving credentials.
pub fn cred_flag(f: CredFlag) -> (n: i32)
    ensures
        n == cred_code(f),
{
    match f {
        CredFlag::Establish => PAM_ESTABLISH_CRED,
        CredFlag::Delete => PAM_DELETE_CRED,
        CredFlag::Reinitialize => PAM_REINITIALIZE_CRED,
        CredFlag::Refresh => PAM_REFRESH_CRED,
    }
}

/// What came of a call that answered with the code `rc`.
pub open spec fn accepted(rc: i32, r: Result<(), PamError>) -> bool {
    match r {
        Ok(_) => rc == PAM_SUCCESS,
        Err(e) => rc != PAM_SUCCESS && e == PamError::Refused(class_for(rc)),
    }
}

/// A code as a result: success, or a refusal of the code's class.
pub fn result_of(rc: i32) -> (r: Result<(), PamError>)
    ensures
        accepted(rc, r),
{
    if rc == PAM_SUCCESS {
        Ok(())
    } else {
        Err(PamError::Refused(class_of(rc)))
    }
}

/// A token that must be changed is a verdict and no denial, and retries are
/// never invited where libpam says that there were too many.
pub proof fn codes_keep_their_distinctions(code: i32)
    ensures
        verdict_for(PAM_NEW_AUTHTOK_REQD) == AcctVerdict::NewAuthTokRequired,
        verdict_for(code) == AcctVerdict::Okay <==> code == PAM_SUCCESS,
        class_for(code) == PamClass::MaxTries <==> code == PAM_MAXTRIES,
        class_for(code) == PamClass::UserUnknown <==> code == PAM_USER_UNKNOWN,
{
}

/// Each code has one class: the unknown user, too many tries, credentials that do
/// not suffice and information that cannot be had each by a code of its own, the
/// faults of the system together, and every other code as a wrong passphrase.
pub proof fn each_code_has_its_class(code: i32)
    ensures
        class_for(code) == PamClass::UserUnknown <==> code == 10,
        class_for(code) == PamClass::MaxTries <==> code == 11,
        class_for(code) == PamClass::CredInsufficient <==> code == 8,
        class_for(code) == PamClass::AuthInfoUnavail <==> code == 9,
        class_for(code) == PamClass::Abort <==> code == 26 || code == 4 || code == 5,
        class_for(code) == PamClass::AuthError <==> !(8 <= code <= 11) && code != 26 && code != 4
            && code != 5,
{
}

/// Each verdict on an account has one code, and every other code denies.
pub proof fn each_verdict_has_its_code(code: i32)
    ensures
        verdict_for(code) == AcctVerdict::Okay <==> code == 0,
        verdict_for(code) == AcctVerdict::NewAuthTokRequired <==> code == 12,
        verdict_for(code) == AcctVerdict::AcctExpired <==> code == 13,
        verdict_for(code) == AcctVerdict::PermDenied <==> code != 0 && code != 12 && code != 13,
{
}

/// Each way of moving credentials has one flag, and no two have the same.
pub proof fn each_way_has_its_flag(f: CredFlag, g: CredFlag)
    ensures
        cred_code(f) == 2 <==> f is Establish,
        cred_code(f) == 4 <==> f is Delete,
        cred_code(f) == 8 <==> f is Reinitialize,
        cred_code(f) == 16 <==> f is Refresh,
        cred_code(f) == cred_code(g) ==> f == g,
{
}

/// A call is a success if and only if its code is zero; otherwise it is a refusal,
/// of the class that the code has.
pub proof fn zero_alone_is_success(rc: i32, r: Result<(), PamError>)
    requires
        accepted(rc, r),
    ensures
        r is Ok <==> rc == 0,
        r matches Err(e) ==> (e matches PamError::Refused(class) && {
            &&& class == PamClass::UserUnknown <==> rc == 10
            &&& class == PamClass::MaxTries <==> rc == 11
            &&& class == PamClass::Abort <==> rc == 26 || rc == 4 || rc == 5
        }),
{
}

} // verus!
