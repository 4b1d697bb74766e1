//! Running one authentication: what is refused before it starts, and what step
//! its end is.
use vstd::prelude::*;
use crate::border::env::{PamClass, PamStep};
use crate::host::codes::{class_for, class_of, PAM_SUCCESS};
use crate::text;

verus! {

/// Whether an authentication can be handed to libpam at all: a name with a NUL
/// fails before anything starts.
pub fn authenticate(svc: &str, user: Option<&str>) -> (r: Result<(), &'static str>)
    ensures
        match r {
            Ok(_) => !svc@.contains('\0') && (user matches Some(u) ==> !u@.contains('\0')),
            Err(e) => if svc@.contains('\0') {
                e@ == "service name contains a NUL"@
            } else {
                e@ == "username contains a NUL"@ && (user matches Some(u) && u@.contains('\0'))
            },
        },
{
    if text::has_char(svc, '\0') {
        return Err("service name contains a NUL");
    }
    if let Some(u) = user {
        if text::has_char(u, '\0') {
            return Err("username contains a NUL");
        }
    }
    Ok(())
}

/// The step that a transaction which did not start ends in; `None` where it did start.
pub fn unstarted(rc: i32, null_handle: bool) -> (r: Option<PamStep>)
    ensures
        r == (if rc != PAM_SUCCESS || null_handle {
            Some(PamStep::Failed { class: PamClass::Abort })
        } else {
            None
        }),
{
    if rc != PAM_SUCCESS || null_handle {
        Some(PamStep::Failed { class: PamClass::Abort })
    } else {
        None
    }
}

/// The step that an authentication ends in.
pub fn finished(rc: i32) -> (step: PamStep)
    ensures
        step == (if rc == PAM_SUCCESS {
            PamStep::Complete
        } else {
            PamStep::Failed { class: class_for(rc) }
        }),
{
    if rc == PAM_SUCCESS {
        PamStep::Complete
    } else {
        PamStep::Failed { class: class_of(rc) }
    }
}

} // verus!
