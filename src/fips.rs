use vstd::prelude::*;

use crate::error::KeyRejected;

verus! {

/// What the engine's service indicator says of one call.
#[derive(Clone, Copy, Debug, PartialEq, Eq, Structural)]
pub enum FipsServiceStatus {
    /// The call ran with approved algorithms and parameters.
    ApprovedMode,
    /// The call ran, but not in approved mode.
    NonApprovedMode,
    /// The call itself failed.
    Unexpected,
}

/// The verdict on one engine call from its direct result and the indicator counter read
/// right before and right after it: the counter moves only when the call ran in approved
/// mode.
pub open spec fn spec_indicator_verdict(call_succeeded: bool, before: u64, after: u64) -> FipsServiceStatus {
    if !call_succeeded {
        FipsServiceStatus::Unexpected
    } else if before != after {
        FipsServiceStatus::ApprovedMode
    } else {
        FipsServiceStatus::NonApprovedMode
    }
}

/// Combines an engine call's success and the indicator readings around it into a verdict.
pub fn indicator_verdict(call_succeeded: bool, before: u64, after: u64) -> (r: FipsServiceStatus)
    ensures
        r == spec_indicator_verdict(call_succeeded, before, after),
{
    if !call_succeeded {
        FipsServiceStatus::Unexpected
    } else if before != after {
        FipsServiceStatus::ApprovedMode
    } else {
        FipsServiceStatus::NonApprovedMode
    }
}

/// How a key's consistency check is judged; chosen once when the process is configured.
#[derive(Clone, Copy, Debug, PartialEq, Eq, Structural)]
pub enum KeyValidationPolicy {
    /// The check's return code alone decides.
    StandardCheck,
    /// The check must also have run in approved mode.
    ApprovedModeCheck,
}

/// The result of the engine's consistency check on a key: its return code (1 on
/// success) and the indicator's verdict on that call.
#[derive(Clone, Copy, Debug, PartialEq, Eq, Structural)]
pub struct CheckOutcome {
    pub return_code: i32,
    pub status: FipsServiceStatus,
}

/// Whether a consistency check passes under `policy`.
pub open spec fn check_passes(policy: KeyValidationPolicy, check: CheckOutcome) -> bool {
    &&& check.return_code == 1
    &&& (policy == KeyValidationPolicy::ApprovedModeCheck ==> check.status
        == FipsServiceStatus::ApprovedMode)
}

/// Judges a consistency check under `policy`: a failed check, or under
/// `ApprovedModeCheck` one that did not run in approved mode, rejects the key as
/// `InconsistentComponents`.
pub fn consistency_verdict(policy: KeyValidationPolicy, check: CheckOutcome) -> (r: Result<(), KeyRejected>)
    ensures
        r == if check_passes(policy, check) {
            Ok(())
        } else {
            Err(KeyRejected::InconsistentComponents)
        },
{
    if check.return_code != 1 {
        return Err(KeyRejected::InconsistentComponents);
    }
    match policy {
        KeyValidationPolicy::StandardCheck => Ok(()),
        KeyValidationPolicy::ApprovedModeCheck => match check.status {
            FipsServiceStatus::ApprovedMode => Ok(()),
            _ => Err(KeyRejected::InconsistentComponents),
        },
    }
}

} // verus!
