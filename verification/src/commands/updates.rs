//! The update check, as the renderer's update dialog reads it.

use vstd::prelude::*;

verus! {

/// What asking the updater for a newer release gave.
#[derive(Debug, PartialEq)]
pub enum UpdateCheck {
    /// A newer release: its version, its notes and its publication date.
    Available { version: String, notes: Option<String>, date: Option<String> },
    /// No newer release.
    UpToDate,
    /// The check failed with this message.
    Failed { error: String },
}

/// The structured status returned by `check_for_update`.
#[derive(Debug, PartialEq)]
pub struct UpdateStatus {
    pub available: bool,
    pub version: Option<String>,
    pub notes: Option<String>,
    pub date: Option<String>,
    pub error: Option<String>,
}

/// Turns the outcome of an update check into the status the renderer reads:
/// a release fills `version`, `notes` and `date`; a failure only `error`; no
/// release leaves every field empty.
pub fn check_for_update(check: UpdateCheck) -> (r: UpdateStatus)
    ensures
        match check {
            UpdateCheck::Available { version, notes, date } => r == UpdateStatus {
                available: true,
                version: Some(version),
                notes,
                date,
                error: None,
            },
            UpdateCheck::UpToDate => r == UpdateStatus {
                available: false,
                version: None,
                notes: None,
                date: None,
                error: None,
            },
            UpdateCheck::Failed { error } => r == UpdateStatus {
                available: false,
                version: None,
                notes: None,
                date: None,
                error: Some(error),
            },
        },
{
    match check {
        UpdateCheck::Available { version, notes, date } => UpdateStatus {
            available: true,
            version: Some(version),
            notes,
            date,
            error: None,
        },
        UpdateCheck::UpToDate => UpdateStatus {
            available: false,
            version: None,
            notes: None,
            date: None,
            error: None,
        },
        UpdateCheck::Failed { error } => UpdateStatus {
            available: false,
            version: None,
            notes: None,
            date: None,
            error: Some(error),
        },
    }
}

} // verus!
