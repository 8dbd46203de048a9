//! The errors that end an operation.

use vstd::prelude::*;
use vstd::string::*;

verus! {

/// The filesystem step during which an operation failed.
#[derive(Clone, Copy, Debug, PartialEq, Eq)]
pub enum IoStep {
    /// Asking whether a path exists.
    Probe,
    /// Walking and hashing a directory tree.
    Fingerprint,
    /// Removing a directory tree.
    Remove,
    /// Creating a directory.
    Create,
    /// Copying a directory tree.
    Copy,
    /// Writing the registry file.
    Persist,
}

/// The mathematical value of a [`SyncError`].
pub ghost enum SyncErrorView {
    NotFound { what: Seq<char> },
    Conflict { name: Seq<char>, place: Seq<char> },
    Io { step: IoStep, path: Seq<char>, cause: Seq<char> },
    Serialization,
    HookStart { hook: Seq<char> },
}

/// Why an operation was abandoned.
#[derive(Debug, PartialEq, Eq)]
pub enum SyncError {
    /// The named pair is not registered, or the place does not exist.
    NotFound { what: String },
    /// The name or the place is already registered.
    Conflict { name: String, place: String },
    /// A filesystem step failed on `path`; `cause` is what the host reported.
    Io { step: IoStep, path: String, cause: String },
    /// The registry that was read is not a valid registry.
    Serialization,
    /// The hook could not be started.
    HookStart { hook: String },
}

impl View for SyncError {
    type V = SyncErrorView;

    open spec fn view(&self) -> SyncErrorView {
        match *self {
            SyncError::NotFound { what } => SyncErrorView::NotFound { what: what@ },
            SyncError::Conflict { name, place } => SyncErrorView::Conflict {
                name: name@,
                place: place@,
            },
            SyncError::Io { step, path, cause } => SyncErrorView::Io {
                step,
                path: path@,
                cause: cause@,
            },
            SyncError::Serialization => SyncErrorView::Serialization,
            SyncError::HookStart { hook } => SyncErrorView::HookStart { hook: hook@ },
        }
    }
}

impl Clone for SyncError {
    fn clone(&self) -> (copy: Self)
        ensures
            copy == *self,
    {
        match self {
            SyncError::NotFound { what } => SyncError::NotFound { what: what.clone() },
            SyncError::Conflict { name, place } => SyncError::Conflict {
                name: name.clone(),
                place: place.clone(),
            },
            SyncError::Io { step, path, cause } => SyncError::Io {
                step: *step,
                path: path.clone(),
                cause: cause.clone(),
            },
            SyncError::Serialization => SyncError::Serialization,
            SyncError::HookStart { hook } => SyncError::HookStart { hook: hook.clone() },
        }
    }
}

/// What failed, in words, for each filesystem step.
pub open spec fn step_text(step: IoStep) -> Seq<char> {
    match step {
        IoStep::Probe => "failed to check if path exists"@,
        IoStep::Fingerprint => "failed to calculate dir hash"@,
        IoStep::Remove => "failed to remove directory"@,
        IoStep::Create => "failed to create directory"@,
        IoStep::Copy => "failed to copy directory"@,
        IoStep::Persist => "failed to write config file"@,
    }
}

/// The text that tells the user of an error: what failed, on which name
/// or path, and why.
pub open spec fn message_text(error: SyncErrorView) -> Seq<char> {
    match error {
        SyncErrorView::NotFound { what } => what + " not found"@,
        SyncErrorView::Conflict { name, place } => "name "@ + name + " or path "@ + place
            + " is already registered"@,
        SyncErrorView::Io { step, path, cause } => step_text(step) + " "@ + path + ": "@ + cause,
        SyncErrorView::Serialization => "config holds a name or a path twice"@,
        SyncErrorView::HookStart { hook } => "hook script "@ + hook + " failed to start"@,
    }
}

impl IoStep {
    /// What failed, in words.
    pub fn text(self) -> (text: &'static str)
        ensures
            text@ == step_text(self),
    {
        match self {
            IoStep::Probe => "failed to check if path exists",
            IoStep::Fingerprint => "failed to calculate dir hash",
            IoStep::Remove => "failed to remove directory",
            IoStep::Create => "failed to create directory",
            IoStep::Copy => "failed to copy directory",
            IoStep::Persist => "failed to write config file",
        }
    }
}

impl SyncError {
    /// The text that tells the user of this error.
    pub fn message(&self) -> (text: String)
        ensures
            text@ == message_text(self@),
    {
        match self {
            SyncError::NotFound { what } => {
                let mut text = what.clone();
                text.append(" not found");
                text
            },
            SyncError::Conflict { name, place } => {
                let mut text = String::from_str("name ");
                text.append(name.as_str());
                text.append(" or path ");
                text.append(place.as_str());
                text.append(" is already registered");
                text
            },
            SyncError::Io { step, path, cause } => {
                let mut text = String::from_str(step.text());
                text.append(" ");
                text.append(path.as_str());
                text.append(": ");
                text.append(cause.as_str());
                text
            },
            SyncError::Serialization => String::from_str("config holds a name or a path twice"),
            SyncError::HookStart { hook } => {
                let mut text = String::from_str("hook script ");
                text.append(hook.as_str());
                text.append(" failed to start");
                text
            },
        }
    }
}

} // verus!
