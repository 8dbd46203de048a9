//! What the engine asks of its host, and what the host answers.
//!
//! The engine touches no file and starts no process. It hands its host one
//! [`Request`] at a time; the host carries it out and answers with a [`Reply`].

use crate::error::SyncError;
use crate::error::SyncErrorView;
use vstd::prelude::*;

verus! {

/// What became of a pair in an export or an import.
#[derive(Clone, Copy, Debug, PartialEq, Eq)]
pub enum Outcome {
    /// The two sides differed, and the side that the operation favours was copied over the other.
    Applied,
    /// The two sides had the same fingerprint, and nothing was done.
    Skipped,
}

/// The mathematical value of a [`Reply`].
pub ghost enum ReplyView {
    Done,
    Missing,
    Failed(Seq<char>),
    Digest(u32),
}

/// The host's answer to a request.
#[derive(Debug, PartialEq, Eq)]
pub enum Reply {
    /// The step was carried out; to a probe: the path exists.
    Done,
    /// The path that the step names does not exist.
    Missing,
    /// The step failed for another reason, which the text gives.
    Failed(String),
    /// The fingerprint that was asked for.
    Digest(u32),
}

impl View for Reply {
    type V = ReplyView;

    open spec fn view(&self) -> ReplyView {
        match *self {
            Reply::Done => ReplyView::Done,
            Reply::Missing => ReplyView::Missing,
            Reply::Failed(cause) => ReplyView::Failed(cause@),
            Reply::Digest(digest) => ReplyView::Digest(digest),
        }
    }
}

impl ReplyView {
    /// The reason that the host gave for a failure; empty where it gave none.
    pub open spec fn cause(self) -> Seq<char> {
        match self {
            ReplyView::Failed(cause) => cause,
            _ => Seq::empty(),
        }
    }
}

impl Reply {
    /// The reason that the host gave for a failure; empty where it gave none.
    pub fn into_cause(self) -> (cause: String)
        ensures
            cause@ == self@.cause(),
    {
        match self {
            Reply::Failed(cause) => cause,
            _ => String::new(),
        }
    }
}

/// The mathematical value of a [`Request`].
pub ghost enum RequestView {
    Probe(Seq<char>),
    Fingerprint(Seq<char>),
    RemoveTree(Seq<char>),
    CreateDir(Seq<char>),
    Replicate(Seq<char>, Seq<char>),
    Persist(Seq<char>),
    InvokeHook(Seq<char>),
    Report(Seq<char>, Outcome),
    Finish(Result<(), SyncErrorView>),
}

/// What the engine asks its host to do next.
#[derive(Debug, PartialEq, Eq)]
pub enum Request {
    /// Tell whether the path exists: `Done` if it does, `Missing` if not.
    Probe(String),
    /// Walk the tree at the path and answer with its fingerprint.
    Fingerprint(String),
    /// Remove the directory at the path with all that it holds.
    RemoveTree(String),
    /// Create the directory at the path, and its parents as needed.
    CreateDir(String),
    /// Copy the tree at the first path to the second.
    Replicate(String, String),
    /// Write the registry to the file at the path.
    Persist(String),
    /// Run the hook at the path, if one is set there.
    InvokeHook(String),
    /// Tell the user what became of the named pair.
    Report(String, Outcome),
    /// The operation is over, with this result. No answer is expected.
    Finish(Result<(), SyncError>),
}

impl View for Request {
    type V = RequestView;

    open spec fn view(&self) -> RequestView {
        match *self {
            Request::Probe(path) => RequestView::Probe(path@),
            Request::Fingerprint(path) => RequestView::Fingerprint(path@),
            Request::RemoveTree(path) => RequestView::RemoveTree(path@),
            Request::CreateDir(path) => RequestView::CreateDir(path@),
            Request::Replicate(from, to) => RequestView::Replicate(from@, to@),
            Request::Persist(path) => RequestView::Persist(path@),
            Request::InvokeHook(hook) => RequestView::InvokeHook(hook@),
            Request::Report(name, outcome) => RequestView::Report(name@, outcome),
            Request::Finish(result) => RequestView::Finish(
                match result {
                    Ok(_) => Ok(()),
                    Err(e) => Err(e@),
                },
            ),
        }
    }
}

} // verus!
