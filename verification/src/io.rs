//! The conversation between an operation of the tagger and the file system.
//!
//! Adding, removing and applying tags alternate questions to the file system with
//! decisions. Each of those operations is a state machine here: it names the next thing to
//! do (an `Action`), the caller does it and hands back what came of it (a `Reply`), and the
//! machine decides again, until it names `Action::Finish`.
use vstd::prelude::*;
use crate::error::TagError;

verus! {

/// What an operation asks of the file system next.
#[derive(Debug)]
pub enum Action {
    /// Answer whether this path is a directory.
    CheckIsDir(String),
    /// Answer whether something exists at this path.
    CheckExists(String),
    /// Create this directory (its parent must exist).
    CreateDir(String),
    /// Create this directory and any missing parents.
    CreateDirAll(String),
    /// Remove this empty directory.
    RemoveDir(String),
    /// Create a symbolic link at `link` that points to `original`.
    Symlink { original: String, link: String },
    /// The operation is over, with this outcome.
    Finish(Result<(), TagError>),
    /// The operation cannot go on: the file to tag has no file name.
    NoFileName,
}

/// What came of an action.
#[derive(Debug)]
pub enum Reply {
    /// The answer to `CheckIsDir` or `CheckExists`.
    Answer(bool),
    /// The outcome of a change to the file system, with the system's report on failure.
    Done(Result<(), String>),
}

/// An action, with its texts as sequences of characters.
pub enum ActionView {
    CheckIsDir(Seq<char>),
    CheckExists(Seq<char>),
    CreateDir(Seq<char>),
    CreateDirAll(Seq<char>),
    RemoveDir(Seq<char>),
    Symlink(Seq<char>, Seq<char>),
    Finish(Result<(), Seq<char>>),
    NoFileName,
}

/// A reply, with its texts as sequences of characters.
pub enum ReplyView {
    Answer(bool),
    Done(Result<(), Seq<char>>),
}

/// The view of an outcome: the message of its error.
pub open spec fn outcome_view(r: Result<(), TagError>) -> Result<(), Seq<char>> {
    match r {
        Ok(()) => Ok(()),
        Err(e) => Err(e.error@),
    }
}

impl View for Action {
    type V = ActionView;

    open spec fn view(&self) -> ActionView {
        match self {
            Action::CheckIsDir(p) => ActionView::CheckIsDir(p@),
            Action::CheckExists(p) => ActionView::CheckExists(p@),
            Action::CreateDir(p) => ActionView::CreateDir(p@),
            Action::CreateDirAll(p) => ActionView::CreateDirAll(p@),
            Action::RemoveDir(p) => ActionView::RemoveDir(p@),
            Action::Symlink { original, link } => ActionView::Symlink(original@, link@),
            Action::Finish(r) => ActionView::Finish(outcome_view(*r)),
            Action::NoFileName => ActionView::NoFileName,
        }
    }
}

impl View for Reply {
    type V = ReplyView;

    open spec fn view(&self) -> ReplyView {
        match self {
            Reply::Answer(b) => ReplyView::Answer(*b),
            Reply::Done(Ok(())) => ReplyView::Done(Ok(())),
            Reply::Done(Err(m)) => ReplyView::Done(Err(m@)),
        }
    }
}

/// The outcome of a change to the file system, as the tagger reports it: success stays
/// success, and a failure becomes an `IO Error: ` message.
pub open spec fn io_outcome(r: Result<(), Seq<char>>) -> Result<(), Seq<char>> {
    match r {
        Ok(()) => Ok(()),
        Err(m) => Err(crate::error::io_error_text(m)),
    }
}

} // verus!
