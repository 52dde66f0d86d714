//! Adding a tag: a tag is a directory in the data directory, or in its parent tag's directory.
use vstd::prelude::*;
use crate::error::{io_error, TagError};
use crate::io::{io_outcome, Action, ActionView, Reply, ReplyView};
use crate::path::{path_join, spec_path_join};

verus! {

/// A request to create the tag `tag`, under the tag `parent` when there is one.
#[derive(Debug, PartialEq, Eq)]
pub struct AddTag {
    pub tag: String,
    pub parent: Option<String>,
}

/// Where a run of `AddTag` stands: which reply it waits for.
#[derive(Debug, PartialEq, Eq)]
pub enum AddStage {
    /// Waiting for whether the new tag's directory is already there.
    CheckTarget,
    /// Waiting for the outcome of creating the directory.
    Create,
    /// The run has finished.
    Done,
}

/// The message when the tag to add is already there.
pub open spec fn already_exists_text() -> Seq<char> {
    "Tag Already Exists!"@
}

impl AddTag {
    /// A request to add `tag` under `parent`.
    pub fn new(tag: String, parent: Option<String>) -> (r: Self)
        ensures
            r.tag == tag,
            r.parent == parent,
    {
        AddTag { tag, parent }
    }

    /// The directory of the new tag: the data directory, joined with the parent tag when
    /// there is one, joined with the tag.
    pub open spec fn spec_target(&self, data_dir: Seq<char>) -> Seq<char> {
        match self.parent {
            Some(p) => spec_path_join(spec_path_join(data_dir, p@), self.tag@),
            None => spec_path_join(data_dir, self.tag@),
        }
    }

    /// The directory that this request creates, in the data directory `data_dir`.
    pub fn target(&self, data_dir: &String) -> (r: String)
        ensures
            r@ == self.spec_target(data_dir@),
    {
        match &self.parent {
            Some(p) => {
                let under = path_join(data_dir.as_str(), p.as_str());
                path_join(under.as_str(), self.tag.as_str())
            },
            None => path_join(data_dir.as_str(), self.tag.as_str()),
        }
    }

    /// Whether `reply` is the kind of reply that a run in `stage` waits for.
    pub open spec fn fits(stage: AddStage, reply: ReplyView) -> bool {
        match stage {
            AddStage::CheckTarget => reply is Answer,
            AddStage::Create => reply is Done,
            AddStage::Done => false,
        }
    }

    /// How a run moves on: a tag whose directory is already there is refused; otherwise its
    /// directory is created, and a failure to create it is reported as an `IO Error`.
    pub open spec fn spec_step(&self, data_dir: Seq<char>, stage: AddStage, reply: ReplyView) -> (
        AddStage,
        ActionView,
    ) {
        match (stage, reply) {
            (AddStage::CheckTarget, ReplyView::Answer(true)) => (
                AddStage::Done,
                ActionView::Finish(Err(already_exists_text())),
            ),
            (AddStage::CheckTarget, ReplyView::Answer(false)) => (
                AddStage::Create,
                ActionView::CreateDir(self.spec_target(data_dir)),
            ),
            (AddStage::Create, ReplyView::Done(r)) => (
                AddStage::Done,
                ActionView::Finish(io_outcome(r)),
            ),
            _ => (AddStage::Done, ActionView::Finish(Ok(()))),
        }
    }

    /// The start of a run: ask whether the new tag's directory is already there.
    pub fn start(&self, data_dir: &String) -> (r: (AddStage, Action))
        ensures
            r.0 == AddStage::CheckTarget,
            r.1@ == ActionView::CheckIsDir(self.spec_target(data_dir@)),
    {
        (AddStage::CheckTarget, Action::CheckIsDir(self.target(data_dir)))
    }

    /// One move of a run, from the reply to the last action.
    pub fn step(&self, data_dir: &String, stage: AddStage, reply: Reply) -> (r: (AddStage, Action))
        requires
            Self::fits(stage, reply@),
        ensures
            (r.0, r.1@) == self.spec_step(data_dir@, stage, reply@),
    {
        match (stage, reply) {
            (AddStage::CheckTarget, Reply::Answer(true)) => (
                AddStage::Done,
                Action::Finish(Err(TagError::new(String::from_str("Tag Already Exists!")))),
            ),
            (AddStage::CheckTarget, Reply::Answer(false)) => (
                AddStage::Create,
                Action::CreateDir(self.target(data_dir)),
            ),
            (_, Reply::Done(Ok(()))) => (AddStage::Done, Action::Finish(Ok(()))),
            (_, Reply::Done(Err(m))) => (AddStage::Done, Action::Finish(Err(io_error(&m)))),
            (_, Reply::Answer(_)) => (AddStage::Done, Action::Finish(Ok(()))),
        }
    }
}

/// An existing tag is never added again: whatever a run of `AddTag` is told, it asks to
/// create a directory only when told that the target is not a directory yet, and then it is
/// the tag's own directory; and a tag that is already there ends the run with
/// `Tag Already Exists!`.
pub proof fn lemma_add_only_new(add: AddTag, data_dir: Seq<char>, stage: AddStage, reply: ReplyView)
    requires
        AddTag::fits(stage, reply),
    ensures
        add.spec_step(data_dir, stage, reply).1 is CreateDir <==> (stage == AddStage::CheckTarget
            && reply == ReplyView::Answer(false)),
        add.spec_step(data_dir, stage, reply).1 is CreateDir ==> add.spec_step(
            data_dir,
            stage,
            reply,
        ).1 == ActionView::CreateDir(add.spec_target(data_dir)),
        stage == AddStage::CheckTarget && reply == ReplyView::Answer(true) ==> add.spec_step(
            data_dir,
            stage,
            reply,
        ) == (AddStage::Done, ActionView::Finish(Err(already_exists_text()))),
{
}

/// A run that asks to create the new tag's directory then waits for what came of it and
/// reports it: a failed creation ends the run with `IO Error: ` and the system's report, a
/// successful one with success. And a run finishes with success only right after a
/// successful creation.
pub proof fn lemma_add_reports_creation(add: AddTag, data_dir: Seq<char>, m: Seq<char>)
    ensures
        ({
            let (next, asked) = add.spec_step(data_dir, AddStage::CheckTarget, ReplyView::Answer(false));
            &&& asked == ActionView::CreateDir(add.spec_target(data_dir))
            &&& AddTag::fits(next, ReplyView::Done(Err(m)))
            &&& AddTag::fits(next, ReplyView::Done(Ok(())))
            &&& add.spec_step(data_dir, next, ReplyView::Done(Err(m))).1 == ActionView::Finish(
                Err("IO Error: "@ + m),
            )
            &&& add.spec_step(data_dir, next, ReplyView::Done(Ok(()))).1 == ActionView::Finish(Ok(()))
        }),
        forall|stage: AddStage, reply: ReplyView|
            AddTag::fits(stage, reply) && #[trigger] add.spec_step(data_dir, stage, reply).1
                == ActionView::Finish(Ok(())) ==> stage == AddStage::Create && reply matches ReplyView::Done(
                Ok(_),
            ),
{
}

} // verus!
