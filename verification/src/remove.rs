//! Removing a tag: its (empty) directory in the data directory goes away.
use vstd::prelude::*;
use crate::add::AddTag;
use crate::error::{io_error, TagError};
use crate::io::{io_outcome, Action, ActionView, Reply, ReplyView};
use crate::path::{path_join, spec_path_join};

verus! {

/// A request to remove the tag `tag`.
#[derive(Debug, PartialEq, Eq)]
pub struct RemoveTag {
    pub tag: String,
}

/// Where a run of `RemoveTag` stands: which reply it waits for.
#[derive(Debug, PartialEq, Eq)]
pub enum RemoveStage {
    /// Waiting for whether the tag's directory is there.
    CheckTarget,
    /// Waiting for the outcome of removing the directory.
    Remove,
    /// The run has finished.
    Done,
}

/// The message when the tag to remove is not there.
pub open spec fn not_found_text() -> Seq<char> {
    "Tag not found..."@
}

impl RemoveTag {
    /// A request to remove `tag`.
    pub fn new(tag: String) -> (r: Self)
        ensures
            r.tag == tag,
    {
        RemoveTag { tag }
    }

    /// The directory of the tag: the data directory joined with the tag.
    pub open spec fn spec_target(&self, data_dir: Seq<char>) -> Seq<char> {
        spec_path_join(data_dir, self.tag@)
    }

    /// The directory that this request removes, in the data directory `data_dir`.
    pub fn target(&self, data_dir: &String) -> (r: String)
        ensures
            r@ == self.spec_target(data_dir@),
    {
        path_join(data_dir.as_str(), self.tag.as_str())
    }

    /// Whether `reply` is the kind of reply that a run in `stage` waits for.
    pub open spec fn fits(stage: RemoveStage, reply: ReplyView) -> bool {
        match stage {
            RemoveStage::CheckTarget => reply is Answer,
            RemoveStage::Remove => reply is Done,
            RemoveStage::Done => false,
        }
    }

    /// How a run moves on: a tag without a directory is not found; otherwise its directory
    /// is removed, and a failure to remove it is reported as an `IO Error`.
    pub open spec fn spec_step(&self, data_dir: Seq<char>, stage: RemoveStage, reply: ReplyView) -> (
        RemoveStage,
        ActionView,
    ) {
        match (stage, reply) {
            (RemoveStage::CheckTarget, ReplyView::Answer(true)) => (
                RemoveStage::Remove,
                ActionView::RemoveDir(self.spec_target(data_dir)),
            ),
            (RemoveStage::CheckTarget, ReplyView::Answer(false)) => (
                RemoveStage::Done,
                ActionView::Finish(Err(not_found_text())),
            ),
            (RemoveStage::Remove, ReplyView::Done(r)) => (
                RemoveStage::Done,
                ActionView::Finish(io_outcome(r)),
            ),
            _ => (RemoveStage::Done, ActionView::Finish(Ok(()))),
        }
    }

    /// The start of a run: ask whether the tag's directory is there.
    pub fn start(&self, data_dir: &String) -> (r: (RemoveStage, Action))
        ensures
            r.0 == RemoveStage::CheckTarget,
            r.1@ == ActionView::CheckIsDir(self.spec_target(data_dir@)),
    {
        (RemoveStage::CheckTarget, Action::CheckIsDir(self.target(data_dir)))
    }

    /// One move of a run, from the reply to the last action.
    pub fn step(&self, data_dir: &String, stage: RemoveStage, reply: Reply) -> (r: (
        RemoveStage,
        Action,
    ))
        requires
            Self::fits(stage, reply@),
        ensures
            (r.0, r.1@) == self.spec_step(data_dir@, stage, reply@),
    {
        match (stage, reply) {
            (RemoveStage::CheckTarget, Reply::Answer(true)) => (
                RemoveStage::Remove,
                Action::RemoveDir(self.target(data_dir)),
            ),
            (RemoveStage::CheckTarget, Reply::Answer(false)) => (
                RemoveStage::Done,
                Action::Finish(Err(TagError::new(String::from_str("Tag not found...")))),
            ),
            (_, Reply::Done(Ok(()))) => (RemoveStage::Done, Action::Finish(Ok(()))),
            (_, Reply::Done(Err(m))) => (RemoveStage::Done, Action::Finish(Err(io_error(&m)))),
            (_, Reply::Answer(_)) => (RemoveStage::Done, Action::Finish(Ok(()))),
        }
    }
}

/// Removing a tag looks where adding it (with no parent) put it: in one data directory, the
/// directory that a removal of `tag` checks and removes is the one that an addition of `tag`
/// creates.
pub proof fn lemma_remove_targets_added(add: AddTag, remove: RemoveTag, data_dir: Seq<char>)
    requires
        add.parent is None,
        add.tag@ == remove.tag@,
    ensures
        remove.spec_target(data_dir) == add.spec_target(data_dir),
{
}

/// A tag is only ever removed after its directory was found: whatever a run of `RemoveTag`
/// is told, it asks to remove a directory only when told that the directory is there, and
/// then it is the tag's own directory; and a missing tag ends the run with `Tag not found...`.
pub proof fn lemma_remove_only_found(
    remove: RemoveTag,
    data_dir: Seq<char>,
    stage: RemoveStage,
    reply: ReplyView,
)
    requires
        RemoveTag::fits(stage, reply),
    ensures
        remove.spec_step(data_dir, stage, reply).1 is RemoveDir <==> (stage == RemoveStage::CheckTarget
            && reply == ReplyView::Answer(true)),
        remove.spec_step(data_dir, stage, reply).1 is RemoveDir ==> remove.spec_step(
            data_dir,
            stage,
            reply,
        ).1 == ActionView::RemoveDir(remove.spec_target(data_dir)),
        stage == RemoveStage::CheckTarget && reply == ReplyView::Answer(false) ==> remove.spec_step(
            data_dir,
            stage,
            reply,
        ) == (RemoveStage::Done, ActionView::Finish(Err(not_found_text()))),
{
}

/// A run that asks to remove the tag's directory then waits for what came of it and reports
/// it: a failed removal ends the run with `IO Error: ` and the system's report, a successful
/// one with success. And a run finishes with success only right after a successful removal.
pub proof fn lemma_remove_reports_removal(remove: RemoveTag, data_dir: Seq<char>, m: Seq<char>)
    ensures
        ({
            let (next, asked) = remove.spec_step(
                data_dir,
                RemoveStage::CheckTarget,
                ReplyView::Answer(true),
            );
            &&& asked == ActionView::RemoveDir(remove.spec_target(data_dir))
            &&& RemoveTag::fits(next, ReplyView::Done(Err(m)))
            &&& RemoveTag::fits(next, ReplyView::Done(Ok(())))
            &&& remove.spec_step(data_dir, next, ReplyView::Done(Err(m))).1 == ActionView::Finish(
                Err("IO Error: "@ + m),
            )
            &&& remove.spec_step(data_dir, next, ReplyView::Done(Ok(()))).1 == ActionView::Finish(
                Ok(()),
            )
        }),
        forall|stage: RemoveStage, reply: ReplyView|
            RemoveTag::fits(stage, reply) && #[trigger] remove.spec_step(data_dir, stage, reply).1
                == ActionView::Finish(Ok(())) ==> stage == RemoveStage::Remove
                && reply matches ReplyView::Done(Ok(_)),
{
}

} // verus!
