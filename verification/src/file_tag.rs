//! Applying tags to a file: a symbolic link to the file goes into each tag's directory.
//!
//! A run first makes sure that the file exists, then goes through the tags in order and
//! makes sure that each tag's directory exists (creating it when the request says to
//! correct missing tags, failing otherwise), and only then links the file into each tag's
//! directory under its own file name.
use vstd::prelude::*;
use crate::error::{io_error, io_error_text, TagError};
use crate::io::{Action, ActionView, Reply, ReplyView};
use crate::path::{path_debug, path_file_name, path_join, spec_path_debug, spec_path_file_name, spec_path_join};
use crate::search::{lemma_single_tag_finds_links, search_result, EntryView, SearchTags};

verus! {

/// A request to tag the file at `path` with each of `tags`; with `correct`, tags that do not
/// exist yet are created rather than refused.
#[derive(Debug, PartialEq, Eq)]
pub struct FileTag {
    path: String,
    tags: Vec<String>,
    correct: bool,
}

/// Where a run of `FileTag` stands: which reply it waits for.
#[derive(Debug, PartialEq, Eq)]
pub enum FileTagStage {
    /// Waiting for whether the file exists.
    CheckFile,
    /// Waiting for whether the directory of tag `i` exists.
    CheckTag(usize),
    /// Waiting for the outcome of creating the directory of tag `i`.
    CreateTag(usize),
    /// Waiting for the outcome of linking the file into the directory of tag `i`.
    Link(usize),
    /// The run has finished.
    Done,
}

/// The message when the file to tag does not exist.
pub open spec fn file_missing_text(path: Seq<char>) -> Seq<char> {
    "File "@ + spec_path_debug(path) + " doesn't exist!"@
}

/// The message when a tag does not exist and the request does not correct it.
pub open spec fn tag_missing_text(tag: Seq<char>) -> Seq<char> {
    "Tag "@ + spec_path_debug(tag) + " doesn't exist"@
}

/// The message when the directory `dir` of a missing tag cannot be created.
pub open spec fn create_failed_text(report: Seq<char>, dir: Seq<char>) -> Seq<char> {
    "IO Error: "@ + report + " on tag "@ + spec_path_debug(dir)
}

impl FileTag {
    /// A request to tag the file at `path` (as resolved by the caller) with `tags`.
    pub fn new(path: String, tags: Vec<String>, correct: bool) -> (r: Self)
        ensures
            r.spec_path() == path@,
            r.spec_tags() == tags.deep_view(),
            r.spec_correct() == correct,
    {
        FileTag { path, tags, correct }
    }

    /// The path of the file to tag.
    pub closed spec fn spec_path(&self) -> Seq<char> {
        self.path@
    }

    /// The tags to apply.
    pub closed spec fn spec_tags(&self) -> Seq<Seq<char>> {
        self.tags.deep_view()
    }

    /// Whether missing tags are created.
    pub closed spec fn spec_correct(&self) -> bool {
        self.correct
    }

    /// The path of the file to tag.
    pub fn path(&self) -> (r: &String)
        ensures
            r@ == self.spec_path(),
    {
        &self.path
    }

    /// The tags to apply.
    pub fn tags(&self) -> (r: &Vec<String>)
        ensures
            r.deep_view() == self.spec_tags(),
    {
        &self.tags
    }

    /// Whether missing tags are created.
    pub fn correct(&self) -> (r: bool)
        ensures
            r == self.spec_correct(),
    {
        self.correct
    }

    /// The directory of tag `i`: the data directory joined with the tag.
    pub open spec fn tag_dir(&self, data_dir: Seq<char>, i: int) -> Seq<char> {
        spec_path_join(data_dir, self.spec_tags()[i])
    }

    /// The step that follows once the tags before `i` are known to exist: check tag `i`, or,
    /// when there is none left, start linking.
    pub open spec fn checks_from(&self, data_dir: Seq<char>, i: int) -> (FileTagStage, ActionView) {
        if i < self.spec_tags().len() {
            (FileTagStage::CheckTag(i as usize), ActionView::CheckExists(self.tag_dir(data_dir, i)))
        } else {
            self.links_from(data_dir, 0)
        }
    }

    /// The step that follows once the file is linked into the tags before `i`: link it into
    /// tag `i`, under its file name, or finish when there is none left. A file without a file
    /// name cannot be linked.
    pub open spec fn links_from(&self, data_dir: Seq<char>, i: int) -> (FileTagStage, ActionView) {
        match spec_path_file_name(self.spec_path()) {
            None => (FileTagStage::Done, ActionView::NoFileName),
            Some(name) => if i < self.spec_tags().len() {
                (
                    FileTagStage::Link(i as usize),
                    ActionView::Symlink(
                        self.spec_path(),
                        spec_path_join(self.tag_dir(data_dir, i), name),
                    ),
                )
            } else {
                (FileTagStage::Done, ActionView::Finish(Ok(())))
            },
        }
    }

    /// Whether `stage` names a tag of this request, if it names one.
    pub open spec fn stage_ok(&self, stage: FileTagStage) -> bool {
        match stage {
            FileTagStage::CheckTag(i) => i < self.spec_tags().len(),
            FileTagStage::CreateTag(i) => i < self.spec_tags().len(),
            FileTagStage::Link(i) => i < self.spec_tags().len(),
            _ => true,
        }
    }

    /// Whether `reply` is the kind of reply that a run in `stage` waits for.
    pub open spec fn fits(stage: FileTagStage, reply: ReplyView) -> bool {
        match stage {
            FileTagStage::CheckFile => reply is Answer,
            FileTagStage::CheckTag(_) => reply is Answer,
            FileTagStage::CreateTag(_) => reply is Done,
            FileTagStage::Link(_) => reply is Done,
            FileTagStage::Done => false,
        }
    }

    /// How a run moves on. A missing file ends it. A missing tag is created when the
    /// request corrects tags, and ends the run otherwise; a failure to create it ends the
    /// run with an `IO Error` that names the tag's directory. A failure to link ends the run
    /// with an `IO Error`.
    pub open spec fn spec_step(&self, data_dir: Seq<char>, stage: FileTagStage, reply: ReplyView) -> (
        FileTagStage,
        ActionView,
    ) {
        match (stage, reply) {
            (FileTagStage::CheckFile, ReplyView::Answer(true)) => self.checks_from(data_dir, 0),
            (FileTagStage::CheckFile, ReplyView::Answer(false)) => (
                FileTagStage::Done,
                ActionView::Finish(Err(file_missing_text(self.spec_path()))),
            ),
            (FileTagStage::CheckTag(i), ReplyView::Answer(true)) => self.checks_from(
                data_dir,
                i + 1,
            ),
            (FileTagStage::CheckTag(i), ReplyView::Answer(false)) => if self.spec_correct() {
                (FileTagStage::CreateTag(i), ActionView::CreateDirAll(self.tag_dir(data_dir, i as int)))
            } else {
                (
                    FileTagStage::Done,
                    ActionView::Finish(Err(tag_missing_text(self.spec_tags()[i as int]))),
                )
            },
            (FileTagStage::CreateTag(i), ReplyView::Done(Ok(()))) => self.checks_from(
                data_dir,
                i + 1,
            ),
            (FileTagStage::CreateTag(i), ReplyView::Done(Err(m))) => (
                FileTagStage::Done,
                ActionView::Finish(Err(create_failed_text(m, self.tag_dir(data_dir, i as int)))),
            ),
            (FileTagStage::Link(i), ReplyView::Done(Ok(()))) => self.links_from(data_dir, i + 1),
            (FileTagStage::Link(i), ReplyView::Done(Err(m))) => (
                FileTagStage::Done,
                ActionView::Finish(Err(io_error_text(m))),
            ),
            _ => (FileTagStage::Done, ActionView::Finish(Ok(()))),
        }
    }

    /// The start of a run: ask whether the file exists.
    pub fn start(&self) -> (r: (FileTagStage, Action))
        ensures
            r.0 == FileTagStage::CheckFile,
            r.1@ == ActionView::CheckExists(self.spec_path()),
    {
        (FileTagStage::CheckFile, Action::CheckExists(self.path.clone()))
    }

    /// The directory of tag `i` in the data directory `data_dir`.
    fn tag_dir_at(&self, data_dir: &String, i: usize) -> (r: String)
        requires
            i < self.spec_tags().len(),
        ensures
            r@ == self.tag_dir(data_dir@, i as int),
    {
        path_join(data_dir.as_str(), self.tags[i].as_str())
    }

    fn checks_at(&self, data_dir: &String, i: usize) -> (r: (FileTagStage, Action))
        requires
            i <= self.spec_tags().len(),
        ensures
            (r.0, r.1@) == self.checks_from(data_dir@, i as int),
    {
        if i < self.tags.len() {
            (FileTagStage::CheckTag(i), Action::CheckExists(self.tag_dir_at(data_dir, i)))
        } else {
            self.links_at(data_dir, 0)
        }
    }

    fn links_at(&self, data_dir: &String, i: usize) -> (r: (FileTagStage, Action))
        requires
            i <= self.spec_tags().len(),
        ensures
            (r.0, r.1@) == self.links_from(data_dir@, i as int),
    {
        match path_file_name(self.path.as_str()) {
            None => (FileTagStage::Done, Action::NoFileName),
            Some(name) => {
                if i < self.tags.len() {
                    let dir = self.tag_dir_at(data_dir, i);
                    let link = path_join(dir.as_str(), name.as_str());
                    (FileTagStage::Link(i), Action::Symlink { original: self.path.clone(), link })
                } else {
                    (FileTagStage::Done, Action::Finish(Ok(())))
                }
            },
        }
    }

    /// One move of a run, from the reply to the last action.
    pub fn step(&self, data_dir: &String, stage: FileTagStage, reply: Reply) -> (r: (
        FileTagStage,
        Action,
    ))
        requires
            self.stage_ok(stage),
            Self::fits(stage, reply@),
        ensures
            (r.0, r.1@) == self.spec_step(data_dir@, stage, reply@),
            self.stage_ok(r.0),
    {
        let n = self.tags.len();
        assert(n == self.spec_tags().len());
        match (stage, reply) {
            (FileTagStage::CheckFile, Reply::Answer(true)) => self.checks_at(data_dir, 0),
            (FileTagStage::CheckFile, Reply::Answer(false)) => {
                let shown = path_debug(self.path.as_str());
                let msg = String::from_str("File ").concat(shown.as_str()).concat(
                    " doesn't exist!",
                );
                (FileTagStage::Done, Action::Finish(Err(TagError::new(msg))))
            },
            (FileTagStage::CheckTag(i), Reply::Answer(true)) => self.checks_at(data_dir, i + 1),
            (FileTagStage::CheckTag(i), Reply::Answer(false)) => {
                if self.correct {
                    (FileTagStage::CreateTag(i), Action::CreateDirAll(self.tag_dir_at(data_dir, i)))
                } else {
                    let shown = path_debug(self.tags[i].as_str());
                    let msg = String::from_str("Tag ").concat(shown.as_str()).concat(
                        " doesn't exist",
                    );
                    (FileTagStage::Done, Action::Finish(Err(TagError::new(msg))))
                }
            },
            (FileTagStage::CreateTag(i), Reply::Done(Ok(()))) => self.checks_at(data_dir, i + 1),
            (FileTagStage::CreateTag(i), Reply::Done(Err(m))) => {
                let dir = self.tag_dir_at(data_dir, i);
                let shown = path_debug(dir.as_str());
                let msg = String::from_str("IO Error: ").concat(m.as_str()).concat(
                    " on tag ",
                ).concat(shown.as_str());
                (FileTagStage::Done, Action::Finish(Err(TagError::new(msg))))
            },
            (FileTagStage::Link(i), Reply::Done(Ok(()))) => self.links_at(data_dir, i + 1),
            (FileTagStage::Link(_), Reply::Done(Err(m))) => (
                FileTagStage::Done,
                Action::Finish(Err(io_error(&m))),
            ),
            (_, _) => (FileTagStage::Done, Action::Finish(Ok(()))),
        }
    }
}

/// A request that does not correct tags never creates a directory: whatever a run of it is
/// told, it never asks to create one.
pub proof fn lemma_strict_never_creates(
    request: FileTag,
    data_dir: Seq<char>,
    stage: FileTagStage,
    reply: ReplyView,
)
    requires
        !request.spec_correct(),
        request.stage_ok(stage),
        FileTag::fits(stage, reply),
    ensures
        !(request.spec_step(data_dir, stage, reply).1 is CreateDirAll),
{
}

/// A request that corrects tags never fails on a missing tag: told that the directory of
/// tag `i` does not exist, it asks to create exactly that directory.
pub proof fn lemma_correct_creates_missing(request: FileTag, data_dir: Seq<char>, i: usize)
    requires
        request.spec_correct(),
        i < request.spec_tags().len(),
    ensures
        request.spec_step(data_dir, FileTagStage::CheckTag(i), ReplyView::Answer(false)) == (
            FileTagStage::CreateTag(i),
            ActionView::CreateDirAll(request.tag_dir(data_dir, i as int)),
        ),
{
}

/// Every link that a run makes points to the file to tag and sits in the directory of one
/// of its tags, under the file's own name.
pub proof fn lemma_links_into_tag_dirs(
    request: FileTag,
    data_dir: Seq<char>,
    stage: FileTagStage,
    reply: ReplyView,
)
    requires
        request.stage_ok(stage),
        FileTag::fits(stage, reply),
        request.spec_step(data_dir, stage, reply).1 is Symlink,
    ensures
        ({
            let (original, link) = match request.spec_step(data_dir, stage, reply).1 {
                ActionView::Symlink(o, l) => (o, l),
                _ => (Seq::empty(), Seq::empty()),
            };
            &&& original == request.spec_path()
            &&& spec_path_file_name(request.spec_path()) is Some
            &&& exists|i: int|
                0 <= i < request.spec_tags().len() && link == spec_path_join(
                    #[trigger] request.tag_dir(data_dir, i),
                    spec_path_file_name(request.spec_path())->0,
                )
        }),
{
    let next = request.spec_step(data_dir, stage, reply);
    match next.0 {
        FileTagStage::Link(i) => {
            assert(request.tag_dir(data_dir, i as int) == request.tag_dir(data_dir, i as int));
        },
        _ => {},
    }
}

/// Whether a run in `stage`, told `reply`, may go on to check tag `j`: tag 0 right after
/// the file is found, and any other tag right after the tag before it is found or created.
pub open spec fn checked_before(stage: FileTagStage, reply: ReplyView, j: usize) -> bool {
    if j == 0 {
        stage == FileTagStage::CheckFile && reply == ReplyView::Answer(true)
    } else {
        (stage == FileTagStage::CheckTag((j - 1) as usize) && reply == ReplyView::Answer(true)) || (
        stage == FileTagStage::CreateTag((j - 1) as usize) && reply matches ReplyView::Done(Ok(_)))
    }
}

/// The tags are handled in order, and nothing is linked before every tag's directory is
/// known to exist: a run checks tag `i` only right after the file or tag `i - 1` turned out
/// fine, and starts linking only right after the last tag turned out fine.
pub proof fn lemma_tags_in_order(
    request: FileTag,
    data_dir: Seq<char>,
    stage: FileTagStage,
    reply: ReplyView,
)
    requires
        request.spec_tags().len() <= usize::MAX,
        request.stage_ok(stage),
        FileTag::fits(stage, reply),
    ensures
        forall|j: usize|
            request.spec_step(data_dir, stage, reply).0 == FileTagStage::CheckTag(j)
                ==> #[trigger] checked_before(stage, reply, j),
        request.spec_step(data_dir, stage, reply).0 == FileTagStage::Link(0) ==> (
        (stage == FileTagStage::CheckFile && reply == ReplyView::Answer(true)
            && request.spec_tags().len() == 0) || (stage == FileTagStage::CheckTag(
            (request.spec_tags().len() - 1) as usize,
        ) && reply == ReplyView::Answer(true)) || (stage == FileTagStage::CreateTag(
            (request.spec_tags().len() - 1) as usize,
        ) && reply matches ReplyView::Done(Ok(_)))),
{
    let n = request.spec_tags().len();
    match stage {
        FileTagStage::CheckTag(i) => {
            if reply == ReplyView::Answer(true) && i + 1 < n {
                let j = (i + 1) as usize;
                assert(stage == FileTagStage::CheckTag((j - 1) as usize));
            }
        },
        FileTagStage::CreateTag(i) => {
            if reply matches ReplyView::Done(Ok(_)) && i + 1 < n {
                let j = (i + 1) as usize;
                assert(stage == FileTagStage::CreateTag((j - 1) as usize));
            }
        },
        _ => {},
    }
}

/// A file that a tagging run links into a tag is then found by a search for that tag. The
/// link that the run makes for tag `i` is, in the listing of that tag's directory, the item
/// named after the file, listed under the tag's directory joined with that name; given that
/// item, a search for that one tag without filters returns the link's path.
pub proof fn lemma_tagged_file_is_found(
    request: FileTag,
    data_dir: Seq<char>,
    i: int,
    search: SearchTags,
    listing: Seq<EntryView>,
    j: int,
)
    requires
        0 <= i < request.spec_tags().len(),
        search.tags.deep_view() == seq![request.spec_tags()[i]],
        search.extension is None,
        search.name_snippet is None,
        spec_path_file_name(request.spec_path()) is Some,
        0 <= j < listing.len(),
        listing[j] == (EntryView {
            path: spec_path_join(
                search.spec_tag_dirs(data_dir)[0],
                spec_path_file_name(request.spec_path())->0,
            ),
            name: spec_path_file_name(request.spec_path())->0,
            is_symlink: true,
        }),
    ensures
        request.links_from(data_dir, i).1 == ActionView::Symlink(request.spec_path(), listing[j].path),
        search_result(seq![listing], None, None).contains(listing[j].path),
{
    assert(search.tags.deep_view().len() == 1);
    assert(search.tags@.len() == 1);
    assert(search.tags.deep_view()[0] == search.tags@[0].deep_view());
    assert(search.spec_tag_dirs(data_dir)[0] == request.tag_dir(data_dir, i));
    lemma_single_tag_finds_links(listing, j);
}

/// A link that cannot be made ends the run: told that linking into tag `i` failed with the
/// report `m`, a run finishes with `IO Error: ` and `m`, and asks for nothing more.
pub proof fn lemma_link_failure_ends_run(
    request: FileTag,
    data_dir: Seq<char>,
    i: usize,
    m: Seq<char>,
)
    requires
        i < request.spec_tags().len(),
    ensures
        request.spec_step(data_dir, FileTagStage::Link(i), ReplyView::Done(Err(m))) == (
            FileTagStage::Done,
            ActionView::Finish(Err(io_error_text(m))),
        ),
{
}

/// The link of the file into the directory of tag `i`: a symbolic link to the file, in the
/// data directory joined with the tag, under the file's own name.
pub open spec fn link_into(request: FileTag, data_dir: Seq<char>, i: int) -> ActionView {
    ActionView::Symlink(
        request.spec_path(),
        spec_path_join(
            spec_path_join(data_dir, request.spec_tags()[i]),
            spec_path_file_name(request.spec_path())->0,
        ),
    )
}

/// A tag that is found moves the run on, whether or not the request corrects tags: told
/// that tag `i` exists, a run checks whether tag `i + 1` exists, and after the last tag it
/// links the file into the first tag (or cannot, when the file has no file name).
pub proof fn lemma_found_tag_moves_on(request: FileTag, data_dir: Seq<char>, i: usize)
    requires
        i < request.spec_tags().len(),
        request.spec_tags().len() <= usize::MAX,
    ensures
        i + 1 < request.spec_tags().len() ==> request.spec_step(
            data_dir,
            FileTagStage::CheckTag(i),
            ReplyView::Answer(true),
        ) == (
            FileTagStage::CheckTag((i + 1) as usize),
            ActionView::CheckExists(spec_path_join(data_dir, request.spec_tags()[i + 1])),
        ),
        i + 1 == request.spec_tags().len() && spec_path_file_name(request.spec_path()) is Some
            ==> request.spec_step(data_dir, FileTagStage::CheckTag(i), ReplyView::Answer(true)) == (
            FileTagStage::Link(0),
            link_into(request, data_dir, 0),
        ),
        i + 1 == request.spec_tags().len() && spec_path_file_name(request.spec_path()) is None
            ==> request.spec_step(data_dir, FileTagStage::CheckTag(i), ReplyView::Answer(true)).1
            == ActionView::NoFileName,
{
}

/// One step seen from where it leads: a step into linking tag `j` asks for the link into
/// tag `j`, and comes right after the link into tag `j - 1` was made (for `j > 0`); a step
/// that finishes with success comes right after the link into the last tag was made, or
/// the request has no tags; and a file without a file name is never finished with success.
proof fn lemma_step_into_link(
    request: FileTag,
    data_dir: Seq<char>,
    stage: FileTagStage,
    reply: ReplyView,
)
    requires
        request.spec_tags().len() <= usize::MAX,
        request.stage_ok(stage),
        FileTag::fits(stage, reply),
    ensures
        request.spec_step(data_dir, stage, reply).0 matches FileTagStage::Link(j) ==> {
            &&& spec_path_file_name(request.spec_path()) is Some
            &&& request.spec_step(data_dir, stage, reply).1 == link_into(request, data_dir, j as int)
            &&& j > 0 ==> stage == FileTagStage::Link((j - 1) as usize) && reply matches ReplyView::Done(Ok(_))
        },
        request.spec_step(data_dir, stage, reply).1 == ActionView::Finish(Ok(())) ==> {
            &&& spec_path_file_name(request.spec_path()) is Some
            &&& (request.spec_tags().len() == 0 || (stage == FileTagStage::Link(
                (request.spec_tags().len() - 1) as usize,
            ) && reply matches ReplyView::Done(Ok(_))))
        },
{
    match stage {
        FileTagStage::Link(i) => {
            let j = (i + 1) as usize;
            assert(j - 1 == i);
        },
        _ => {},
    }
}

/// A run of a tagging request: the stages it went through, the actions it named and the
/// replies it was given, each step made by `FileTag::step` from the reply to the action
/// before, starting where `FileTag::start` starts.
pub open spec fn is_run(
    request: FileTag,
    data_dir: Seq<char>,
    stages: Seq<FileTagStage>,
    actions: Seq<ActionView>,
    replies: Seq<ReplyView>,
) -> bool {
    &&& stages.len() == replies.len() + 1
    &&& actions.len() == stages.len()
    &&& stages[0] == FileTagStage::CheckFile
    &&& actions[0] == ActionView::CheckExists(request.spec_path())
    &&& forall|t: int|
        0 <= t < replies.len() ==> {
            &&& request.stage_ok(#[trigger] stages[t])
            &&& FileTag::fits(stages[t], replies[t])
            &&& (stages[t + 1], actions[t + 1]) == request.spec_step(data_dir, stages[t], replies[t])
        }
}

/// Up to step `k` of a run, the file has been linked into tags `0` to `j` when the run is
/// linking tag `j`, and into every tag when it finished with success.
proof fn lemma_run_links_upto(
    request: FileTag,
    data_dir: Seq<char>,
    stages: Seq<FileTagStage>,
    actions: Seq<ActionView>,
    replies: Seq<ReplyView>,
    k: int,
)
    requires
        request.spec_tags().len() <= usize::MAX,
        is_run(request, data_dir, stages, actions, replies),
        0 <= k < stages.len(),
    ensures
        stages[k] matches FileTagStage::Link(j) ==> spec_path_file_name(request.spec_path()) is Some
            && forall|i: int|
            #![trigger link_into(request, data_dir, i)]
            0 <= i <= j ==> exists|t: int| 0 <= t <= k && #[trigger] actions[t] == link_into(request, data_dir, i),
        actions[k] == ActionView::Finish(Ok(())) ==> spec_path_file_name(request.spec_path()) is Some
            && forall|i: int|
            #![trigger link_into(request, data_dir, i)]
            0 <= i < request.spec_tags().len() ==> exists|t: int|
                0 <= t <= k && #[trigger] actions[t] == link_into(request, data_dir, i),
    decreases k,
{
    if k > 0 {
        let t = k - 1;
        assert(request.stage_ok(stages[t]));
        lemma_step_into_link(request, data_dir, stages[t], replies[t]);
        lemma_run_links_upto(request, data_dir, stages, actions, replies, t);
        let n = request.spec_tags().len();
        if let FileTagStage::Link(j) = stages[k] {
            assert forall|i: int| #![trigger link_into(request, data_dir, i)] 0 <= i <= j implies exists|u: int|
                0 <= u <= k && #[trigger] actions[u] == link_into(request, data_dir, i) by {
                if i == j {
                    assert(actions[k] == link_into(request, data_dir, i));
                } else {
                    let u = choose|u: int| 0 <= u <= t && #[trigger] actions[u] == link_into(request, data_dir, i);
                    assert(actions[u] == link_into(request, data_dir, i));
                }
            }
        }
        if actions[k] == ActionView::Finish(Ok(())) && n > 0 {
            assert forall|i: int| #![trigger link_into(request, data_dir, i)] 0 <= i < n implies exists|u: int|
                0 <= u <= k && #[trigger] actions[u] == link_into(request, data_dir, i) by {
                let u = choose|u: int| 0 <= u <= t && #[trigger] actions[u] == link_into(request, data_dir, i);
                assert(actions[u] == link_into(request, data_dir, i));
            }
        }
    }
}

/// A tagging run that finishes with success has linked the file into every one of its
/// tags: for each tag, some action of the run is the symbolic link to the file in that
/// tag's directory, under the file's name.
pub proof fn lemma_success_links_every_tag(
    request: FileTag,
    data_dir: Seq<char>,
    stages: Seq<FileTagStage>,
    actions: Seq<ActionView>,
    replies: Seq<ReplyView>,
)
    requires
        request.spec_tags().len() <= usize::MAX,
        is_run(request, data_dir, stages, actions, replies),
        actions.last() == ActionView::Finish(Ok(())),
    ensures
        spec_path_file_name(request.spec_path()) is Some,
        forall|i: int|
            #![trigger link_into(request, data_dir, i)]
            0 <= i < request.spec_tags().len() ==> exists|t: int|
                0 <= t < actions.len() && #[trigger] actions[t] == link_into(request, data_dir, i),
{
    lemma_run_links_upto(request, data_dir, stages, actions, replies, actions.len() - 1);
}

} // verus!
