//! The operations of the tagger, and how a command line turns into one.
use vstd::prelude::*;
use crate::add::AddTag;
use crate::error::TagError;
use crate::file_tag::FileTag;
use crate::remove::RemoveTag;
use crate::search::SearchTags;

verus! {

/// One thing the tagger can be asked to do.
#[derive(Debug, PartialEq, Eq)]
pub enum Operation {
    Search(SearchTags),
    Add(AddTag),
    Remove(RemoveTag),
    Tag(FileTag),
}

/// What the command line holds for each subcommand, value by value, before any check: a
/// value the user did not give is `None`.
#[derive(Debug)]
pub enum Invocation {
    /// `search`, with its `--tag` values (repeatable), `--extension` and `--name`.
    Search { tags: Option<Vec<String>>, extension: Option<String>, name: Option<String> },
    /// `add`, with its `--name` and `--parent`.
    Add { name: Option<String>, parent: Option<String> },
    /// `remove`, with its `--name`.
    Remove { name: Option<String> },
    /// `tag`, with its `--file`, its `--tag` values (repeatable) and whether `--correct` is set.
    Tag { file: Option<String>, tags: Option<Vec<String>>, correct: bool },
}

/// The message when `add` has no name.
pub open spec fn add_needs_name_text() -> Seq<char> {
    "'add' operation requires a name."@
}

/// The message when `remove` has no name.
pub open spec fn remove_needs_name_text() -> Seq<char> {
    "'remove' operation requires a tag name to remove."@
}

/// The message when `tag` has no tag.
pub open spec fn tag_needs_tags_text() -> Seq<char> {
    "You must use at least one tag!"@
}

/// The message when `tag` has no file.
pub open spec fn tag_needs_file_text() -> Seq<char> {
    "You need to specify a path for the file to tag!"@
}

/// The tags of a search from its command line: the `--tag` values, or none.
pub open spec fn search_tags(tags: Option<Vec<String>>) -> Seq<String> {
    match tags {
        Some(ts) => ts@,
        None => Seq::empty(),
    }
}

impl Operation {
    /// The operation that a command line asks for. A search takes its tags, its extension
    /// filter from `--extension` and its name filter from `--name`; `add` and
    /// `remove` need a name and `tag` needs a file and at least one tag, or the matching
    /// error comes back. The file of `tag` is taken as it was given.
    pub fn from_invocation(inv: Invocation) -> (r: Result<Operation, TagError>)
        ensures
            match inv {
                Invocation::Search { tags, extension, name } => r matches Ok(
                    Operation::Search(s),
                ) && s.tags@ == search_tags(tags) && s.extension == extension && s.name_snippet
                    == name && (tags matches Some(ts) ==> s.tags@ == ts@) && (tags is None
                    ==> s.tags@.len() == 0),
                Invocation::Add { name, parent } => match name {
                    Some(n) => r matches Ok(Operation::Add(a)) && a.tag == n && a.parent == parent,
                    None => r matches Err(e) && e.error@ == add_needs_name_text(),
                },
                Invocation::Remove { name } => match name {
                    Some(n) => r matches Ok(Operation::Remove(d)) && d.tag == n,
                    None => r matches Err(e) && e.error@ == remove_needs_name_text(),
                },
                Invocation::Tag { file, tags, correct } => match (file, tags) {
                    (Some(f), Some(ts)) => r matches Ok(Operation::Tag(t)) && t.spec_path() == f@
                        && t.spec_tags() == ts.deep_view() && t.spec_correct() == correct,
                    (Some(_), None) => r matches Err(e) && e.error@ == tag_needs_tags_text(),
                    (None, _) => r matches Err(e) && e.error@ == tag_needs_file_text(),
                },
            },
    {
        match inv {
            Invocation::Search { tags, extension, name } => {
                let mut search = SearchTags::default();
                match tags {
                    Some(ts) => {
                        let mut i: usize = 0;
                        while i < ts.len()
                            invariant
                                i <= ts.len(),
                                search.tags@ == ts@.subrange(0, i as int),
                                search.extension is None,
                                search.name_snippet is None,
                            decreases ts.len() - i,
                        {
                            search.add_tag(&ts[i]);
                            assert(ts@.subrange(0, i + 1) =~= ts@.subrange(0, i as int).push(
                                ts@[i as int],
                            ));
                            i = i + 1;
                        }
                        assert(ts@.subrange(0, ts.len() as int) =~= ts@);
                    },
                    None => {
                        assert(search.tags@ =~= Seq::<String>::empty());
                    },
                }
                search.extension = extension;
                search.name_snippet = name;
                Ok(Operation::Search(search))
            },
            Invocation::Add { name, parent } => match name {
                Some(n) => {
                    let mut add = AddTag::new(n, None);
                    match parent {
                        Some(p) => {
                            add.parent = Some(p);
                        },
                        None => {},
                    }
                    Ok(Operation::Add(add))
                },
                None => Err(TagError::new(String::from_str("'add' operation requires a name."))),
            },
            Invocation::Remove { name } => match name {
                Some(n) => Ok(Operation::Remove(RemoveTag::new(n))),
                None => Err(
                    TagError::new(
                        String::from_str("'remove' operation requires a tag name to remove."),
                    ),
                ),
            },
            Invocation::Tag { file, tags, correct } => match file {
                Some(f) => match tags {
                    Some(ts) => Ok(Operation::Tag(FileTag::new(f, ts, correct))),
                    None => Err(TagError::new(String::from_str("You must use at least one tag!"))),
                },
                None => Err(
                    TagError::new(
                        String::from_str("You need to specify a path for the file to tag!"),
                    ),
                ),
            },
        }
    }
}

} // verus!
