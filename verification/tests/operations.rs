use std::collections::BTreeMap;
use std::collections::BTreeSet;

use tagger::add::{AddStage, AddTag};
use tagger::error::TagError;
use tagger::file_tag::{FileTag, FileTagStage};
use tagger::io::{Action, Reply};
use tagger::remove::{RemoveStage, RemoveTag};
use tagger::search::{Entry, SearchTags};

const DATA_DIR: &str = "/data/tagger";

/// A file system held in memory: directories, plain files and symbolic links.
#[derive(Default)]
struct MemFs {
    dirs: BTreeSet<String>,
    files: BTreeSet<String>,
    links: BTreeMap<String, String>,
}

fn parent_of(p: &str) -> String {
    std::path::Path::new(p).parent().map(|q| q.to_string_lossy().into_owned()).unwrap_or_default()
}

impl MemFs {
    fn new() -> Self {
        let mut fs = MemFs::default();
        fs.dirs.insert("/".to_string());
        fs.dirs.insert("/data".to_string());
        fs.dirs.insert(DATA_DIR.to_string());
        fs
    }

    fn has(&self, p: &str) -> bool {
        self.dirs.contains(p) || self.files.contains(p) || self.links.contains_key(p)
    }

    /// Carries out one action and says what came of it; `None` for the final actions.
    fn perform(&mut self, action: &Action) -> Option<Reply> {
        match action {
            Action::CheckIsDir(p) => Some(Reply::Answer(self.dirs.contains(p))),
            Action::CheckExists(p) => Some(Reply::Answer(self.has(p))),
            Action::CreateDir(p) => {
                if self.has(p) {
                    Some(Reply::Done(Err("File exists (os error 17)".to_string())))
                } else if !self.dirs.contains(&parent_of(p)) {
                    Some(Reply::Done(Err("No such file or directory (os error 2)".to_string())))
                } else {
                    self.dirs.insert(p.clone());
                    Some(Reply::Done(Ok(())))
                }
            },
            Action::CreateDirAll(p) => {
                let mut cur = p.clone();
                while !cur.is_empty() && !self.dirs.contains(&cur) {
                    self.dirs.insert(cur.clone());
                    cur = parent_of(&cur);
                }
                Some(Reply::Done(Ok(())))
            },
            Action::RemoveDir(p) => {
                self.dirs.remove(p);
                Some(Reply::Done(Ok(())))
            },
            Action::Symlink { original, link } => {
                if self.has(link) {
                    Some(Reply::Done(Err("File exists (os error 17)".to_string())))
                } else {
                    self.links.insert(link.clone(), original.clone());
                    Some(Reply::Done(Ok(())))
                }
            },
            Action::Finish(_) | Action::NoFileName => None,
        }
    }
}

fn data_dir() -> String {
    DATA_DIR.to_string()
}

fn join(a: &str, b: &str) -> String {
    std::path::Path::new(a).join(b).to_string_lossy().into_owned()
}

fn run_add(op: &AddTag, fs: &mut MemFs) -> Result<(), TagError> {
    let dir = data_dir();
    let (mut stage, mut action) = op.start(&dir);
    loop {
        match fs.perform(&action) {
            Some(reply) => {
                let next = op.step(&dir, stage, reply);
                stage = next.0;
                action = next.1;
            },
            None => match action {
                Action::Finish(r) => return r,
                _ => panic!("unexpected end"),
            },
        }
    }
}

fn run_remove(op: &RemoveTag, fs: &mut MemFs) -> Result<(), TagError> {
    let dir = data_dir();
    let (mut stage, mut action) = op.start(&dir);
    loop {
        match fs.perform(&action) {
            Some(reply) => {
                let next = op.step(&dir, stage, reply);
                stage = next.0;
                action = next.1;
            },
            None => match action {
                Action::Finish(r) => return r,
                _ => panic!("unexpected end"),
            },
        }
    }
}

fn run_file_tag(op: &FileTag, fs: &mut MemFs) -> Result<(), TagError> {
    let dir = data_dir();
    let (mut stage, mut action) = op.start();
    loop {
        match fs.perform(&action) {
            Some(reply) => {
                let next = op.step(&dir, stage, reply);
                stage = next.0;
                action = next.1;
            },
            None => match action {
                Action::Finish(r) => return r,
                Action::NoFileName => panic!("Path didn't end in a valid file."),
                _ => panic!("unexpected end"),
            },
        }
    }
}

fn tag_error(s: &str) -> TagError {
    TagError::new(s.to_string())
}

/// Lists the tag directories of a search the way the file system would, and runs it.
fn run_search(op: &SearchTags, fs: &MemFs) -> Result<Vec<String>, TagError> {
    let dir = data_dir();
    let tag_dirs = op.tag_dirs(&dir);
    let present: Vec<bool> = tag_dirs.iter().map(|d| fs.has(d)).collect();
    op.check_tags(&present)?;
    let name_of = |p: &str| std::path::Path::new(p).file_name().unwrap().to_string_lossy().into_owned();
    let mut listings: Vec<Vec<Entry>> = Vec::new();
    for tag_dir in &tag_dirs {
        let mut listing = Vec::new();
        for (link, _) in fs.links.iter() {
            if &parent_of(link) == tag_dir {
                listing.push(Entry::new(link.clone(), name_of(link), true));
            }
        }
        for f in fs.files.iter() {
            if &parent_of(f) == tag_dir {
                listing.push(Entry::new(f.clone(), name_of(f), false));
            }
        }
        listings.push(listing);
    }
    let found = op.select(&listings);
    Ok(SearchTags::relative_to(&found, &dir).expect("under the data directory"))
}

#[test]
fn test_add_execute() {
    let mut fs = MemFs::new();
    const TEST_ADD_TAG_NAME: &str = "add_test";
    let add_task = AddTag::new(String::from(TEST_ADD_TAG_NAME), None);
    let result = run_add(&add_task, &mut fs);
    assert!(result.is_ok(), "Test add operation failed: {:?}", result.err().unwrap());
    assert!(fs.dirs.contains(&join(DATA_DIR, TEST_ADD_TAG_NAME)), "Test tag didn't exist!");

    let repeat_result = run_add(&add_task, &mut fs);
    assert_eq!(
        tag_error("Tag Already Exists!"),
        repeat_result.err().unwrap(),
        "Repeated action succeeded erroneously!"
    );

    let child_tag = AddTag::new(String::from("child"), Some(String::from(TEST_ADD_TAG_NAME)));
    let child_result = run_add(&child_tag, &mut fs);
    assert!(child_result.is_ok(), "Child add operation failed!");
    assert!(
        fs.dirs.contains(&join(&join(DATA_DIR, TEST_ADD_TAG_NAME), "child")),
        "Child tag didn't exist!"
    );
}

#[test]
fn test_remove_execute() {
    let mut fs = MemFs::new();
    const TEST_REMOVE_TAG_NAME: &str = "remove_tag";
    let new_tag = join(DATA_DIR, TEST_REMOVE_TAG_NAME);
    fs.dirs.insert(new_tag.clone());
    assert!(fs.dirs.contains(&new_tag), "Test setup (creating the tag) somehow failed ;_;");

    let remove_action = RemoveTag::new(String::from(TEST_REMOVE_TAG_NAME));
    let removal_result = run_remove(&remove_action, &mut fs);
    assert!(removal_result.is_ok(), "Valid remove operation failed!");
    assert!(!fs.has(&new_tag), "Tag wasn't removed!");

    let repeat_remove_action = run_remove(&remove_action, &mut fs);
    assert_eq!(
        tag_error("Tag not found..."),
        repeat_remove_action.err().unwrap(),
        "Repeated removal didn't throw the expected error!"
    );
}

#[test]
fn test_search_execute() {
    let mut fs = MemFs::new();
    const TEST_SEARCH_TAG_NAME: &str = "search_tag";
    let tag_dir = join(DATA_DIR, TEST_SEARCH_TAG_NAME);
    fs.dirs.insert(tag_dir.clone());
    const FILE1_NAME: &str = "file1.txt";
    fs.files.insert(join(DATA_DIR, FILE1_NAME));
    fs.links.insert(join(&tag_dir, FILE1_NAME), join(DATA_DIR, FILE1_NAME));
    const FILE2_NAME: &str = "file2.md";
    fs.files.insert(join(DATA_DIR, FILE2_NAME));
    fs.links.insert(join(&tag_dir, FILE2_NAME), join(DATA_DIR, FILE2_NAME));

    let search_action_1 =
        SearchTags::new(vec![String::from(TEST_SEARCH_TAG_NAME)], None, None);
    let search_action_2 =
        SearchTags::new(vec![String::from(TEST_SEARCH_TAG_NAME)], Some(String::from("md")), None);
    let search_action_3 =
        SearchTags::new(vec![String::from(TEST_SEARCH_TAG_NAME)], None, Some(String::from("1")));

    assert_eq!(
        vec![String::from("search_tag/file1.txt"), String::from("search_tag/file2.md")],
        run_search(&search_action_1, &fs).unwrap(),
        "Failed to do a basic tag search"
    );
    assert_eq!(
        vec![String::from("search_tag/file2.md")],
        run_search(&search_action_2, &fs).unwrap(),
        "Failed to filter a search by extension"
    );
    assert_eq!(
        vec![String::from("search_tag/file1.txt")],
        run_search(&search_action_3, &fs).unwrap(),
        "Failed to filter a search by name snippet"
    );
}

#[test]
fn test_tag_execute() {
    let mut fs = MemFs::new();
    const TEST_SEARCH_TAG_NAME: &str = "file_tag";
    fs.dirs.insert(join(DATA_DIR, TEST_SEARCH_TAG_NAME));
    const FILENAME: &str = "file1.txt";
    let real_file_path = join(DATA_DIR, FILENAME);
    fs.files.insert(real_file_path.clone());
    let tags = vec![String::from("tag_1"), String::from("tag_2"), String::from("tag_3")];
    let tag_file_action_1 = FileTag::new(real_file_path.clone(), tags.clone(), false);
    assert!(
        run_file_tag(&tag_file_action_1, &mut fs).is_err(),
        "Tag operation succeeded where it should have failed due to invalid tags"
    );
    let tag_file_action_2 = FileTag::new(real_file_path.clone(), tags.clone(), true);
    let action_2_result = run_file_tag(&tag_file_action_2, &mut fs);
    assert!(
        action_2_result.is_ok(),
        "Tag operation failed where it should have succeeded: {}",
        action_2_result.err().unwrap().message()
    );
    for tag in &tags {
        assert!(fs.links.contains_key(&join(&join(DATA_DIR, tag), FILENAME)));
    }

    let mut fs = MemFs::new();
    fs.files.insert(real_file_path.clone());
    fs.dirs.insert(join(DATA_DIR, "tag_1"));
    fs.dirs.insert(join(DATA_DIR, "tag_2"));
    fs.dirs.insert(join(DATA_DIR, "tag_3"));
    let tag_file_action_3 = FileTag::new(join(DATA_DIR, FILENAME), tags.clone(), false);
    assert!(
        run_file_tag(&tag_file_action_3, &mut fs).is_ok(),
        "Tag operation failed where it should have succeeded"
    );
    for tag in &tags {
        assert!(fs.links.contains_key(&join(&join(DATA_DIR, tag), FILENAME)));
    }
}

#[test]
fn add_existing_tag_is_refused_before_any_change() {
    let op = AddTag::new("t".to_string(), None);
    let dir = data_dir();
    let (stage, action) = op.start(&dir);
    assert_eq!(stage, AddStage::CheckTarget);
    match action {
        Action::CheckIsDir(p) => assert_eq!(p, "/data/tagger/t"),
        other => panic!("unexpected {:?}", other),
    }
    let (stage, action) = op.step(&dir, AddStage::CheckTarget, Reply::Answer(true));
    assert_eq!(stage, AddStage::Done);
    match action {
        Action::Finish(Err(e)) => assert_eq!(e.message(), "Tag Already Exists!"),
        other => panic!("unexpected {:?}", other),
    }
}

#[test]
fn add_with_parent_targets_the_parent_directory() {
    let op = AddTag::new("child".to_string(), Some("parent".to_string()));
    assert_eq!(op.target(&data_dir()), "/data/tagger/parent/child");
    let op = AddTag::new("/elsewhere".to_string(), None);
    assert_eq!(op.target(&data_dir()), "/elsewhere");
}

#[test]
fn add_reports_io_failure() {
    let op = AddTag::new("a".to_string(), None);
    let (stage, action) = op.step(&data_dir(), AddStage::Create, Reply::Done(Err("disk full".to_string())));
    assert_eq!(stage, AddStage::Done);
    match action {
        Action::Finish(Err(e)) => assert_eq!(e.message(), "IO Error: disk full"),
        other => panic!("unexpected {:?}", other),
    }
    let (_, action) = op.step(&data_dir(), AddStage::Create, Reply::Done(Ok(())));
    assert!(matches!(action, Action::Finish(Ok(()))));
}

#[test]
fn remove_and_add_target_the_same_directory() {
    let add = AddTag::new("photos".to_string(), None);
    let remove = RemoveTag::new("photos".to_string());
    assert_eq!(add.target(&data_dir()), remove.target(&data_dir()));
}

#[test]
fn remove_reports_io_failure() {
    let op = RemoveTag::new("a".to_string());
    let (stage, action) =
        op.step(&data_dir(), RemoveStage::Remove, Reply::Done(Err("Directory not empty".to_string())));
    assert_eq!(stage, RemoveStage::Done);
    match action {
        Action::Finish(Err(e)) => assert_eq!(e.message(), "IO Error: Directory not empty"),
        other => panic!("unexpected {:?}", other),
    }
}

#[test]
fn file_tag_missing_file_is_reported() {
    let mut fs = MemFs::new();
    let op = FileTag::new("/nowhere/x.txt".to_string(), vec!["a".to_string()], true);
    let r = run_file_tag(&op, &mut fs);
    assert_eq!(r.err().unwrap().message(), "File \"/nowhere/x.txt\" doesn't exist!");
    assert!(fs.dirs.len() == 3, "nothing was created");
}

#[test]
fn file_tag_missing_tag_is_reported_when_not_correcting() {
    let mut fs = MemFs::new();
    fs.files.insert("/home/f.txt".to_string());
    fs.dirs.insert(join(DATA_DIR, "a"));
    let op = FileTag::new("/home/f.txt".to_string(), vec!["a".to_string(), "b".to_string()], false);
    let r = run_file_tag(&op, &mut fs);
    assert_eq!(r.err().unwrap().message(), "Tag \"b\" doesn't exist");
    assert!(fs.links.is_empty(), "no link before every tag exists");
}

#[test]
fn file_tag_create_failure_names_the_tag_directory() {
    let op = FileTag::new("/home/f.txt".to_string(), vec!["a".to_string()], true);
    let (stage, action) = op.step(&data_dir(), FileTagStage::CreateTag(0), Reply::Done(Err("denied".to_string())));
    assert_eq!(stage, FileTagStage::Done);
    match action {
        Action::Finish(Err(e)) => assert_eq!(e.message(), "IO Error: denied on tag \"/data/tagger/a\""),
        other => panic!("unexpected {:?}", other),
    }
}

#[test]
fn file_tag_link_failure_is_an_io_error() {
    let mut fs = MemFs::new();
    fs.files.insert("/home/f.txt".to_string());
    fs.dirs.insert(join(DATA_DIR, "a"));
    fs.links.insert(join(&join(DATA_DIR, "a"), "f.txt"), "/old".to_string());
    let op = FileTag::new("/home/f.txt".to_string(), vec!["a".to_string()], false);
    let r = run_file_tag(&op, &mut fs);
    assert_eq!(r.err().unwrap().message(), "IO Error: File exists (os error 17)");
}

#[test]
fn file_tag_without_tags_succeeds() {
    let mut fs = MemFs::new();
    fs.files.insert("/home/f.txt".to_string());
    let op = FileTag::new("/home/f.txt".to_string(), vec![], false);
    assert!(run_file_tag(&op, &mut fs).is_ok());
}

#[test]
fn file_tag_links_point_to_the_file() {
    let op = FileTag::new("/home/f.txt".to_string(), vec!["a".to_string(), "b".to_string()], false);
    let (stage, action) = op.step(&data_dir(), FileTagStage::CheckTag(1), Reply::Answer(true));
    assert_eq!(stage, FileTagStage::Link(0));
    match action {
        Action::Symlink { original, link } => {
            assert_eq!(original, "/home/f.txt");
            assert_eq!(link, "/data/tagger/a/f.txt");
        },
        other => panic!("unexpected {:?}", other),
    }
    let (stage, action) = op.step(&data_dir(), FileTagStage::Link(1), Reply::Done(Ok(())));
    assert_eq!(stage, FileTagStage::Done);
    assert!(matches!(action, Action::Finish(Ok(()))));
}

#[test]
fn file_tag_without_file_name_cannot_link() {
    let op = FileTag::new("/".to_string(), vec!["a".to_string()], false);
    let (_, action) = op.step(&data_dir(), FileTagStage::CheckTag(0), Reply::Answer(true));
    assert!(matches!(action, Action::NoFileName));
}

#[test]
fn file_tag_accessors() {
    let op = FileTag::new("/p".to_string(), vec!["x".to_string()], true);
    assert_eq!(op.path(), "/p");
    assert_eq!(op.tags(), &vec!["x".to_string()]);
    assert!(op.correct());
}

#[test]
fn a_tagged_file_is_found_by_searching_its_tags() {
    let mut fs = MemFs::new();
    fs.files.insert("/home/notes.md".to_string());
    fs.files.insert("/home/other.md".to_string());
    let op = FileTag::new("/home/notes.md".to_string(), vec!["work".to_string(), "todo".to_string()], true);
    assert!(run_file_tag(&op, &mut fs).is_ok());
    let op = FileTag::new("/home/other.md".to_string(), vec!["work".to_string()], false);
    assert!(run_file_tag(&op, &mut fs).is_ok());
    let one = SearchTags::new(vec!["work".to_string()], None, None);
    assert_eq!(run_search(&one, &fs).unwrap(), vec!["work/notes.md".to_string(), "work/other.md".to_string()]);
    let both = SearchTags::new(vec!["work".to_string(), "todo".to_string()], None, None);
    assert_eq!(run_search(&both, &fs).unwrap(), vec!["work/notes.md".to_string()]);
    let missing = SearchTags::new(vec!["work".to_string(), "nope".to_string()], None, None);
    assert_eq!(run_search(&missing, &fs).unwrap_err().message(), "Tag \"nope\" does not exist.");
}
