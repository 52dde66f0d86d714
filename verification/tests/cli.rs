use tagger::add::AddTag;
use tagger::operation::{Invocation, Operation};
use tagger::remove::RemoveTag;
use tagger::search::SearchTags;

fn s(x: &str) -> String {
    x.to_string()
}

#[test]
fn search_takes_tags_and_name_filter() {
    let op = Operation::from_invocation(Invocation::Search {
        tags: Some(vec![s("a"), s("b")]),
        extension: None,
        name: Some(s("snap")),
    })
    .unwrap();
    assert_eq!(op, Operation::Search(SearchTags::new(vec![s("a"), s("b")], None, Some(s("snap")))));
}

#[test]
fn search_takes_the_extension_filter() {
    let op = Operation::from_invocation(Invocation::Search {
        tags: None,
        extension: Some(s("md")),
        name: None,
    })
    .unwrap();
    assert_eq!(op, Operation::Search(SearchTags::new(vec![], Some(s("md")), None)));
    let op = Operation::from_invocation(Invocation::Search {
        tags: Some(vec![s("a")]),
        extension: Some(s("md")),
        name: Some(s("x")),
    })
    .unwrap();
    assert_eq!(op, Operation::Search(SearchTags::new(vec![s("a")], Some(s("md")), Some(s("x")))));
}

#[test]
fn add_takes_name_and_parent() {
    let op = Operation::from_invocation(Invocation::Add { name: Some(s("child")), parent: Some(s("p")) })
        .unwrap();
    assert_eq!(op, Operation::Add(AddTag::new(s("child"), Some(s("p")))));
    let op = Operation::from_invocation(Invocation::Add { name: Some(s("t")), parent: None }).unwrap();
    assert_eq!(op, Operation::Add(AddTag::new(s("t"), None)));
}

#[test]
fn add_without_name_is_an_error() {
    let e = Operation::from_invocation(Invocation::Add { name: None, parent: Some(s("p")) }).unwrap_err();
    assert_eq!(e.message(), "'add' operation requires a name.");
}

#[test]
fn remove_takes_name() {
    let op = Operation::from_invocation(Invocation::Remove { name: Some(s("t")) }).unwrap();
    assert_eq!(op, Operation::Remove(RemoveTag::new(s("t"))));
    let e = Operation::from_invocation(Invocation::Remove { name: None }).unwrap_err();
    assert_eq!(e.message(), "'remove' operation requires a tag name to remove.");
}

#[test]
fn tag_needs_file_and_tags() {
    let op = Operation::from_invocation(Invocation::Tag {
        file: Some(s("/f")),
        tags: Some(vec![s("x"), s("y")]),
        correct: true,
    })
    .unwrap();
    match op {
        Operation::Tag(t) => {
            assert_eq!(t.path(), "/f");
            assert_eq!(t.tags(), &vec![s("x"), s("y")]);
            assert!(t.correct());
        },
        other => panic!("unexpected {:?}", other),
    }
    let e = Operation::from_invocation(Invocation::Tag { file: Some(s("/f")), tags: None, correct: false })
        .unwrap_err();
    assert_eq!(e.message(), "You must use at least one tag!");
    let e = Operation::from_invocation(Invocation::Tag { file: None, tags: None, correct: false }).unwrap_err();
    assert_eq!(e.message(), "You need to specify a path for the file to tag!");
}
