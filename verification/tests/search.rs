use tagger::path::{contains_substring, file_extension};
use tagger::search::{Entry, SearchTags};

fn name_of(p: &str) -> String {
    p.rsplit('/').next().unwrap().to_string()
}

fn link(p: &str) -> Entry {
    Entry::new(p.to_string(), name_of(p), true)
}

fn plain(p: &str) -> Entry {
    Entry::new(p.to_string(), name_of(p), false)
}

fn strings(v: &[&str]) -> Vec<String> {
    v.iter().map(|s| s.to_string()).collect()
}

#[test]
fn check_tags_reports_the_first_missing_tag() {
    let s = SearchTags::new(strings(&["a", "b", "c"]), None, None);
    assert!(s.check_tags(&vec![true, true, true]).is_ok());
    let e = s.check_tags(&vec![true, false, false]).unwrap_err();
    assert_eq!(e.message(), "Tag \"b\" does not exist.");
    let e = s.check_tags(&vec![false, true, false]).unwrap_err();
    assert_eq!(e.message(), "Tag \"a\" does not exist.");
}

#[test]
fn check_tags_quotes_and_escapes_the_tag() {
    let s = SearchTags::new(strings(&["say \"hi\""]), None, None);
    let e = s.check_tags(&vec![false]).unwrap_err();
    assert_eq!(e.message(), "Tag \"say \\\"hi\\\"\" does not exist.");
}

#[test]
fn select_keeps_only_symlinks() {
    let s = SearchTags::new(strings(&["t"]), None, None);
    let listings = vec![vec![link("/d/t/a.txt"), plain("/d/t/b.txt"), link("/d/t/c.txt")]];
    assert_eq!(s.select(&listings), strings(&["/d/t/a.txt", "/d/t/c.txt"]));
}

#[test]
fn select_extension_filter_follows_the_std_rule() {
    let listings = vec![vec![
        link("/d/t/archive.tar.gz"),
        link("/d/t/.gz"),
        link("/d/t/noext"),
        link("/d/t/dot."),
        link("/d/t/x.gz"),
    ]];
    let s = SearchTags::new(strings(&["t"]), Some("gz".to_string()), None);
    assert_eq!(s.select(&listings), strings(&["/d/t/archive.tar.gz", "/d/t/x.gz"]));
    let s = SearchTags::new(strings(&["t"]), Some("".to_string()), None);
    assert_eq!(s.select(&listings), strings(&["/d/t/dot."]));
}

#[test]
fn select_name_filter_looks_in_the_file_name_only() {
    let listings = vec![vec![link("/d/tag1/photo.jpg"), link("/d/tag1/my1.jpg")]];
    let s = SearchTags::new(strings(&["tag1"]), None, Some("1".to_string()));
    assert_eq!(s.select(&listings), strings(&["/d/tag1/my1.jpg"]));
    let s = SearchTags::new(strings(&["tag1"]), None, Some("".to_string()));
    assert_eq!(s.select(&listings).len(), 2);
}

#[test]
fn select_takes_the_last_of_the_fullest_listings() {
    let s = SearchTags::new(strings(&["a", "b", "c"]), None, None);
    let listings = vec![
        vec![link("/d/a/1")],
        vec![link("/d/b/1"), link("/d/b/2")],
        vec![link("/d/c/2"), link("/d/c/1")],
    ];
    // A file must carry every tag: "2" is not in the first.
    assert_eq!(s.select(&listings), strings(&["/d/c/1"]));
    let listings = vec![vec![link("/d/a/1"), link("/d/a/2")], vec![link("/d/b/2"), link("/d/b/1")]];
    assert_eq!(s.select(&listings), strings(&["/d/b/2", "/d/b/1"]));
}

#[test]
fn select_finds_the_files_that_carry_every_tag() {
    let s = SearchTags::new(strings(&["a", "b"]), None, None);
    let listings = vec![
        vec![link("/d/a/x.txt"), link("/d/a/y.txt")],
        vec![link("/d/b/x.txt")],
    ];
    assert_eq!(s.select(&listings), strings(&["/d/a/x.txt"]));
    let listings = vec![vec![link("/d/a/y.txt")], vec![link("/d/b/x.txt")]];
    assert!(s.select(&listings).is_empty());
}

#[test]
fn select_needs_a_link_in_every_tag() {
    let s = SearchTags::new(strings(&["a", "b"]), None, None);
    // "b" holds a plain file and a child-tag directory named like the links in "a".
    let listings = vec![
        vec![link("/d/a/x.txt"), link("/d/a/sub")],
        vec![plain("/d/b/x.txt"), plain("/d/b/sub")],
    ];
    assert!(s.select(&listings).is_empty());
    let listings = vec![
        vec![link("/d/a/x.txt"), link("/d/a/sub")],
        vec![plain("/d/b/x.txt"), link("/d/b/sub")],
    ];
    // Both listings are as long, so the last one is searched.
    assert_eq!(s.select(&listings), strings(&["/d/b/sub"]));
}

#[test]
fn tag_dirs_join_the_data_directory() {
    let s = SearchTags::new(strings(&["a", "b/c", "/abs"]), None, None);
    assert_eq!(s.tag_dirs(&"/d".to_string()), strings(&["/d/a", "/d/b/c", "/abs"]));
}

#[test]
fn filters_only_narrow() {
    let listings = vec![vec![link("/d/t/a.md"), link("/d/t/b.txt"), link("/d/t/ab.md")]];
    let all = SearchTags::new(strings(&["t"]), None, None).select(&listings);
    let some = SearchTags::new(strings(&["t"]), Some("md".to_string()), Some("b".to_string()))
        .select(&listings);
    assert_eq!(all.len(), 3);
    assert_eq!(some, strings(&["/d/t/ab.md"]));
    assert!(some.iter().all(|p| all.contains(p)));
}

#[test]
fn relative_to_strips_the_data_directory() {
    let r = SearchTags::relative_to(&strings(&["/d/t/a", "/d/u/b"]), &"/d".to_string());
    assert_eq!(r, Some(strings(&["t/a", "u/b"])));
    let r = SearchTags::relative_to(&strings(&["/d/t/a", "/e/b"]), &"/d".to_string());
    assert_eq!(r, None);
    let r = SearchTags::relative_to(&strings(&["/dd/t"]), &"/d".to_string());
    assert_eq!(r, None);
    assert_eq!(SearchTags::relative_to(&vec![], &"/d".to_string()), Some(vec![]));
}

#[test]
fn report_names_each_found_file() {
    let lines = SearchTags::report(&strings(&["search_tag/file1.txt", "search_tag/file2.md", "/"]));
    assert_eq!(lines, strings(&["Found entry: file1.txt", "Found entry: file2.md"]));
}

#[test]
fn add_tag_appends() {
    let mut s = SearchTags::default();
    assert!(s.tags.is_empty() && s.extension.is_none() && s.name_snippet.is_none());
    s.add_tag(&"a".to_string());
    s.add_tag(&"b".to_string());
    assert_eq!(s.tags, strings(&["a", "b"]));
}

#[test]
fn contains_substring_cases() {
    let s = |x: &str| x.to_string();
    assert!(contains_substring(&s("file1.txt"), &s("1")));
    assert!(contains_substring(&s("file1.txt"), &s("")));
    assert!(contains_substring(&s("abc"), &s("abc")));
    assert!(!contains_substring(&s("abc"), &s("abcd")));
    assert!(!contains_substring(&s("abc"), &s("ac")));
    assert!(contains_substring(&s("héllo"), &s("éll")));
    assert!(!contains_substring(&s(""), &s("a")));
}

#[test]
fn file_extension_cases() {
    let e = |p: &str| file_extension(&p.to_string());
    assert_eq!(e("/d/archive.tar.gz"), Some("gz".to_string()));
    assert_eq!(e("/d/.bashrc"), None);
    assert_eq!(e("/d/noext"), None);
    assert_eq!(e("/d/dot."), Some("".to_string()));
    assert_eq!(e("/d/.a.b"), Some("b".to_string()));
    assert_eq!(e("/"), None);
    assert_eq!(e("/d/.."), None);
    assert_eq!(e("/d/été.ñ"), Some("ñ".to_string()));
}
