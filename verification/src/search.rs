//! Searching the files that carry tags.
//!
//! A tag is a directory of the data directory, and a file carries the tag when a symbolic
//! link to it sits in that directory. A search names some tags and, optionally, an extension
//! and a piece of the file name. It first checks that every tag exists; then, from the
//! listings of the tags' directories, it takes the fullest one and keeps, in their order,
//! its symbolic links that pass the filters and whose name every listing holds: the files
//! that carry all the tags. The results are given relative to the data directory.
use vstd::prelude::*;
use crate::error::TagError;
use crate::path::{
    contains_substring, file_extension, has_substring, path_debug, path_extension, path_file_name,
    path_join, path_strip_prefix, spec_path_debug, spec_path_file_name, spec_path_join,
    spec_path_strip_prefix,
};

verus! {

/// A search: files that carry all of `tags`, filtered by `extension` and `name_snippet`.
#[derive(Debug, PartialEq, Eq)]
pub struct SearchTags {
    pub tags: Vec<String>,
    pub extension: Option<String>,
    pub name_snippet: Option<String>,
}

/// One item of a tag directory's listing: its path, its name within the directory, and
/// whether it is a symbolic link.
#[derive(Debug, PartialEq, Eq)]
pub struct Entry {
    pub path: String,
    pub name: String,
    pub is_symlink: bool,
}

/// An item of a listing, with its texts as sequences of characters.
pub struct EntryView {
    pub path: Seq<char>,
    pub name: Seq<char>,
    pub is_symlink: bool,
}

impl DeepView for Entry {
    type V = EntryView;

    open spec fn deep_view(&self) -> EntryView {
        EntryView { path: self.path@, name: self.name@, is_symlink: self.is_symlink }
    }
}

impl Entry {
    /// The item `name` of a directory, at `path`, a symbolic link or not.
    pub fn new(path: String, name: String, is_symlink: bool) -> (r: Self)
        ensures
            r.path == path,
            r.name == name,
            r.is_symlink == is_symlink,
    {
        Entry { path, name, is_symlink }
    }
}

/// The message when a tag of a search does not exist.
pub open spec fn missing_tag_text(tag: Seq<char>) -> Seq<char> {
    "Tag "@ + spec_path_debug(tag) + " does not exist."@
}

/// `i` is the first position of `present` that holds `false`.
pub open spec fn is_first_missing(present: Seq<bool>, i: int) -> bool {
    &&& 0 <= i < present.len()
    &&& !present[i]
    &&& forall|j: int| 0 <= j < i ==> present[j]
}

/// Whether a path passes the extension filter: with no filter every path passes; with one,
/// the path's extension must be the filter.
pub open spec fn extension_ok(filter: Option<Seq<char>>, path: Seq<char>) -> bool {
    match filter {
        None => true,
        Some(x) => path_extension(path) == Some(x),
    }
}

/// Whether a path passes the name filter: with no filter every path passes; with one, the
/// path's file name must contain the filter.
pub open spec fn snippet_ok(filter: Option<Seq<char>>, path: Seq<char>) -> bool {
    match filter {
        None => true,
        Some(p) => match spec_path_file_name(path) {
            Some(name) => has_substring(name, p),
            None => false,
        },
    }
}

/// Whether `listing` holds a symbolic link named `name`.
pub open spec fn in_listing(listing: Seq<EntryView>, name: Seq<char>) -> bool {
    exists|i: int|
        0 <= i < listing.len() && (#[trigger] listing[i]).name == name && listing[i].is_symlink
}

/// Whether every listing holds a symbolic link named `name`: the file of that name carries
/// every tag.
pub open spec fn in_every(listings: Seq<Seq<EntryView>>, name: Seq<char>) -> bool {
    forall|j: int| 0 <= j < listings.len() ==> in_listing(#[trigger] listings[j], name)
}

/// Whether an item passes a search's filters: a symbolic link with the wanted extension and
/// the wanted piece in its file name.
pub open spec fn passes_filters(extension: Option<Seq<char>>, snippet: Option<Seq<char>>) -> spec_fn(
    EntryView,
) -> bool {
    |e: EntryView| e.is_symlink && extension_ok(extension, e.path) && snippet_ok(snippet, e.path)
}

/// Whether a search keeps the item `e`: it passes the filters and every listing holds a
/// symbolic link of its name.
pub open spec fn wanted(
    listings: Seq<Seq<EntryView>>,
    extension: Option<Seq<char>>,
    snippet: Option<Seq<char>>,
    e: EntryView,
) -> bool {
    &&& e.is_symlink
    &&& extension_ok(extension, e.path)
    &&& snippet_ok(snippet, e.path)
    &&& in_every(listings, e.name)
}

/// `wanted`, as a predicate on items.
pub open spec fn wanted_by(
    listings: Seq<Seq<EntryView>>,
    extension: Option<Seq<char>>,
    snippet: Option<Seq<char>>,
) -> spec_fn(EntryView) -> bool {
    |e: EntryView| wanted(listings, extension, snippet, e)
}

/// The paths of the items of `entries` that `keep` holds of, in their order.
pub open spec fn kept(entries: Seq<EntryView>, keep: spec_fn(EntryView) -> bool) -> Seq<Seq<char>>
    decreases entries.len(),
{
    if entries.len() == 0 {
        Seq::empty()
    } else {
        let before = kept(entries.drop_last(), keep);
        if keep(entries.last()) {
            before.push(entries.last().path)
        } else {
            before
        }
    }
}

/// `k` is the fullest listing: none has more items, and none after it has as many.
pub open spec fn is_fullest(listings: Seq<Seq<EntryView>>, k: int) -> bool {
    &&& 0 <= k < listings.len()
    &&& forall|j: int| 0 <= j < listings.len() ==> #[trigger] listings[j].len() <= listings[k].len()
    &&& forall|j: int| k < j < listings.len() ==> #[trigger] listings[j].len() < listings[k].len()
}

/// The fullest listing's position (the last of the longest ones).
pub open spec fn fullest(listings: Seq<Seq<EntryView>>) -> int {
    choose|k: int| is_fullest(listings, k)
}

/// What a search finds in the listings of its tags' directories: the kept paths of the
/// fullest listing.
pub open spec fn search_result(
    listings: Seq<Seq<EntryView>>,
    extension: Option<Seq<char>>,
    snippet: Option<Seq<char>>,
) -> Seq<Seq<char>> {
    kept(listings[fullest(listings)], wanted_by(listings, extension, snippet))
}

/// Each path with the data directory `base` taken off its front; `None` when that fails for
/// some path.
pub open spec fn strip_all(paths: Seq<Seq<char>>, base: Seq<char>) -> Option<Seq<Seq<char>>> {
    if forall|i: int| 0 <= i < paths.len() ==> (#[trigger] spec_path_strip_prefix(paths[i], base)) is Some {
        Some(Seq::new(paths.len(), |i: int| spec_path_strip_prefix(paths[i], base)->0))
    } else {
        None
    }
}

/// The lines that report found files: `Found entry: ` and the file name of each path that
/// has one, in order.
pub open spec fn found_lines(paths: Seq<Seq<char>>) -> Seq<Seq<char>>
    decreases paths.len(),
{
    if paths.len() == 0 {
        Seq::empty()
    } else {
        let before = found_lines(paths.drop_last());
        match spec_path_file_name(paths.last()) {
            Some(name) => before.push("Found entry: "@ + name),
            None => before,
        }
    }
}

/// There is only one fullest listing.
pub proof fn lemma_fullest_unique(listings: Seq<Seq<EntryView>>, k1: int, k2: int)
    requires
        is_fullest(listings, k1),
        is_fullest(listings, k2),
    ensures
        k1 == k2,
{
    if k1 < k2 {
        assert(listings[k2].len() < listings[k1].len());
        assert(listings[k2].len() <= listings[k1].len());
        assert(listings[k1].len() <= listings[k2].len());
    } else if k2 < k1 {
        assert(listings[k1].len() < listings[k2].len());
        assert(listings[k2].len() <= listings[k1].len());
    }
}

/// `a` is `b` with some items left out, the rest in their order.
pub open spec fn is_subsequence(a: Seq<Seq<char>>, b: Seq<Seq<char>>) -> bool
    decreases b.len(),
{
    if a.len() == 0 {
        true
    } else if b.len() == 0 {
        false
    } else if a.last() == b.last() {
        is_subsequence(a.drop_last(), b.drop_last()) || is_subsequence(a, b.drop_last())
    } else {
        is_subsequence(a, b.drop_last())
    }
}

/// Keeping fewer items keeps a subsequence: where `keep2` holds of every item that `keep1`
/// holds of, what `keep1` keeps of `entries` is a subsequence of what `keep2` keeps.
pub proof fn lemma_kept_narrows(
    entries: Seq<EntryView>,
    keep1: spec_fn(EntryView) -> bool,
    keep2: spec_fn(EntryView) -> bool,
)
    requires
        forall|e: EntryView| #[trigger] keep1(e) ==> keep2(e),
    ensures
        is_subsequence(kept(entries, keep1), kept(entries, keep2)),
    decreases entries.len(),
{
    if entries.len() > 0 {
        let rest = entries.drop_last();
        let x = entries.last();
        let a = kept(rest, keep1);
        let b = kept(rest, keep2);
        lemma_kept_narrows(rest, keep1, keep2);
        if keep1(x) {
            assert(a.push(x.path).drop_last() =~= a);
            assert(b.push(x.path).drop_last() =~= b);
        } else if keep2(x) {
            assert(b.push(x.path).drop_last() =~= b);
        }
    }
}

/// Two predicates that agree on every item of `entries` keep the same paths.
pub proof fn lemma_kept_agree(
    entries: Seq<EntryView>,
    keep1: spec_fn(EntryView) -> bool,
    keep2: spec_fn(EntryView) -> bool,
)
    requires
        forall|i: int| 0 <= i < entries.len() ==> keep1(#[trigger] entries[i]) == keep2(entries[i]),
    ensures
        kept(entries, keep1) == kept(entries, keep2),
    decreases entries.len(),
{
    if entries.len() > 0 {
        let rest = entries.drop_last();
        assert forall|i: int| 0 <= i < rest.len() implies keep1(#[trigger] rest[i]) == keep2(
            rest[i],
        ) by {
            assert(rest[i] == entries[i]);
        }
        lemma_kept_agree(rest, keep1, keep2);
        assert(entries.last() == entries[entries.len() - 1]);
    }
}

/// Some item of `entries` has the path `path`, and `keep` holds of it.
pub open spec fn kept_from(
    entries: Seq<EntryView>,
    keep: spec_fn(EntryView) -> bool,
    path: Seq<char>,
) -> bool {
    exists|j: int| 0 <= j < entries.len() && (#[trigger] entries[j]).path == path && keep(entries[j])
}

/// Every path that `keep` keeps of `entries` is the path of one of them that it holds of.
pub proof fn lemma_kept_from(entries: Seq<EntryView>, keep: spec_fn(EntryView) -> bool)
    ensures
        forall|i: int|
            0 <= i < kept(entries, keep).len() ==> kept_from(
                entries,
                keep,
                #[trigger] kept(entries, keep)[i],
            ),
    decreases entries.len(),
{
    if entries.len() > 0 {
        let rest = entries.drop_last();
        lemma_kept_from(rest, keep);
        let k = kept(entries, keep);
        let a = kept(rest, keep);
        assert forall|i: int| 0 <= i < k.len() implies kept_from(entries, keep, #[trigger] k[i]) by {
            if i < a.len() {
                assert(k[i] == a[i]);
                assert(kept_from(rest, keep, a[i]));
                let j = choose|j: int|
                    0 <= j < rest.len() && (#[trigger] rest[j]).path == a[i] && keep(rest[j]);
                assert(entries[j] == rest[j]);
            } else {
                assert(entries[entries.len() - 1] == entries.last());
            }
        }
    }
}

/// A filter only narrows a search: the results of a search with an extension filter, a
/// name filter or both are a subsequence of the results of the same search without them.
pub proof fn lemma_filters_narrow(
    listings: Seq<Seq<EntryView>>,
    extension: Option<Seq<char>>,
    snippet: Option<Seq<char>>,
)
    ensures
        is_subsequence(
            search_result(listings, extension, snippet),
            search_result(listings, None, None),
        ),
{
    let keep1 = wanted_by(listings, extension, snippet);
    let keep2 = wanted_by(listings, None, None);
    assert forall|e: EntryView| #[trigger] keep1(e) implies keep2(e) by {}
    lemma_kept_narrows(listings[fullest(listings)], keep1, keep2);
}

/// What a search finds is what it asks for: every result is the path of an item of the
/// fullest listing that is a symbolic link, has the wanted extension, has the wanted piece
/// in its file name, and whose name every listing of the search's tags holds as a symbolic link.
pub proof fn lemma_results_are_wanted(
    listings: Seq<Seq<EntryView>>,
    extension: Option<Seq<char>>,
    snippet: Option<Seq<char>>,
)
    ensures
        forall|i: int|
            0 <= i < search_result(listings, extension, snippet).len() ==> kept_from(
                listings[fullest(listings)],
                wanted_by(listings, extension, snippet),
                #[trigger] search_result(listings, extension, snippet)[i],
            ),
{
    lemma_kept_from(listings[fullest(listings)], wanted_by(listings, extension, snippet));
}

/// A search for one tag lists, in order, every symbolic link of that tag's directory that
/// passes the filters.
pub proof fn lemma_single_tag(
    listings: Seq<Seq<EntryView>>,
    extension: Option<Seq<char>>,
    snippet: Option<Seq<char>>,
)
    requires
        listings.len() == 1,
    ensures
        search_result(listings, extension, snippet) == kept(
            listings[0],
            passes_filters(extension, snippet),
        ),
{
    assert(is_fullest(listings, 0));
    lemma_fullest_unique(listings, 0, fullest(listings));
    let es = listings[0];
    assert forall|i: int| 0 <= i < es.len() implies wanted_by(listings, extension, snippet)(
        #[trigger] es[i],
    ) == passes_filters(extension, snippet)(es[i]) by {
        if es[i].is_symlink {
            assert(in_listing(listings[0], es[i].name));
            assert forall|j: int| 0 <= j < listings.len() implies in_listing(
                #[trigger] listings[j],
                es[i].name,
            ) by {
                assert(j == 0);
            }
        }
    }
    lemma_kept_agree(es, wanted_by(listings, extension, snippet), passes_filters(extension, snippet));
}

/// Whether `listing` holds a symbolic link named `name` (the file of that name carries the
/// listing's tag).
pub open spec fn holds_link_named(listing: Seq<EntryView>, name: Seq<char>) -> bool {
    exists|k: int| 0 <= k < listing.len() && (#[trigger] listing[k]).is_symlink && listing[k].name == name
}

/// Whether a path's extension and file name pass a search's filters.
pub open spec fn filters_hold(
    extension: Option<Seq<char>>,
    snippet: Option<Seq<char>>,
    path: Seq<char>,
) -> bool {
    &&& (extension matches Some(x) ==> path_extension(path) == Some(x))
    &&& (snippet matches Some(p) ==> spec_path_file_name(path) matches Some(n) && has_substring(n, p))
}

/// Whether `path` is the path of a symbolic link in one of `listings` that passes the
/// filters, and of whose name every listing holds a symbolic link.
pub open spec fn carries_every_tag(
    listings: Seq<Seq<EntryView>>,
    extension: Option<Seq<char>>,
    snippet: Option<Seq<char>>,
    path: Seq<char>,
) -> bool {
    exists|f: int, i: int|
        #![trigger listings[f][i]]
        {
            &&& 0 <= f < listings.len()
            &&& 0 <= i < listings[f].len()
            &&& listings[f][i].path == path
            &&& listings[f][i].is_symlink
            &&& filters_hold(extension, snippet, path)
            &&& forall|j: int|
                0 <= j < listings.len() ==> holds_link_named(#[trigger] listings[j], listings[f][i].name)
        }
}

/// Every file that a search returns carries every searched tag and passes the filters: each
/// result is the path of a symbolic link of one of the listings, whose extension and file
/// name pass the filters, and every listing holds a symbolic link of the same name.
pub proof fn lemma_results_carry_every_tag(
    listings: Seq<Seq<EntryView>>,
    extension: Option<Seq<char>>,
    snippet: Option<Seq<char>>,
)
    requires
        listings.len() > 0,
    ensures
        forall|r: int|
            0 <= r < search_result(listings, extension, snippet).len() ==> carries_every_tag(
                listings,
                extension,
                snippet,
                #[trigger] search_result(listings, extension, snippet)[r],
            ),
{
    let f = fullest(listings);
    lemma_a_fullest_exists(listings);
    assert(is_fullest(listings, f));
    lemma_results_are_wanted(listings, extension, snippet);
    let res = search_result(listings, extension, snippet);
    assert forall|r: int| 0 <= r < res.len() implies carries_every_tag(
        listings,
        extension,
        snippet,
        #[trigger] res[r],
    ) by {
        assert(kept_from(listings[f], wanted_by(listings, extension, snippet), res[r]));
        let i = choose|i: int|
            0 <= i < listings[f].len() && (#[trigger] listings[f][i]).path == res[r] && wanted_by(
                listings,
                extension,
                snippet,
            )(listings[f][i]);
        let e = listings[f][i];
        assert(wanted(listings, extension, snippet, e));
        assert forall|j: int| 0 <= j < listings.len() implies holds_link_named(
            #[trigger] listings[j],
            e.name,
        ) by {
            assert(in_listing(listings[j], e.name));
            let k = choose|k: int|
                0 <= k < listings[j].len() && (#[trigger] listings[j][k]).name == e.name
                    && listings[j][k].is_symlink;
            assert(listings[j][k].is_symlink);
        }
        assert(filters_hold(extension, snippet, e.path));
    }
}

/// A search takes its results from the last of the longest listings: there is a listing
/// that no listing is longer than and every later listing is shorter than, and every result
/// is the path of one of its items.
pub proof fn lemma_results_from_last_longest(
    listings: Seq<Seq<EntryView>>,
    extension: Option<Seq<char>>,
    snippet: Option<Seq<char>>,
)
    requires
        listings.len() > 0,
    ensures
        exists|f: int|
            #![trigger listings[f]]
            0 <= f < listings.len() && (forall|j: int|
                0 <= j < listings.len() ==> #[trigger] listings[j].len() <= listings[f].len()) && (
            forall|j: int| f < j < listings.len() ==> #[trigger] listings[j].len() < listings[f].len())
                && forall|r: int|
                #![trigger search_result(listings, extension, snippet)[r]]
                0 <= r < search_result(listings, extension, snippet).len() ==> exists|i: int|
                    0 <= i < listings[f].len() && (#[trigger] listings[f][i]).path == search_result(
                        listings,
                        extension,
                        snippet,
                    )[r],
{
    let f = fullest(listings);
    lemma_a_fullest_exists(listings);
    assert(is_fullest(listings, f));
    lemma_results_are_wanted(listings, extension, snippet);
    let res = search_result(listings, extension, snippet);
    assert forall|r: int| #![trigger res[r]] 0 <= r < res.len() implies exists|i: int|
        0 <= i < listings[f].len() && (#[trigger] listings[f][i]).path == res[r] by {
        assert(kept_from(listings[f], wanted_by(listings, extension, snippet), res[r]));
    }
    assert(listings[f] == listings[f]);
}

/// The listings always have a fullest one.
pub proof fn lemma_a_fullest_exists(listings: Seq<Seq<EntryView>>)
    requires
        listings.len() > 0,
    ensures
        exists|k: int| is_fullest(listings, k),
    decreases listings.len(),
{
    if listings.len() == 1 {
        assert(is_fullest(listings, 0));
    } else {
        let rest = listings.drop_last();
        lemma_a_fullest_exists(rest);
        let k = choose|k: int| is_fullest(rest, k);
        let last = listings.len() - 1;
        if listings[last].len() >= listings[k].len() {
            assert(is_fullest(listings, last)) by {
                assert forall|j: int| 0 <= j < listings.len() implies #[trigger] listings[j].len()
                    <= listings[last].len() by {
                    if j < last {
                        assert(rest[j] == listings[j]);
                    }
                }
            }
        } else {
            assert(is_fullest(listings, k)) by {
                assert forall|j: int| 0 <= j < listings.len() implies #[trigger] listings[j].len()
                    <= listings[k].len() by {
                    if j < last {
                        assert(rest[j] == listings[j]);
                    }
                }
                assert forall|j: int| k < j < listings.len() implies #[trigger] listings[j].len()
                    < listings[k].len() by {
                    if j < last {
                        assert(rest[j] == listings[j]);
                    }
                }
            }
        }
    }
}

/// A search returns every file of its fullest listing that carries every searched tag and
/// passes the filters: a symbolic link there whose extension and file name pass the filters,
/// and of whose name every listing holds a symbolic link, has its path among the results.
pub proof fn lemma_carrying_files_are_found(
    listings: Seq<Seq<EntryView>>,
    extension: Option<Seq<char>>,
    snippet: Option<Seq<char>>,
    i: int,
)
    requires
        listings.len() > 0,
        0 <= i < listings[fullest(listings)].len(),
        listings[fullest(listings)][i].is_symlink,
        filters_hold(extension, snippet, listings[fullest(listings)][i].path),
        forall|j: int|
            0 <= j < listings.len() ==> holds_link_named(
                #[trigger] listings[j],
                listings[fullest(listings)][i].name,
            ),
    ensures
        search_result(listings, extension, snippet).contains(listings[fullest(listings)][i].path),
{
    let f = fullest(listings);
    let e = listings[f][i];
    assert forall|j: int| 0 <= j < listings.len() implies in_listing(#[trigger] listings[j], e.name) by {
        assert(holds_link_named(listings[j], e.name));
        let k = choose|k: int|
            0 <= k < listings[j].len() && (#[trigger] listings[j][k]).is_symlink && listings[j][k].name
                == e.name;
        assert(listings[j][k].name == e.name);
    }
    assert(wanted_by(listings, extension, snippet)(e));
    lemma_kept_has(listings[f], wanted_by(listings, extension, snippet), i);
}

/// The paths of `paths` that `q` holds of, in their order.
pub open spec fn paths_where(paths: Seq<Seq<char>>, q: spec_fn(Seq<char>) -> bool) -> Seq<Seq<char>>
    decreases paths.len(),
{
    if paths.len() == 0 {
        Seq::empty()
    } else {
        let before = paths_where(paths.drop_last(), q);
        if q(paths.last()) {
            before.push(paths.last())
        } else {
            before
        }
    }
}

/// Whether a path's extension is `x`.
pub open spec fn has_extension(x: Seq<char>) -> spec_fn(Seq<char>) -> bool {
    |p: Seq<char>| path_extension(p) == Some(x)
}

/// Whether a path's file name holds `piece`.
pub open spec fn name_holds(piece: Seq<char>) -> spec_fn(Seq<char>) -> bool {
    |p: Seq<char>| snippet_ok(Some(piece), p)
}

/// Keeping by a predicate that adds a condition on the path is keeping by the first and then
/// taking the paths that meet the condition.
pub proof fn lemma_kept_then_filtered(
    entries: Seq<EntryView>,
    keep1: spec_fn(EntryView) -> bool,
    keep2: spec_fn(EntryView) -> bool,
    q: spec_fn(Seq<char>) -> bool,
)
    requires
        forall|e: EntryView| #[trigger] keep2(e) == (keep1(e) && q(e.path)),
    ensures
        kept(entries, keep2) == paths_where(kept(entries, keep1), q),
    decreases entries.len(),
{
    if entries.len() > 0 {
        let rest = entries.drop_last();
        let x = entries.last();
        let a = kept(rest, keep1);
        lemma_kept_then_filtered(rest, keep1, keep2, q);
        assert(keep2(x) == (keep1(x) && q(x.path)));
        if keep1(x) {
            assert(a.push(x.path).drop_last() =~= a);
            assert(a.push(x.path).last() == x.path);
        }
    }
}

/// An extension filter keeps exactly the matching results: a search with the extension
/// filter `x` finds, in order, those results of the same search without it whose extension
/// is `x`.
pub proof fn lemma_extension_filter_exact(
    listings: Seq<Seq<EntryView>>,
    x: Seq<char>,
    snippet: Option<Seq<char>>,
)
    ensures
        search_result(listings, Some(x), snippet) == paths_where(
            search_result(listings, None, snippet),
            has_extension(x),
        ),
{
    let keep1 = wanted_by(listings, None, snippet);
    let keep2 = wanted_by(listings, Some(x), snippet);
    assert forall|e: EntryView| #[trigger] keep2(e) == (keep1(e) && has_extension(x)(e.path)) by {}
    lemma_kept_then_filtered(listings[fullest(listings)], keep1, keep2, has_extension(x));
}

/// A name filter keeps exactly the matching results: a search with the name filter `piece`
/// finds, in order, those results of the same search without it whose file name holds
/// `piece`.
pub proof fn lemma_name_filter_exact(
    listings: Seq<Seq<EntryView>>,
    extension: Option<Seq<char>>,
    piece: Seq<char>,
)
    ensures
        search_result(listings, extension, Some(piece)) == paths_where(
            search_result(listings, extension, None),
            name_holds(piece),
        ),
{
    let keep1 = wanted_by(listings, extension, None);
    let keep2 = wanted_by(listings, extension, Some(piece));
    assert forall|e: EntryView| #[trigger] keep2(e) == (keep1(e) && name_holds(piece)(e.path)) by {}
    lemma_kept_then_filtered(listings[fullest(listings)], keep1, keep2, name_holds(piece));
}

/// Every item that `keep` holds of has its path among those kept.
pub proof fn lemma_kept_has(entries: Seq<EntryView>, keep: spec_fn(EntryView) -> bool, j: int)
    requires
        0 <= j < entries.len(),
        keep(entries[j]),
    ensures
        kept(entries, keep).contains(entries[j].path),
    decreases entries.len(),
{
    let rest = entries.drop_last();
    let before = kept(rest, keep);
    if j == entries.len() - 1 {
        assert(entries.last() == entries[j]);
        assert(before.push(entries[j].path)[before.len() as int] == entries[j].path);
    } else {
        assert(rest[j] == entries[j]);
        lemma_kept_has(rest, keep, j);
        let k = choose|k: int| 0 <= k < before.len() && before[k] == entries[j].path;
        if keep(entries.last()) {
            assert(before.push(entries.last().path)[k] == entries[j].path);
        }
    }
}

/// A search for one tag without filters finds every symbolic link of that tag's directory.
pub proof fn lemma_single_tag_finds_links(listing: Seq<EntryView>, j: int)
    requires
        0 <= j < listing.len(),
        listing[j].is_symlink,
    ensures
        search_result(seq![listing], None, None).contains(listing[j].path),
{
    lemma_single_tag(seq![listing], None, None);
    assert(seq![listing][0] == listing);
    lemma_kept_has(listing, passes_filters(None, None), j);
}

impl SearchTags {
    /// A search for `tags`, with the given filters.
    pub fn new(tags: Vec<String>, extension: Option<String>, name_snippet: Option<String>) -> (r:
        Self)
        ensures
            r.tags == tags,
            r.extension == extension,
            r.name_snippet == name_snippet,
    {
        SearchTags { tags, extension, name_snippet }
    }

    /// Adds `tag` to the tags that the files must carry.
    pub fn add_tag(&mut self, tag: &String)
        ensures
            final(self).tags@ == old(self).tags@.push(*tag),
            final(self).extension == old(self).extension,
            final(self).name_snippet == old(self).name_snippet,
    {
        self.tags.push(tag.clone());
    }

    /// The directory of each tag: the data directory `data_dir` joined with the tag.
    pub open spec fn spec_tag_dirs(&self, data_dir: Seq<char>) -> Seq<Seq<char>> {
        Seq::new(self.tags@.len(), |i: int| spec_path_join(data_dir, self.tags@[i]@))
    }

    /// The directories of the search's tags, in the data directory `data_dir`, in order.
    pub fn tag_dirs(&self, data_dir: &String) -> (r: Vec<String>)
        ensures
            r.deep_view() == self.spec_tag_dirs(data_dir@),
    {
        let mut r: Vec<String> = Vec::new();
        let mut i: usize = 0;
        while i < self.tags.len()
            invariant
                i <= self.tags.len(),
                r.deep_view() =~= self.spec_tag_dirs(data_dir@).take(i as int),
            decreases self.tags.len() - i,
        {
            let ghost before = r.deep_view();
            r.push(path_join(data_dir.as_str(), self.tags[i].as_str()));
            assert(r.deep_view() =~= before.push(spec_path_join(data_dir@, self.tags@[i as int]@)));
            assert(self.spec_tag_dirs(data_dir@).take(i + 1) =~= self.spec_tag_dirs(data_dir@).take(
                i as int,
            ).push(spec_path_join(data_dir@, self.tags@[i as int]@)));
            i = i + 1;
        }
        assert(self.spec_tag_dirs(data_dir@).take(i as int) =~= self.spec_tag_dirs(data_dir@));
        r
    }

    /// Checks that every tag exists, where `present[i]` tells whether the directory of
    /// `tags[i]` (the `i`-th of `tag_dirs`) exists: the first tag that does not is reported.
    pub fn check_tags(&self, present: &Vec<bool>) -> (r: Result<(), TagError>)
        requires
            present.len() == self.tags.len(),
        ensures
            r is Ok <==> (forall|i: int| 0 <= i < present.len() ==> present@[i]),
            r matches Err(e) ==> exists|i: int|
                is_first_missing(present@, i) && e.error@ == missing_tag_text(self.tags@[i]@),
            r matches Err(e) ==> exists|i: int|
                0 <= i < present.len() && !present@[i] && (forall|j: int|
                    0 <= j < i ==> present@[j]) && e.error@ == "Tag "@ + spec_path_debug(
                    self.tags@[i]@,
                ) + " does not exist."@,
    {
        let n = present.len();
        let mut i: usize = 0;
        while i < n
            invariant
                n == present.len(),
                present.len() == self.tags.len(),
                i <= n,
                forall|j: int| 0 <= j < i ==> present@[j],
            decreases n - i,
        {
            if !present[i] {
                let shown = path_debug(self.tags[i].as_str());
                let msg = String::from_str("Tag ").concat(shown.as_str()).concat(" does not exist.");
                assert(is_first_missing(present@, i as int));
                return Err(TagError::new(msg));
            }
            i = i + 1;
        }
        Ok(())
    }

    /// What the search finds in `listings`, the listings of its tags' directories that could
    /// be read: the paths of the fullest listing's symbolic links that pass the filters and
    /// whose name every listing holds as a symbolic link (the files that carry every tag), in
    /// their order.
    pub fn select(&self, listings: &Vec<Vec<Entry>>) -> (r: Vec<String>)
        requires
            listings.len() > 0,
        ensures
            r.deep_view() == search_result(
                listings.deep_view(),
                self.extension.deep_view(),
                self.name_snippet.deep_view(),
            ),
    {
        let ghost ls = listings.deep_view();
        let ghost ext = self.extension.deep_view();
        let ghost snip = self.name_snippet.deep_view();
        let k = fullest_listing(listings);
        proof {
            lemma_fullest_unique(ls, k as int, fullest(ls));
        }
        let chosen = &listings[k];
        let ghost es = ls[k as int];
        assert(es =~= chosen.deep_view());
        let mut r: Vec<String> = Vec::new();
        let mut i: usize = 0;
        while i < chosen.len()
            invariant
                ls == listings.deep_view(),
                ext == self.extension.deep_view(),
                snip == self.name_snippet.deep_view(),
                es == chosen.deep_view(),
                i <= chosen.len(),
                r.deep_view() == kept(es.take(i as int), wanted_by(ls, ext, snip)),
            decreases chosen.len() - i,
        {
            let e = &chosen[i];
            assert(es.take(i + 1).drop_last() =~= es.take(i as int));
            assert(es.take(i + 1).last() == es[i as int]);
            assert(wanted_by(ls, ext, snip)(es[i as int]) == wanted(ls, ext, snip, es[i as int]));
            let keep = e.is_symlink && extension_matches(&self.extension, &e.path)
                && snippet_matches(&self.name_snippet, &e.path) && in_all_listings(
                listings,
                &e.name,
            );
            if keep {
                let ghost before = r.deep_view();
                r.push(e.path.clone());
                assert(r.deep_view() =~= before.push(e.path@));
            }
            i = i + 1;
        }
        assert(es.take(chosen.len() as int) =~= es);
        r
    }

    /// The results relative to the data directory `data_dir`: each path with `data_dir`
    /// taken off its front; `None` when some path does not lie under `data_dir`.
    pub fn relative_to(paths: &Vec<String>, data_dir: &String) -> (r: Option<Vec<String>>)
        ensures
            r.deep_view() == strip_all(paths.deep_view(), data_dir@),
            r matches Some(v) ==> v.len() == paths.len() && forall|i: int|
                0 <= i < paths.len() ==> spec_path_strip_prefix(paths@[i]@, data_dir@) == Some(
                    #[trigger] v@[i]@,
                ),
            r is None ==> exists|i: int|
                0 <= i < paths.len() && (#[trigger] spec_path_strip_prefix(paths@[i]@, data_dir@))
                    is None,
    {
        let ghost ps = paths.deep_view();
        let mut r: Vec<String> = Vec::new();
        let mut i: usize = 0;
        while i < paths.len()
            invariant
                ps == paths.deep_view(),
                i <= paths.len(),
                r.len() == i,
                forall|j: int|
                    0 <= j < i ==> spec_path_strip_prefix(ps[j], data_dir@) == Some(
                        #[trigger] r.deep_view()[j],
                    ),
            decreases paths.len() - i,
        {
            match path_strip_prefix(paths[i].as_str(), data_dir.as_str()) {
                Some(rel) => {
                    let ghost before = r.deep_view();
                    r.push(rel);
                    assert forall|j: int| 0 <= j < i + 1 implies spec_path_strip_prefix(
                        ps[j],
                        data_dir@,
                    ) == Some(#[trigger] r.deep_view()[j]) by {
                        if j < i {
                            assert(r.deep_view()[j] == before[j]);
                        }
                    }
                },
                None => {
                    assert(spec_path_strip_prefix(ps[i as int], data_dir@) is None);
                    return None;
                },
            }
            i = i + 1;
        }
        assert forall|j: int| 0 <= j < paths.len() implies spec_path_strip_prefix(
            paths@[j]@,
            data_dir@,
        ) == Some(#[trigger] r@[j]@) by {
            assert(ps[j] == paths@[j]@);
            assert(r.deep_view()[j] == r@[j]@);
        }
        assert forall|j: int| 0 <= j < ps.len() implies (#[trigger] spec_path_strip_prefix(
            ps[j],
            data_dir@,
        )) is Some by {
            assert(spec_path_strip_prefix(ps[j], data_dir@) == Some(r.deep_view()[j]));
        }
        assert(r.deep_view() =~= Seq::new(
            ps.len(),
            |j: int| spec_path_strip_prefix(ps[j], data_dir@)->0,
        ));
        Some(r)
    }

    /// The report of a search's results: one `Found entry: ` line for each result that has
    /// a file name, naming it.
    pub fn report(results: &Vec<String>) -> (r: Vec<String>)
        ensures
            r.deep_view() == found_lines(results.deep_view()),
    {
        let ghost ps = results.deep_view();
        let mut r: Vec<String> = Vec::new();
        let mut i: usize = 0;
        while i < results.len()
            invariant
                ps == results.deep_view(),
                i <= results.len(),
                r.deep_view() == found_lines(ps.take(i as int)),
            decreases results.len() - i,
        {
            assert(ps.take(i + 1).drop_last() =~= ps.take(i as int));
            match path_file_name(results[i].as_str()) {
                Some(name) => {
                    let ghost before = r.deep_view();
                    r.push(String::from_str("Found entry: ").concat(name.as_str()));
                    assert(r.deep_view() =~= before.push("Found entry: "@ + name@));
                },
                None => {},
            }
            i = i + 1;
        }
        assert(ps.take(results.len() as int) =~= ps);
        r
    }
}

impl Default for SearchTags {
    /// A search with no tags and no filters.
    fn default() -> (r: Self)
        ensures
            r.tags@.len() == 0,
            r.extension is None,
            r.name_snippet is None,
    {
        SearchTags { tags: Vec::new(), extension: None, name_snippet: None }
    }
}

/// The position of the fullest listing.
fn fullest_listing(listings: &Vec<Vec<Entry>>) -> (k: usize)
    requires
        listings.len() > 0,
    ensures
        is_fullest(listings.deep_view(), k as int),
{
    let ghost ls = listings.deep_view();
    let mut best: usize = 0;
    let mut j: usize = 1;
    while j < listings.len()
        invariant
            ls == listings.deep_view(),
            1 <= j <= listings.len(),
            best < j,
            forall|i: int| 0 <= i < j ==> #[trigger] ls[i].len() <= ls[best as int].len(),
            forall|i: int| best < i < j ==> #[trigger] ls[i].len() < ls[best as int].len(),
        decreases listings.len() - j,
    {
        assert(ls[j as int].len() == listings[j as int].len());
        assert(ls[best as int].len() == listings[best as int].len());
        if listings[j].len() >= listings[best].len() {
            best = j;
        }
        j = j + 1;
    }
    best
}

/// Whether `path` passes the extension filter `filter`.
fn extension_matches(filter: &Option<String>, path: &String) -> (r: bool)
    ensures
        r == extension_ok(filter.deep_view(), path@),
{
    match filter {
        None => true,
        Some(x) => match file_extension(path) {
            Some(given) => *x == given,
            None => false,
        },
    }
}

/// Whether `path` passes the name filter `filter`.
fn snippet_matches(filter: &Option<String>, path: &String) -> (r: bool)
    ensures
        r == snippet_ok(filter.deep_view(), path@),
{
    match filter {
        None => true,
        Some(p) => match path_file_name(path.as_str()) {
            Some(name) => contains_substring(&name, p),
            None => false,
        },
    }
}

/// Whether every listing holds a symbolic link named `name`.
fn in_all_listings(listings: &Vec<Vec<Entry>>, name: &String) -> (r: bool)
    ensures
        r == in_every(listings.deep_view(), name@),
{
    let ghost ls = listings.deep_view();
    let mut j: usize = 0;
    while j < listings.len()
        invariant
            ls == listings.deep_view(),
            j <= listings.len(),
            forall|t: int| 0 <= t < j ==> in_listing(#[trigger] ls[t], name@),
        decreases listings.len() - j,
    {
        let listing = &listings[j];
        let ghost l = ls[j as int];
        assert(l =~= listing.deep_view());
        let mut i: usize = 0;
        let mut found = false;
        while i < listing.len()
            invariant
                l == listing.deep_view(),
                i <= listing.len(),
                found == exists|t: int|
                    0 <= t < i && (#[trigger] l[t]).name == name@ && l[t].is_symlink,
            decreases listing.len() - i,
        {
            let same = listing[i].is_symlink && listing[i].name == *name;
            assert(l[i as int].name == listing@[i as int].name@);
            if same {
                found = true;
            }
            i = i + 1;
        }
        if !found {
            assert(!in_listing(ls[j as int], name@));
            return false;
        }
        j = j + 1;
    }
    true
}

} // verus!
