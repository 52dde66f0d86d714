//! Paths, held as their text.
//!
//! The tag store lives in directories and symbolic links, so the library speaks of paths
//! all the time. A path is held here as its text (a `String`); what `std::path` computes on
//! such a text is reached through the trusted wrappers below, each of which names its result.
//! The rules for a file name's extension (as `Path::extension` documents it) and for a
//! substring are few lines each, so they are stated here in full, and the functions that
//! compute them are proved against them.
use vstd::prelude::*;

verus! {

/// The text of `base` with `rel` pushed onto it (`std::path::Path::join`).
pub uninterp spec fn spec_path_join(base: Seq<char>, rel: Seq<char>) -> Seq<char>;

/// The last component of a path, when it is a file or directory name (`Path::file_name`).
pub uninterp spec fn spec_path_file_name(path: Seq<char>) -> Option<Seq<char>>;

/// The path with the leading components `base` removed (`Path::strip_prefix`), or `None`
/// when `base` is not a leading part of it.
pub uninterp spec fn spec_path_strip_prefix(path: Seq<char>, base: Seq<char>) -> Option<Seq<char>>;

/// The quoted, escaped form in which a path is shown in messages (`{:?}` of a `Path`).
pub uninterp spec fn spec_path_debug(path: Seq<char>) -> Seq<char>;

/// The index of the last occurrence of `c` in `s`, or -1 when `c` does not occur.
pub open spec fn last_index_of(s: Seq<char>, c: char) -> int
    decreases s.len(),
{
    if s.len() == 0 {
        -1
    } else if s.last() == c {
        s.len() - 1
    } else {
        last_index_of(s.drop_last(), c)
    }
}

/// The extension of a file name, as `std` documents it: none when the name holds no `.`,
/// none when its only `.` is the first character, and otherwise what follows the last `.`.
pub open spec fn extension_of_name(name: Seq<char>) -> Option<Seq<char>> {
    let k = last_index_of(name, '.');
    if k <= 0 {
        None
    } else {
        Some(name.subrange(k + 1, name.len() as int))
    }
}

/// The extension of a path: that of its file name, and none when it has no file name.
pub open spec fn path_extension(path: Seq<char>) -> Option<Seq<char>> {
    match spec_path_file_name(path) {
        Some(name) => extension_of_name(name),
        None => None,
    }
}

/// The `len` characters of `s` that start at `start`.
pub open spec fn window(s: Seq<char>, start: int, len: int) -> Seq<char> {
    s.subrange(start, start + len)
}

/// Whether `needle` occurs in `hay` as a run of consecutive characters.
pub open spec fn has_substring(hay: Seq<char>, needle: Seq<char>) -> bool {
    exists|i: int|
        0 <= i && i + needle.len() <= hay.len() && #[trigger] window(hay, i, needle.len() as int)
            == needle
}

/// `std::path::Path::join`: the text of `base` with `rel` pushed onto it. Claimed: the result
/// is the named join of the two texts. What the join is (a separator between the two, or
/// `rel` alone when it is absolute, which differs between platforms) is left to the name.
#[verifier::external_body]
pub(crate) fn path_join(base: &str, rel: &str) -> (res: String)
    ensures
        res@ == spec_path_join(base@, rel@),
{
    std::path::Path::new(base).join(rel).to_string_lossy().into_owned()
}

/// `std::path::Path::file_name`. Claimed: the result is the named file name of the text.
#[verifier::external_body]
pub(crate) fn path_file_name(path: &str) -> (res: Option<String>)
    ensures
        res.deep_view() == spec_path_file_name(path@),
{
    std::path::Path::new(path).file_name().map(|n| n.to_string_lossy().into_owned())
}

/// `std::path::Path::strip_prefix`. Claimed: the result is the named remainder, `None` where
/// `std` returns an error.
#[verifier::external_body]
pub(crate) fn path_strip_prefix(path: &str, base: &str) -> (res: Option<String>)
    ensures
        res.deep_view() == spec_path_strip_prefix(path@, base@),
{
    std::path::Path::new(path).strip_prefix(base).ok().map(|r| r.to_string_lossy().into_owned())
}

/// `{:?}` of a `std::path::Path`. Claimed: the result is the named quoted form of the text.
#[verifier::external_body]
pub(crate) fn path_debug(path: &str) -> (res: String)
    ensures
        res@ == spec_path_debug(path@),
{
    format!("{:?}", std::path::Path::new(path))
}

/// The extension of the file name of `path` (what `std::path::Path::extension` gives): none
/// when the path has no file name, and otherwise by the rule of `extension_of_name`. (That
/// rule would give `..` an empty extension where `std` gives none, but `..` is never a file
/// name: `Path::file_name` returns `None` for a path that ends in `..`.)
pub fn file_extension(path: &String) -> (r: Option<String>)
    ensures
        r.deep_view() == path_extension(path@),
{
    let name = match path_file_name(path.as_str()) {
        Some(n) => n,
        None => return None,
    };
    let n = name.as_str().unicode_len();
    let mut j: usize = n;
    assert(name@.subrange(0, n as int) =~= name@);
    while j > 0
        invariant
            spec_path_file_name(path@) == Some(name@),
            n == name@.len(),
            j <= n,
            last_index_of(name@, '.') == last_index_of(name@.subrange(0, j as int), '.'),
        decreases j,
    {
        let c = name.as_str().get_char(j - 1);
        assert(name@.subrange(0, j as int).last() == name@[j - 1]);
        if c == '.' {
            assert(last_index_of(name@.subrange(0, j as int), '.') == j - 1);
            if j == 1 {
                return None;
            }
            let after = name.as_str().substring_char(j, n);
            return Some(String::from_str(after));
        }
        assert(name@.subrange(0, j as int).drop_last() =~= name@.subrange(0, j - 1));
        j = j - 1;
    }
    assert(name@.subrange(0, 0) =~= Seq::<char>::empty());
    None
}

/// The characters of a string, one by one.
fn chars_of(s: &String) -> (res: Vec<char>)
    ensures
        res@ == s@,
{
    let n = s.as_str().unicode_len();
    let mut res: Vec<char> = Vec::new();
    let mut i: usize = 0;
    while i < n
        invariant
            n == s@.len(),
            i <= n,
            res@ == s@.subrange(0, i as int),
        decreases n - i,
    {
        let c = s.as_str().get_char(i);
        res.push(c);
        i = i + 1;
    }
    res
}

/// Whether `needle` occurs in `hay` (what `str::contains` answers for a string pattern).
pub fn contains_substring(hay: &String, needle: &String) -> (res: bool)
    ensures
        res == has_substring(hay@, needle@),
{
    let h = chars_of(hay);
    let p = chars_of(needle);
    let n = h.len();
    let m = p.len();
    if m > n {
        return false;
    }
    let mut i: usize = 0;
    while i <= n - m
        invariant
            h@ == hay@,
            p@ == needle@,
            n == h@.len(),
            m == p@.len(),
            m <= n,
            i <= n - m + 1,
            forall|k: int| 0 <= k < i ==> #[trigger] window(h@, k, m as int) != p@,
        decreases n - m + 1 - i,
    {
        let mut j: usize = 0;
        let mut same = true;
        while j < m
            invariant
                h@ == hay@,
                p@ == needle@,
                n == h@.len(),
                m == p@.len(),
                i + m <= n,
                j <= m,
                same == (forall|t: int| 0 <= t < j ==> h@[i + t] == p@[t]),
            decreases m - j,
        {
            if h[i + j] != p[j] {
                same = false;
            }
            j = j + 1;
        }
        if same {
            assert(window(h@, i as int, m as int) =~= p@);
            return true;
        }
        assert(window(h@, i as int, m as int) != p@) by {
            let t = choose|t: int| 0 <= t < m && h@[i + t] != p@[t];
            assert(window(h@, i as int, m as int)[t] == h@[i + t]);
        }
        i = i + 1;
    }
    assert forall|k: int| 0 <= k && k + needle@.len() <= hay@.len() implies
        #[trigger] window(hay@, k, needle@.len() as int) != needle@ by {
        assert(k < i);
    }
    false
}

} // verus!
