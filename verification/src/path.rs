//! The path grammar: how a raw string is cut into a path and a remainder,
//! a path into segments, and a file path into its directory and its leaf.

use vstd::prelude::*;
use crate::error::{FsError, FsErrorView};
use crate::filesystem::FileSystem;
use crate::text::{
    chars_of, find_from, find_last, index_of, last_index_of, lemma_index_of, lemma_index_of_is,
    slice_of,
};

verus! {

/// The non-empty runs of characters between the slashes of `path`, in order.
pub open spec fn segments(path: Seq<char>) -> Seq<Seq<char>>
    decreases path.len(),
{
    if path.len() == 0 {
        Seq::empty()
    } else {
        let i = index_of(path, '/') as int;
        let rest = if i < path.len() {
            segments(path.skip(i + 1))
        } else {
            Seq::empty()
        };
        if i == 0 {
            rest
        } else {
            seq![path.take(i)] + rest
        }
    }
}

/// Whether resolution of `path` starts at the root.
pub open spec fn is_absolute(path: Seq<char>) -> bool {
    path.len() > 0 && path[0] == '/'
}

/// The segment that stands for the directory itself.
pub open spec fn dot() -> Seq<char> {
    seq!['.']
}

/// The segment that stands for the parent directory.
pub open spec fn dot_dot() -> Seq<char> {
    seq!['.', '.']
}

/// What `raw` parses to: the path, and what follows it, if anything does.
pub open spec fn parsed(raw: Seq<char>) -> Option<(Seq<char>, Option<Seq<char>>)> {
    if raw.len() > 0 && raw[0] == '\'' {
        let body = raw.skip(1);
        let close = index_of(body, '\'') as int;
        if close == body.len() {
            None
        } else {
            Some((body.take(close), after(raw, close + 2)))
        }
    } else {
        let end = index_of(raw, ' ') as int;
        Some((raw.take(end), after(raw, end)))
    }
}

/// What is left of `raw` once `consumed` characters were taken as the path:
/// nothing if the path ends the string, else everything behind the one
/// character that separates the two.
pub open spec fn after(raw: Seq<char>, consumed: int) -> Option<Seq<char>> {
    if consumed >= raw.len() {
        None
    } else {
        Some(raw.skip(consumed + 1))
    }
}

/// The directory part and the leaf of `path`. A path without a slash names
/// a leaf in the root.
pub open spec fn parent_and_leaf(path: Seq<char>) -> (Seq<char>, Seq<char>) {
    let cut = last_index_of(path, '/');
    if cut < 0 {
        (seq!['/'], path)
    } else {
        (path.take(cut), path.skip(cut + 1))
    }
}

/// Whether `path` holds a slash.
pub open spec fn has_slash(path: Seq<char>) -> bool {
    last_index_of(path, '/') >= 0
}

/// The views of the strings of `v`, in order.
pub open spec fn texts(v: Seq<String>) -> Seq<Seq<char>> {
    v.map_values(|s: String| s@)
}

/// Whether `name` can name a directory below the root: it is not empty and
/// holds no slash.
pub open spec fn valid_name(name: Seq<char>) -> bool {
    name.len() > 0 && forall|j: int| 0 <= j < name.len() ==> name[j] != '/'
}

/// Whether each of `names` is a valid name.
pub open spec fn valid_names(names: Seq<Seq<char>>) -> bool {
    forall|k: int| 0 <= k < names.len() ==> valid_name(#[trigger] names[k])
}

/// `names` written as a path: each name behind a slash.
pub open spec fn joined(names: Seq<Seq<char>>) -> Seq<char>
    decreases names.len(),
{
    if names.len() == 0 {
        Seq::empty()
    } else {
        seq!['/'] + names[0] + joined(names.drop_first())
    }
}

/// The absolute path of the directory that `names` lead to from the root.
pub open spec fn absolute(names: Seq<Seq<char>>) -> Seq<char> {
    if names.len() == 0 {
        seq!['/']
    } else {
        joined(names)
    }
}

/// Every segment of a path is a valid name.
pub proof fn lemma_segments_valid(path: Seq<char>)
    ensures
        valid_names(segments(path)),
    decreases path.len(),
{
    if path.len() > 0 {
        let i = index_of(path, '/') as int;
        lemma_index_of(path, '/');
        if i < path.len() {
            lemma_segments_valid(path.skip(i + 1));
        }
        if i > 0 {
            assert forall|k: int| 0 <= k < segments(path).len() implies valid_name(
                #[trigger] segments(path)[k],
            ) by {}
        }
    }
}

/// A valid name at the start of a path, with nothing or a slash behind it,
/// is the first segment.
pub proof fn lemma_segments_after_name(name: Seq<char>, rest: Seq<char>)
    requires
        valid_name(name),
        rest.len() > 0 ==> rest[0] == '/',
    ensures
        segments(name + rest) == seq![name] + segments(rest),
{
    let path = name + rest;
    lemma_index_of_is(path, '/', name.len() as int);
    assert(path.take(name.len() as int) =~= name);
    if rest.len() > 0 {
        assert(path.skip(name.len() as int + 1) =~= rest.skip(1));
    }
}

/// Writing valid names as a path and cutting the path into segments gives
/// the names back.
pub proof fn lemma_segments_of_joined(names: Seq<Seq<char>>)
    requires
        valid_names(names),
    ensures
        segments(joined(names)) == names,
    decreases names.len(),
{
    if names.len() > 0 {
        let rest = names.drop_first();
        assert forall|k: int| 0 <= k < rest.len() implies valid_name(#[trigger] rest[k]) by {}
        lemma_segments_of_joined(rest);
        assert(joined(names).skip(1) =~= names[0] + joined(rest));
        lemma_segments_after_name(names[0], joined(rest));
    }
}

/// Writing valid names as an absolute path and cutting the path into
/// segments gives the names back.
pub proof fn lemma_segments_of_absolute(names: Seq<Seq<char>>)
    requires
        valid_names(names),
    ensures
        segments(absolute(names)) == names,
{
    if names.len() == 0 {
        lemma_segments_of_slash();
    } else {
        lemma_segments_of_joined(names);
    }
}

/// One more name behind the others is one more slash and name behind their
/// path.
pub proof fn lemma_joined_push(names: Seq<Seq<char>>, name: Seq<char>)
    ensures
        joined(names.push(name)) == joined(names) + seq!['/'] + name,
    decreases names.len(),
{
    let longer = names.push(name);
    if names.len() == 0 {
        assert(joined(longer.drop_first()) =~= Seq::<char>::empty());
    } else {
        assert(longer.drop_first() =~= names.drop_first().push(name));
        lemma_joined_push(names.drop_first(), name);
    }
}

/// The segments of two paths with a slash between them are the segments of
/// the first, then those of the second.
pub proof fn lemma_segments_concat(a: Seq<char>, b: Seq<char>)
    ensures
        segments(a + seq!['/'] + b) == segments(a) + segments(b),
    decreases a.len(),
{
    let whole = a + seq!['/'] + b;
    if a.len() == 0 {
        assert(whole.skip(1) =~= b);
    } else {
        let i = index_of(a, '/') as int;
        lemma_index_of(a, '/');
        lemma_index_of_is(whole, '/', i);
        assert(whole.take(i) =~= a.take(i));
        if i < a.len() {
            assert(whole.skip(i + 1) =~= a.skip(i + 1) + seq!['/'] + b);
            lemma_segments_concat(a.skip(i + 1), b);
        } else {
            assert(whole.skip(i + 1) =~= b);
        }
    }
}

/// A path that holds a character other than a slash has a segment.
pub proof fn lemma_segments_some(path: Seq<char>, k: int)
    requires
        0 <= k < path.len(),
        path[k] != '/',
    ensures
        segments(path).len() > 0,
    decreases path.len(),
{
    lemma_index_of(path, '/');
    if index_of(path, '/') == 0 {
        lemma_segments_some(path.skip(1), k - 1);
    }
}

/// The path that is one slash has no segments.
pub proof fn lemma_segments_of_slash()
    ensures
        segments(seq!['/']) == Seq::<Seq<char>>::empty(),
{
    assert(segments(seq!['/'].skip(1)) == Seq::<Seq<char>>::empty());
}

/// Whether `path` starts with a slash.
pub fn starts_at_root(path: &str) -> (r: bool)
    ensures
        r == is_absolute(path@),
{
    !path.is_empty() && path.get_char(0) == '/'
}

/// Cuts `path` into its segments.
pub fn split_segments(path: &str) -> (out: Vec<String>)
    ensures
        texts(out@) == segments(path@),
{
    let chars = chars_of(path);
    let n = chars.len();
    let mut out: Vec<String> = Vec::new();
    let mut start: usize = 0;
    proof {
        assert(path@.skip(0) =~= path@);
    }
    while start < n
        invariant
            n == chars.len(),
            chars@ == path@,
            start <= n,
            segments(path@) == texts(out@) + segments(path@.skip(start as int)),
        decreases n - start,
    {
        let end = find_from(&chars, start, '/');
        let ghost tail = path@.skip(start as int);
        proof {
            assert(tail.take(end - start) =~= path@.subrange(start as int, end as int));
            if end < n {
                assert(tail.skip(end - start + 1) =~= path@.skip(end + 1));
            }
        }
        if end > start {
            out.push(slice_of(path, start, end));
        }
        if end < n {
            start = end + 1;
        } else {
            start = n;
        }
    }
    out
}

/// The view of an optional string.
pub open spec fn text_of(s: Option<String>) -> Option<Seq<char>> {
    match s {
        Some(s) => Some(s@),
        None => None,
    }
}

/// What follows the first `consumed` characters of `raw` and one separator.
fn rest_after(raw: &str, len: usize, consumed: usize) -> (r: Option<String>)
    requires
        len == raw@.len(),
        consumed <= len,
    ensures
        text_of(r) == after(raw@, consumed as int),
{
    if consumed == len {
        None
    } else {
        Some(slice_of(raw, consumed + 1, len))
    }
}

impl FileSystem {
    /// Takes a path from the start of `raw`: up to the closing quote if
    /// `raw` opens with a quote, else up to the first space. What follows,
    /// behind one separating character, comes back as the remainder; there
    /// is none if the path ends the string.
    pub fn parse_path_out_of_string(raw: &String) -> (r: Result<(String, Option<String>), FsError>)
        ensures
            match r {
                Ok((path, rest)) => parsed(raw@) == Some((path@, text_of(rest))),
                Err(e) => parsed(raw@) is None && e@ == FsErrorView::MalformedPath,
            },
    {
        let text = raw.as_str();
        let chars = chars_of(text);
        let len = chars.len();
        if len > 0 && chars[0] == '\'' {
            let close = find_from(&chars, 1, '\'');
            if close == len {
                return Err(FsError::MalformedPath);
            }
            let path = slice_of(text, 1, close);
            Ok((path, rest_after(text, len, close + 1)))
        } else {
            let end = find_from(&chars, 0, ' ');
            proof {
                assert(raw@.skip(0) =~= raw@);
            }
            let path = slice_of(text, 0, end);
            Ok((path, rest_after(text, len, end)))
        }
    }

    /// Cuts `path` at its last slash into the directory part and the leaf. A
    /// path without a slash names a leaf in the root.
    pub fn separate_file_and_parent(path: String) -> (r: Option<(String, String)>)
        ensures
            match r {
                Some((parent, leaf)) => (parent@, leaf@) == parent_and_leaf(path@),
                None => false,
            },
    {
        let text = path.as_str();
        let chars = chars_of(text);
        match find_last(&chars, '/') {
            None => {
                proof {
                    reveal_strlit("/");
                }
                Some((String::from_str("/"), path))
            },
            Some(cut) => {
                let parent = slice_of(text, 0, cut);
                let leaf = slice_of(text, cut + 1, chars.len());
                Some((parent, leaf))
            },
        }
    }
}

} // verus!
