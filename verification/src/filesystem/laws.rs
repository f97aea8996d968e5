//! What holds of every well-formed tree, and what the operations keep.

use vstd::prelude::*;
use crate::error::FsErrorView;
use crate::filesystem::file::FileView;
use crate::filesystem::resolve::{child_prefix, make_dirs, make_step, step, walk, FsView};
use crate::filesystem::tree::{
    empty_dir, lemma_at_push, lemma_has_push, lemma_put_at, lemma_put_below, lemma_put_push,
    lemma_put_put, lemma_put_same, DirView,
};
use crate::path::{
    absolute, dot, dot_dot, has_slash, is_absolute, joined, lemma_joined_push,
    lemma_segments_after_name, lemma_segments_concat, lemma_segments_of_absolute,
    lemma_segments_some, lemma_segments_valid, parent_and_leaf, segments, valid_name, valid_names,
};
use crate::text::{
    index_of, lemma_index_of, lemma_index_of_is, lemma_last_index_of, lemma_last_index_of_is,
};

verus! {

/// Whether no two of `names` are the same.
pub open spec fn distinct(names: Seq<Seq<char>>) -> bool {
    forall|i: int, j: int| 0 <= i < j < names.len() ==> names[i] != names[j]
}

/// Whether none of `names` is `.` or `..`.
pub open spec fn plain(names: Seq<Seq<char>>) -> bool {
    forall|k: int| 0 <= k < names.len() ==> #[trigger] names[k] != dot() && names[k] != dot_dot()
}

impl DirView {
    /// The names of the directories on the way to the one that `at`
    /// addresses, this directory left out.
    pub open spec fn names_along(self, at: Seq<int>) -> Seq<Seq<char>>
        recommends
            self.has(at),
        decreases at.len(),
    {
        if at.len() == 0 {
            Seq::empty()
        } else {
            self.names_along(at.drop_last()).push(self.at(at).name)
        }
    }

    /// Whether everything below this directory is in order: the
    /// subdirectories of every directory have valid names, no two of them
    /// the same, and each stores as its parent path the path of the
    /// directory it stands in, followed by a slash.
    pub open spec fn tidy(self) -> bool
        decreases self,
    {
        &&& distinct(self.dir_names())
        &&& forall|i: int|
            0 <= i < self.subdirectories.len() ==> {
                &&& valid_name((#[trigger] self.subdirectories[i]).name)
                &&& self.subdirectories[i].parent == Some(child_prefix(self))
                &&& self.subdirectories[i].tidy()
            }
    }
}

impl FsView {
    /// Whether the tree is well-formed: the root is called `/` and has no
    /// parent, and everything below it is in order.
    pub open spec fn wf(self) -> bool {
        &&& self.root.name == seq!['/']
        &&& self.root.parent is None
        &&& self.root.tidy()
    }
}

/// The names but the first are plain where all are.
pub proof fn lemma_plain_rest(names: Seq<Seq<char>>)
    requires
        plain(names),
        names.len() > 0,
    ensures
        plain(names.drop_first()),
        names[0] != dot(),
        names[0] != dot_dot(),
{
    let rest = names.drop_first();
    assert forall|k: int| 0 <= k < rest.len() implies #[trigger] rest[k] != dot() && rest[k]
        != dot_dot() by {}
}

/// The directory below a subdirectory is the directory at the longer
/// address, and so is its validity.
pub proof fn lemma_at_front(d: DirView, i: int, rest: Seq<int>)
    requires
        0 <= i < d.subdirectories.len(),
    ensures
        d.has(seq![i] + rest) == d.subdirectories[i].has(rest),
        d.at(seq![i] + rest) == d.subdirectories[i].at(rest),
{
    let at = seq![i] + rest;
    assert(at.drop_first() =~= rest);
}

/// The names on the way through a subdirectory start with its name.
pub proof fn lemma_names_along_front(d: DirView, i: int, rest: Seq<int>)
    requires
        0 <= i < d.subdirectories.len(),
        d.subdirectories[i].has(rest),
    ensures
        d.names_along(seq![i] + rest) == seq![d.subdirectories[i].name]
            + d.subdirectories[i].names_along(rest),
    decreases rest.len(),
{
    let at = seq![i] + rest;
    let sub = d.subdirectories[i];
    lemma_at_front(d, i, rest);
    if rest.len() == 0 {
        assert(d.names_along(at.drop_last()) =~= Seq::<Seq<char>>::empty());
    } else {
        assert(rest =~= rest.drop_last().push(rest.last()));
        lemma_has_push(sub, rest.drop_last(), rest.last());
        lemma_names_along_front(d, i, rest.drop_last());
        assert(at.drop_last() =~= seq![i] + rest.drop_last());
    }
}

/// One more position is one more name: that of the subdirectory there.
pub proof fn lemma_names_along_push(d: DirView, at: Seq<int>, i: int)
    requires
        d.has(at),
        0 <= i < d.at(at).subdirectories.len(),
    ensures
        d.names_along(at.push(i)) == d.names_along(at).push(d.at(at).subdirectories[i].name),
{
    lemma_at_push(d, at, i);
    assert(at.push(i).drop_last() =~= at);
}

/// Going down by names leads to a valid address, and the names on the way
/// to it are the names gone down by.
pub proof fn lemma_descend(d: DirView, names: Seq<Seq<char>>)
    ensures
        d.descend(names) matches Ok(at) ==> d.has(at) && d.names_along(at) == names,
    decreases names.len(),
{
    if names.len() > 0 && d.find_dir(names[0]) is Some {
        let i = d.find_dir(names[0])->0;
        let sub = d.subdirectories[i];
        lemma_index_of(d.dir_names(), names[0]);
        lemma_descend(sub, names.drop_first());
        if let Ok(rest) = sub.descend(names.drop_first()) {
            lemma_at_front(d, i, rest);
            lemma_names_along_front(d, i, rest);
        }
    }
}

/// One step from a valid address leads to a valid address.
pub proof fn lemma_step_has(root: DirView, at: Seq<int>, segment: Seq<char>)
    requires
        root.has(at),
    ensures
        step(root, at, segment) matches Ok(next) ==> root.has(next),
{
    if segment == dot_dot() {
        if at.len() > 0 {
            assert(at =~= at.drop_last().push(at.last()));
            lemma_has_push(root, at.drop_last(), at.last());
        }
    } else if segment == dot() {
    } else if let Some(i) = root.at(at).find_dir(segment) {
        lemma_at_push(root, at, i);
    }
}

/// A walk from a valid address leads to a valid address.
pub proof fn lemma_walk_has(root: DirView, at: Seq<int>, names: Seq<Seq<char>>)
    requires
        root.has(at),
    ensures
        walk(root, at, names) matches Ok(end) ==> root.has(end),
    decreases names.len(),
{
    if names.len() > 0 {
        lemma_step_has(root, at, names[0]);
        if let Ok(next) = step(root, at, names[0]) {
            lemma_walk_has(root, next, names.drop_first());
        }
    }
}

/// Resolution leads to a valid address.
pub proof fn lemma_resolve_has(fs: FsView, path: Seq<char>)
    ensures
        fs.resolve(path) matches Ok(at) ==> fs.root.has(at),
{
    if is_absolute(path) {
        lemma_walk_has(fs.root, Seq::empty(), segments(path));
    } else {
        lemma_descend(fs.root, segments(fs.current_directory));
        if let Ok(start) = fs.current() {
            lemma_walk_has(fs.root, start, segments(path));
        }
    }
}

/// The file that a path names stands in a directory at a valid address, at
/// a position among its files.
pub proof fn lemma_locate_file_has(fs: FsView, path: Seq<char>)
    ensures
        fs.locate_file(path) matches Ok((at, i)) ==> fs.root.has(at) && 0 <= i < fs.root.at(
            at,
        ).files.len(),
{
    if has_slash(path) {
        lemma_resolve_has(fs, parent_and_leaf(path).0);
    } else {
        lemma_resolve_has(fs, fs.current_directory);
    }
}

/// A walk over names other than `.` and `..` adds exactly those names to
/// the names on the way.
pub proof fn lemma_walk_names(root: DirView, at: Seq<int>, names: Seq<Seq<char>>)
    requires
        root.has(at),
        plain(names),
    ensures
        walk(root, at, names) matches Ok(end) ==> root.has(end) && root.names_along(end)
            == root.names_along(at) + names,
    decreases names.len(),
{
    if names.len() > 0 {
        if let Some(i) = root.at(at).find_dir(names[0]) {
            lemma_index_of(root.at(at).dir_names(), names[0]);
            lemma_at_push(root, at, i);
            lemma_names_along_push(root, at, i);
            lemma_plain_rest(names);
            lemma_walk_names(root, at.push(i), names.drop_first());
        }
    }
}

/// Everything below a tidy directory is tidy.
pub proof fn lemma_tidy_at(d: DirView, at: Seq<int>)
    requires
        d.tidy(),
        d.has(at),
    ensures
        d.at(at).tidy(),
    decreases at.len(),
{
    if at.len() > 0 {
        lemma_tidy_at(d.subdirectories[at[0]], at.drop_first());
    }
}

/// In a well-formed tree every directory stores the path that leads to it:
/// the names on the way to it are valid, its full path is those names
/// written as an absolute path, and what it hands to its subdirectories as
/// their parent path is those names written as a path, and a slash.
pub proof fn lemma_stored_paths(fs: FsView, at: Seq<int>)
    requires
        fs.wf(),
        fs.root.has(at),
    ensures
        valid_names(fs.root.names_along(at)),
        fs.root.at(at).path() == absolute(fs.root.names_along(at)),
        child_prefix(fs.root.at(at)) == joined(fs.root.names_along(at)) + seq!['/'],
    decreases at.len(),
{
    let root = fs.root;
    if at.len() > 0 {
        let above = at.drop_last();
        let i = at.last();
        assert(at =~= above.push(i));
        lemma_has_push(root, above, i);
        lemma_at_push(root, above, i);
        lemma_stored_paths(fs, above);
        lemma_tidy_at(root, above);
        let here = root.at(above).subdirectories[i];
        assert(here.name != seq!['/']) by {
            if here.name == seq!['/'] {
                assert(here.name[0] == '/');
            }
        }
        lemma_joined_push(root.names_along(above), here.name);
    }
}

/// In a tidy tree, going down by the names on the way to a directory leads
/// to that directory.
pub proof fn lemma_descend_names(d: DirView, at: Seq<int>)
    requires
        d.tidy(),
        d.has(at),
    ensures
        d.descend(d.names_along(at)) == Ok::<Seq<int>, Seq<char>>(at),
    decreases at.len(),
{
    if at.len() == 0 {
        assert(at =~= Seq::<int>::empty());
    } else {
        let i = at[0];
        let rest = at.drop_first();
        let sub = d.subdirectories[i];
        assert(at =~= seq![i] + rest);
        lemma_names_along_front(d, i, rest);
        let names = d.names_along(at);
        assert(names.drop_first() =~= sub.names_along(rest));
        assert(d.find_dir(sub.name) == Some(i)) by {
            assert forall|j: int| 0 <= j < i implies d.dir_names()[j] != sub.name by {
                assert(d.dir_names()[j] != d.dir_names()[i]);
            }
            lemma_index_of_is(d.dir_names(), sub.name, i);
        }
        lemma_descend_names(sub, rest);
    }
}

/// The base from which `path` is resolved, as names: none if the path
/// starts with a slash, else the segments of the current directory.
pub open spec fn base_names(fs: FsView, path: Seq<char>) -> Seq<Seq<char>> {
    if is_absolute(path) {
        Seq::empty()
    } else {
        segments(fs.current_directory)
    }
}

/// Resolution and the stored paths agree: in a well-formed tree, a path
/// without `.` and `..` leads to a directory whose full path is the
/// segments of the base and of the path, written as an absolute path.
pub proof fn lemma_resolved_path(fs: FsView, path: Seq<char>)
    requires
        fs.wf(),
        plain(segments(path)),
        fs.resolve(path) is Ok,
    ensures
        fs.root.at(fs.resolve(path)->Ok_0).path() == absolute(
            base_names(fs, path) + segments(path),
        ),
{
    let at = fs.resolve(path)->Ok_0;
    lemma_resolve_has(fs, path);
    lemma_stored_paths(fs, at);
    if is_absolute(path) {
        lemma_walk_names(fs.root, Seq::empty(), segments(path));
    } else {
        lemma_descend(fs.root, segments(fs.current_directory));
        lemma_walk_names(fs.root, fs.current()->Ok_0, segments(path));
    }
}

/// In a well-formed tree the full path of a directory leads back to it:
/// with that path as the current directory, the current directory is found
/// at the same address.
pub proof fn lemma_path_leads_back(fs: FsView, at: Seq<int>)
    requires
        fs.wf(),
        fs.root.has(at),
    ensures
        (FsView { current_directory: fs.root.at(at).path(), ..fs }).current() == Ok::<
            Seq<int>,
            FsErrorView,
        >(at),
{
    lemma_stored_paths(fs, at);
    lemma_segments_of_absolute(fs.root.names_along(at));
    lemma_descend_names(fs.root, at);
}

/// Walking is stepping: a walk over some names and one more is the walk
/// over those names, then the step for the one more.
pub proof fn lemma_walk_push(root: DirView, at: Seq<int>, names: Seq<Seq<char>>, last: Seq<char>)
    ensures
        walk(root, at, names.push(last)) == match walk(root, at, names) {
            Ok(end) => step(root, end, last),
            Err(e) => Err(e),
        },
    decreases names.len(),
{
    let longer = names.push(last);
    if names.len() == 0 {
        if let Ok(next) = step(root, at, last) {
            assert(walk(root, next, longer.drop_first()) == Ok::<Seq<int>, FsErrorView>(next));
        }
    } else {
        assert(longer.drop_first() =~= names.drop_first().push(last));
        if let Ok(next) = step(root, at, names[0]) {
            lemma_walk_push(root, next, names.drop_first(), last);
        }
    }
}

/// Resolution is walking by hand: a path, a slash and one more name lead
/// to where the step for that name leads from where the path leads.
pub proof fn lemma_resolve_by_steps(fs: FsView, path: Seq<char>, name: Seq<char>)
    requires
        path.len() > 0,
        valid_name(name),
    ensures
        fs.resolve(path + seq!['/'] + name) == match fs.resolve(path) {
            Ok(at) => step(fs.root, at, name),
            Err(e) => Err(e),
        },
{
    let longer = path + seq!['/'] + name;
    lemma_segments_concat(path, name);
    lemma_segments_after_name(name, Seq::empty());
    assert(segments(longer) =~= segments(path).push(name));
    assert(is_absolute(longer) == is_absolute(path));
    if is_absolute(path) {
        lemma_walk_push(fs.root, Seq::empty(), segments(path), name);
    } else if let Ok(start) = fs.current() {
        lemma_walk_push(fs.root, start, segments(path), name);
    }
}

/// Replacing a directory of a tidy tree by a tidy one of the same name
/// and parent path leaves the tree tidy.
pub proof fn lemma_put_tidy(d: DirView, at: Seq<int>, x: DirView)
    requires
        d.tidy(),
        d.has(at),
        x.tidy(),
        x.name == d.at(at).name,
        x.parent == d.at(at).parent,
    ensures
        d.put(at, x).tidy(),
        d.put(at, x).name == d.name,
        d.put(at, x).parent == d.parent,
    decreases at.len(),
{
    if at.len() > 0 {
        lemma_put_tidy(d.subdirectories[at[0]], at.drop_first(), x);
        let after = d.put(at, x);
        assert(after.dir_names() =~= d.dir_names());
        assert forall|j: int| 0 <= j < after.subdirectories.len() implies {
            &&& valid_name((#[trigger] after.subdirectories[j]).name)
            &&& after.subdirectories[j].parent == Some(child_prefix(after))
            &&& after.subdirectories[j].tidy()
        } by {}
    }
}

/// Replacing a directory of a well-formed tree by a tidy one of the same
/// name and parent path leaves the tree well-formed.
pub proof fn lemma_put_wf(fs: FsView, at: Seq<int>, x: DirView)
    requires
        fs.wf(),
        fs.root.has(at),
        x.tidy(),
        x.name == fs.root.at(at).name,
        x.parent == fs.root.at(at).parent,
    ensures
        fs.put(at, x).wf(),
{
    lemma_put_tidy(fs.root, at, x);
}

/// A tidy directory stays tidy when an empty subdirectory of a valid name
/// that no other subdirectory has is added with the right parent path.
pub proof fn lemma_with_dir_tidy(d: DirView, name: Seq<char>)
    requires
        d.tidy(),
        valid_name(name),
        d.find_dir(name) is None,
    ensures
        d.with_dir(empty_dir(name, Some(child_prefix(d)))).tidy(),
{
    let fresh = empty_dir(name, Some(child_prefix(d)));
    let after = d.with_dir(fresh);
    lemma_index_of(d.dir_names(), name);
    assert(after.dir_names() =~= d.dir_names().push(name));
    assert(fresh.tidy());
    assert forall|j: int| 0 <= j < after.subdirectories.len() implies {
        &&& valid_name((#[trigger] after.subdirectories[j]).name)
        &&& after.subdirectories[j].parent == Some(child_prefix(after))
        &&& after.subdirectories[j].tidy()
    } by {}
}

/// A tidy directory stays tidy when a subdirectory is removed.
pub proof fn lemma_without_dir_tidy(d: DirView, i: int)
    requires
        d.tidy(),
        0 <= i < d.subdirectories.len(),
    ensures
        d.without_dir(i).tidy(),
{
    let after = d.without_dir(i);
    assert(after.dir_names() =~= d.dir_names().remove(i));
    assert forall|j: int| 0 <= j < after.subdirectories.len() implies {
        &&& valid_name((#[trigger] after.subdirectories[j]).name)
        &&& after.subdirectories[j].parent == Some(child_prefix(after))
        &&& after.subdirectories[j].tidy()
    } by {}
}

/// One step of a directory creation with a valid name keeps a well-formed
/// tree well-formed and the address valid.
pub proof fn lemma_make_step_wf(fs: FsView, at: Seq<int>, name: Seq<char>)
    requires
        fs.wf(),
        fs.root.has(at),
        valid_name(name),
    ensures
        (FsView { root: make_step(fs.root, at, name).0, ..fs }).wf(),
        make_step(fs.root, at, name).0.has(make_step(fs.root, at, name).1),
{
    let root = fs.root;
    let here = root.at(at);
    if name == dot_dot() {
        if at.len() > 0 {
            assert(at =~= at.drop_last().push(at.last()));
            lemma_has_push(root, at.drop_last(), at.last());
        }
    } else if name == dot() {
    } else if let Some(i) = here.find_dir(name) {
        lemma_at_push(root, at, i);
    } else {
        let grown = here.with_dir(empty_dir(name, Some(child_prefix(here))));
        lemma_tidy_at(root, at);
        lemma_with_dir_tidy(here, name);
        lemma_put_wf(fs, at, grown);
        lemma_put_at(root, at, grown);
        lemma_at_push(root.put(at, grown), at, here.subdirectories.len() as int);
    }
}

/// A directory creation with valid names keeps a well-formed tree
/// well-formed.
pub proof fn lemma_make_dirs_wf(fs: FsView, at: Seq<int>, names: Seq<Seq<char>>)
    requires
        fs.wf(),
        fs.root.has(at),
        valid_names(names),
    ensures
        (FsView { root: make_dirs(fs.root, at, names), ..fs }).wf(),
    decreases names.len(),
{
    if names.len() > 0 {
        lemma_make_step_wf(fs, at, names[0]);
        let (next_root, next_at) = make_step(fs.root, at, names[0]);
        let rest = names.drop_first();
        assert forall|k: int| 0 <= k < rest.len() implies valid_name(#[trigger] rest[k]) by {}
        lemma_make_dirs_wf(FsView { root: next_root, ..fs }, next_at, rest);
    }
}

/// A directory creation at a path that starts with a slash and holds a
/// character other than a slash goes through.
pub proof fn lemma_mkdir_goes_through(fs: FsView, path: Seq<char>, k: int)
    requires
        is_absolute(path),
        0 <= k < path.len(),
        path[k] != '/',
    ensures
        fs.mkdir(path) is Ok,
{
    lemma_segments_some(path, k);
}

/// Directory creation keeps a well-formed filesystem well-formed.
pub proof fn lemma_mkdir_wf(fs: FsView, path: Seq<char>)
    requires
        fs.wf(),
    ensures
        fs.mkdir(path) matches Ok(after) ==> after.wf(),
{
    if let Ok(at) = fs.make_start(path) {
        if !is_absolute(path) {
            lemma_resolve_has(fs, fs.current_directory);
        }
        lemma_segments_valid(path);
        lemma_make_dirs_wf(fs, at, segments(path));
    }
}

/// Adding a file keeps a well-formed filesystem well-formed.
pub proof fn lemma_touch_wf(fs: FsView, path: Seq<char>, file: FileView)
    requires
        fs.wf(),
    ensures
        fs.touch(path, file).wf(),
{
    if let Ok(at) = fs.resolve(path) {
        lemma_resolve_has(fs, path);
        lemma_tidy_at(fs.root, at);
        lemma_put_wf(fs, at, fs.root.at(at).with_file(file));
    }
}

/// A change to the files of one directory keeps a well-formed filesystem
/// well-formed.
pub proof fn lemma_files_wf(fs: FsView, at: Seq<int>, files: Seq<FileView>)
    requires
        fs.wf(),
        fs.root.has(at),
    ensures
        fs.put(at, DirView { files, ..fs.root.at(at) }).wf(),
{
    lemma_tidy_at(fs.root, at);
    lemma_put_wf(fs, at, DirView { files, ..fs.root.at(at) });
}

/// The removal of a subdirectory keeps a well-formed filesystem
/// well-formed.
pub proof fn lemma_without_dir_wf(fs: FsView, at: Seq<int>, i: int)
    requires
        fs.wf(),
        fs.root.has(at),
        0 <= i < fs.root.at(at).subdirectories.len(),
    ensures
        fs.put(at, fs.root.at(at).without_dir(i)).wf(),
{
    lemma_tidy_at(fs.root, at);
    lemma_without_dir_tidy(fs.root.at(at), i);
    lemma_put_wf(fs, at, fs.root.at(at).without_dir(i));
}

/// A walk over names other than `.` and `..` is going down by those names
/// from where the walk starts.
pub proof fn lemma_walk_plain(root: DirView, at: Seq<int>, names: Seq<Seq<char>>)
    requires
        root.has(at),
        plain(names),
    ensures
        walk(root, at, names) == match root.at(at).descend(names) {
            Ok(rest) => Ok::<Seq<int>, FsErrorView>(at + rest),
            Err(missing) => Err(FsErrorView::NotFound(missing)),
        },
    decreases names.len(),
{
    if names.len() > 0 {
        let here = root.at(at);
        if let Some(i) = here.find_dir(names[0]) {
            let rest = names.drop_first();
            lemma_plain_rest(names);
            lemma_at_push(root, at, i);
            lemma_walk_plain(root, at.push(i), rest);
            if let Ok(below) = here.subdirectories[i].descend(rest) {
                assert(at + (seq![i] + below) =~= at.push(i) + below);
            }
        }
    }
}

/// Replacing the directory to which names lead by one of the same name
/// leaves the way to it as it was.
pub proof fn lemma_descend_put(d: DirView, names: Seq<Seq<char>>, x: DirView)
    requires
        d.descend(names) is Ok,
        x.name == d.at(d.descend(names)->Ok_0).name,
    ensures
        d.put(d.descend(names)->Ok_0, x).descend(names) == d.descend(names),
    decreases names.len(),
{
    let at = d.descend(names)->Ok_0;
    if names.len() > 0 {
        let i = d.find_dir(names[0])->0;
        let sub = d.subdirectories[i];
        let rest = names.drop_first();
        let below = sub.descend(rest)->Ok_0;
        lemma_at_front(d, i, below);
        lemma_put_below(d, i, below, x);
        lemma_descend_put(sub, rest, x);
        assert(d.put(at, x).dir_names() =~= d.dir_names());
    }
}

/// Among names of which no two are the same, the name that is taken out
/// is gone.
pub proof fn lemma_removed_name_gone(names: Seq<Seq<char>>, i: int)
    requires
        distinct(names),
        0 <= i < names.len(),
    ensures
        index_of(names.remove(i), names[i]) == names.len() - 1,
{
    let left = names.remove(i);
    assert forall|j: int| 0 <= j < left.len() implies left[j] != names[i] by {}
    lemma_index_of_is(left, names[i], left.len() as int);
}

/// A removed directory is gone: in a well-formed tree, after the removal
/// of the directory that an absolute path without `.` and `..` names, the
/// path leads nowhere, and its last segment is what is missing.
pub proof fn lemma_removed_dir_is_gone(fs: FsView, path: Seq<char>)
    requires
        fs.wf(),
        is_absolute(path),
        plain(segments(path)),
        fs.rm_dir(path) is Ok,
    ensures
        fs.rm_dir(path)->Ok_0.resolve(path) == Err::<Seq<int>, FsErrorView>(
            FsErrorView::NotFound(parent_and_leaf(path).1),
        ),
{
    let (parent, leaf) = parent_and_leaf(path);
    lemma_last_index_of(path, '/');
    assert(path =~= parent + seq!['/'] + leaf);
    lemma_segments_concat(parent, leaf);
    let way = segments(parent);
    let root = fs.root;
    let at = fs.entry_site(path).0->Ok_0;
    assert(walk(root, Seq::empty(), way) == Ok::<Seq<int>, FsErrorView>(at));
    lemma_walk_has(root, Seq::empty(), way);
    let here = root.at(at);
    let i = here.find_dir(leaf)->0;
    lemma_index_of(here.dir_names(), leaf);
    lemma_tidy_at(root, at);
    lemma_segments_after_name(leaf, Seq::empty());
    assert(segments(path) =~= way.push(leaf));
    assert(plain(way)) by {
        assert forall|k: int| 0 <= k < way.len() implies #[trigger] way[k] != dot() && way[k]
            != dot_dot() by {
            assert(way[k] == segments(path)[k]);
        }
    }
    assert(leaf != dot() && leaf != dot_dot()) by {
        assert(leaf == segments(path)[way.len() as int]);
    }
    let pruned = here.without_dir(i);
    let after = root.put(at, pruned);
    lemma_walk_plain(root, Seq::empty(), way);
    assert(root.descend(way) == Ok::<Seq<int>, Seq<char>>(at));
    lemma_descend_put(root, way, pruned);
    lemma_walk_plain(after, Seq::empty(), way);
    assert(walk(after, Seq::empty(), way) == Ok::<Seq<int>, FsErrorView>(at));
    lemma_walk_push(after, Seq::empty(), way, leaf);
    lemma_put_at(root, at, pruned);
    assert(pruned.dir_names() =~= here.dir_names().remove(i));
    lemma_removed_name_gone(here.dir_names(), i);
}

/// The directory in which a creation goes on after the segment `name` was
/// taken care of in `d`: `d` itself where it has a subdirectory of that
/// name, else `d` with an empty one added.
pub open spec fn entered(d: DirView, name: Seq<char>) -> DirView {
    match d.find_dir(name) {
        Some(_) => d,
        None => d.with_dir(empty_dir(name, Some(child_prefix(d)))),
    }
}

/// The position of the subdirectory called `name` in `entered(d, name)`.
pub open spec fn entered_at(d: DirView, name: Seq<char>) -> int {
    match d.find_dir(name) {
        Some(i) => i,
        None => d.subdirectories.len() as int,
    }
}

/// After the segment `name` was taken care of, the first subdirectory of
/// that name is where the creation goes on.
pub proof fn lemma_entered(d: DirView, name: Seq<char>)
    ensures
        0 <= entered_at(d, name) < entered(d, name).subdirectories.len(),
        entered(d, name).find_dir(name) == Some(entered_at(d, name)),
        entered(d, name).name == d.name,
        entered(d, name).parent == d.parent,
{
    lemma_index_of(d.dir_names(), name);
    if d.find_dir(name) is None {
        let grown = entered(d, name);
        assert(grown.dir_names() =~= d.dir_names().push(name));
        lemma_index_of_is(grown.dir_names(), name, d.subdirectories.len() as int);
    }
}

/// A creation over names other than `.` and `..` changes nothing outside
/// the directory in which it starts: it is the creation in that directory,
/// put back in its place.
pub proof fn lemma_make_dirs_local(root: DirView, at: Seq<int>, names: Seq<Seq<char>>)
    requires
        root.has(at),
        plain(names),
    ensures
        make_dirs(root, at, names) == root.put(
            at,
            make_dirs(root.at(at), Seq::empty(), names),
        ),
    decreases names.len(),
{
    let here = root.at(at);
    let top = Seq::<int>::empty();
    if names.len() == 0 {
        lemma_put_same(root, at);
    } else {
        let name = names[0];
        let rest = names.drop_first();
        let grown = entered(here, name);
        let i = entered_at(here, name);
        let (root1, at1) = make_step(root, at, name);
        let (here1, top1) = make_step(here, top, name);
        assert(root1 == root.put(at, grown)) by {
            if here.find_dir(name) is Some {
                lemma_put_same(root, at);
            }
        }
        lemma_put_at(root, at, grown);
        lemma_at_push(root1, at, i);
        let inner = make_dirs(grown.subdirectories[i], top, rest);
        lemma_make_dirs_local(root1, at1, rest);
        lemma_put_push(root1, at, i, inner);
        lemma_put_put(root, at, grown, grown.with_dir_at(i, inner));
        lemma_at_push(grown, top, i);
        lemma_make_dirs_local(grown, top1, rest);
        lemma_put_push(grown, top, i, inner);
    }
}

/// A creation in a directory, unfolded by one name: the first name is
/// taken care of, and the creation over the other names goes on in the
/// subdirectory of that name.
pub proof fn lemma_make_dirs_unfold(d: DirView, names: Seq<Seq<char>>)
    requires
        plain(names),
        names.len() > 0,
    ensures
        make_dirs(d, Seq::empty(), names) == entered(d, names[0]).with_dir_at(
            entered_at(d, names[0]),
            make_dirs(
                entered(d, names[0]).subdirectories[entered_at(d, names[0])],
                Seq::empty(),
                names.drop_first(),
            ),
        ),
        make_dirs(d, Seq::empty(), names).name == d.name,
        make_dirs(d, Seq::empty(), names).parent == d.parent,
{
    let top = Seq::<int>::empty();
    let name = names[0];
    let rest = names.drop_first();
    let grown = entered(d, name);
    let i = entered_at(d, name);
    lemma_at_push(grown, top, i);
    lemma_make_dirs_local(grown, top.push(i), rest);
    lemma_put_push(
        grown,
        top,
        i,
        make_dirs(grown.subdirectories[i], top, rest),
    );
}

/// After a creation over names other than `.` and `..`, going down by those
/// names leads somewhere.
pub proof fn lemma_made_is_there(d: DirView, names: Seq<Seq<char>>)
    requires
        plain(names),
    ensures
        make_dirs(d, Seq::empty(), names).descend(names) is Ok,
    decreases names.len(),
{
    if names.len() > 0 {
        let top = Seq::<int>::empty();
        let name = names[0];
        let rest = names.drop_first();
        lemma_entered(d, name);
        lemma_make_dirs_unfold(d, names);
        let grown = entered(d, name);
        let i = entered_at(d, name);
        let sub = grown.subdirectories[i];
        let inner = make_dirs(sub, top, rest);
        let made = grown.with_dir_at(i, inner);
        if rest.len() > 0 {
            lemma_make_dirs_unfold(sub, rest);
        }
        assert(made.dir_names() =~= grown.dir_names());
        lemma_made_is_there(sub, rest);
    }
}

/// A creation that is repeated changes nothing more.
pub proof fn lemma_made_twice(d: DirView, names: Seq<Seq<char>>)
    requires
        plain(names),
    ensures
        make_dirs(make_dirs(d, Seq::empty(), names), Seq::empty(), names) == make_dirs(
            d,
            Seq::empty(),
            names,
        ),
    decreases names.len(),
{
    if names.len() > 0 {
        let top = Seq::<int>::empty();
        let name = names[0];
        let rest = names.drop_first();
        lemma_entered(d, name);
        lemma_make_dirs_unfold(d, names);
        let grown = entered(d, name);
        let i = entered_at(d, name);
        let sub = grown.subdirectories[i];
        let inner = make_dirs(sub, top, rest);
        let made = grown.with_dir_at(i, inner);
        if rest.len() > 0 {
            lemma_make_dirs_unfold(sub, rest);
        }
        assert(made.dir_names() =~= grown.dir_names());
        lemma_make_dirs_unfold(made, names);
        lemma_made_twice(sub, rest);
        assert(made.with_dir_at(i, inner).subdirectories =~= made.subdirectories);
    }
}

/// Where going down by the names led nowhere before a creation, it leads to
/// an empty directory after it, called by the last of the names.
pub proof fn lemma_made_new_is_empty(d: DirView, names: Seq<Seq<char>>)
    requires
        plain(names),
        d.descend(names) is Err,
    ensures
        make_dirs(d, Seq::empty(), names).descend(names) is Ok,
        ({
            let made = make_dirs(d, Seq::empty(), names);
            let end = made.at(made.descend(names)->Ok_0);
            end.name == names.last() && end.subdirectories.len() == 0 && end.files.len() == 0
        }),
    decreases names.len(),
{
    let top = Seq::<int>::empty();
    let name = names[0];
    let rest = names.drop_first();
    lemma_entered(d, name);
    lemma_make_dirs_unfold(d, names);
    let grown = entered(d, name);
    let i = entered_at(d, name);
    let sub = grown.subdirectories[i];
    let inner = make_dirs(sub, top, rest);
    let made = grown.with_dir_at(i, inner);
    if rest.len() > 0 {
        lemma_make_dirs_unfold(sub, rest);
    }
    assert(made.dir_names() =~= grown.dir_names());
    let below = inner.descend(rest)->Ok_0;
    lemma_at_front(made, i, below);
    if rest.len() > 0 {
        assert(sub.descend(rest) is Err);
        lemma_made_new_is_empty(sub, rest);
    }
}

/// Whether none of `names` is `..`.
pub open spec fn level(names: Seq<Seq<char>>) -> bool {
    forall|k: int| 0 <= k < names.len() ==> #[trigger] names[k] != dot_dot()
}

/// `names` without every `.`.
pub open spec fn undotted(names: Seq<Seq<char>>) -> Seq<Seq<char>>
    decreases names.len(),
{
    if names.len() == 0 {
        names
    } else if names[0] == dot() {
        undotted(names.drop_first())
    } else {
        seq![names[0]] + undotted(names.drop_first())
    }
}

/// Names without `..`, with every `.` taken out, are plain.
pub proof fn lemma_undotted_plain(names: Seq<Seq<char>>)
    requires
        level(names),
    ensures
        plain(undotted(names)),
    decreases names.len(),
{
    if names.len() > 0 {
        let rest = names.drop_first();
        assert forall|k: int| 0 <= k < rest.len() implies #[trigger] rest[k] != dot_dot() by {
            assert(rest[k] == names[k + 1]);
        }
        lemma_undotted_plain(rest);
        assert(names[0] != dot_dot());
    }
}

/// A walk passes over every `.`.
pub proof fn lemma_walk_undotted(root: DirView, at: Seq<int>, names: Seq<Seq<char>>)
    ensures
        walk(root, at, names) == walk(root, at, undotted(names)),
    decreases names.len(),
{
    if names.len() > 0 {
        let rest = names.drop_first();
        if names[0] == dot() {
            assert(dot().len() != dot_dot().len());
            lemma_walk_undotted(root, at, rest);
        } else {
            assert(undotted(names)[0] == names[0]);
            assert(undotted(names).drop_first() =~= undotted(rest));
            if let Ok(next) = step(root, at, names[0]) {
                lemma_walk_undotted(root, next, rest);
            }
        }
    }
}

/// A creation passes over every `.`.
pub proof fn lemma_make_dirs_undotted(root: DirView, at: Seq<int>, names: Seq<Seq<char>>)
    ensures
        make_dirs(root, at, names) == make_dirs(root, at, undotted(names)),
    decreases names.len(),
{
    if names.len() > 0 {
        let rest = names.drop_first();
        if names[0] == dot() {
            assert(dot().len() != dot_dot().len());
            lemma_make_dirs_undotted(root, at, rest);
        } else {
            assert(undotted(names)[0] == names[0]);
            assert(undotted(names).drop_first() =~= undotted(rest));
            let (next_root, next_at) = make_step(root, at, names[0]);
            lemma_make_dirs_undotted(next_root, next_at, rest);
        }
    }
}

/// What was created is there, once: after a directory creation at an
/// absolute path without `..`, the path leads to a directory, and the same
/// creation once more changes nothing. Where the path led nowhere before,
/// the directory it leads to is empty and called by the last segment that
/// is not `.`.
pub proof fn lemma_mkdir_then_resolve(fs: FsView, path: Seq<char>)
    requires
        is_absolute(path),
        level(segments(path)),
        fs.mkdir(path) is Ok,
    ensures
        fs.mkdir(path)->Ok_0.resolve(path) is Ok,
        fs.mkdir(path)->Ok_0.mkdir(path) == fs.mkdir(path),
        fs.resolve(path) is Err ==> ({
            let after = fs.mkdir(path)->Ok_0;
            let made = after.root.at(after.resolve(path)->Ok_0);
            made.name == undotted(segments(path)).last() && made.subdirectories.len() == 0
                && made.files.len() == 0
        }),
{
    let after = fs.mkdir(path)->Ok_0;
    let top = Seq::<int>::empty();
    let names = undotted(segments(path));
    lemma_undotted_plain(segments(path));
    lemma_make_dirs_undotted(fs.root, top, segments(path));
    lemma_make_dirs_undotted(after.root, top, segments(path));
    lemma_walk_undotted(fs.root, top, segments(path));
    lemma_walk_undotted(after.root, top, segments(path));
    lemma_made_is_there(fs.root, names);
    lemma_made_twice(fs.root, names);
    lemma_walk_plain(after.root, top, names);
    if fs.resolve(path) is Err {
        lemma_walk_plain(fs.root, top, names);
        lemma_made_new_is_empty(fs.root, names);
    }
}

/// The first file of a name stays the first when a file is added: a
/// file that was found is found at the same place, and one that was not is
/// found behind all others if the added file has its name.
pub proof fn lemma_first_file_stays(d: DirView, file: FileView, name: Seq<char>)
    ensures
        d.find_file(name) is Some ==> d.with_file(file).find_file(name) == d.find_file(name),
        d.find_file(name) is None && file.name == name ==> d.with_file(file).find_file(name)
            == Some(d.files.len() as int),
        d.find_file(name) is None && file.name != name ==> d.with_file(file).find_file(name)
            is None,
{
    let names = d.file_names();
    let grown = d.with_file(file).file_names();
    assert(grown =~= names.push(file.name));
    lemma_index_of(names, name);
    let k = index_of(names, name) as int;
    if k < names.len() {
        lemma_index_of_is(grown, name, k);
    } else if file.name == name {
        lemma_index_of_is(grown, name, k);
    } else {
        lemma_index_of_is(grown, name, k + 1);
    }
}

/// A path, a slash and a valid name are cut into that path and that name.
pub proof fn lemma_parent_and_leaf(path: Seq<char>, name: Seq<char>)
    requires
        valid_name(name),
    ensures
        has_slash(path + seq!['/'] + name),
        parent_and_leaf(path + seq!['/'] + name) == (path, name),
{
    lemma_last_index_of_is(path + seq!['/'] + name, '/', path.len() as int);
}

/// Adding a file to the directory to which an absolute path without `.`
/// and `..` leads changes nothing about where the path leads.
pub proof fn lemma_touch_keeps_way(fs: FsView, path: Seq<char>, file: FileView)
    requires
        is_absolute(path),
        plain(segments(path)),
        fs.resolve(path) is Ok,
    ensures
        fs.touch(path, file).resolve(path) == fs.resolve(path),
        fs.touch(path, file).root.at(fs.resolve(path)->Ok_0) == fs.root.at(
            fs.resolve(path)->Ok_0,
        ).with_file(file),
{
    let at = fs.resolve(path)->Ok_0;
    let names = segments(path);
    let here = fs.root.at(at);
    let after = fs.touch(path, file);
    lemma_resolve_has(fs, path);
    lemma_walk_plain(fs.root, Seq::empty(), names);
    lemma_descend_put(fs.root, names, here.with_file(file));
    lemma_walk_plain(after.root, Seq::empty(), names);
    lemma_put_at(fs.root, at, here.with_file(file));
}

/// A file that was added is read back: after a file with a valid name was
/// added to the directory to which an absolute path without `.` and `..`
/// leads, the path, a slash and the name name the first file of that name
/// in the directory. That is the added file where no file had the name
/// before, and the file that had it first where one did.
pub proof fn lemma_touch_then_locate(fs: FsView, path: Seq<char>, file: FileView)
    requires
        is_absolute(path),
        plain(segments(path)),
        fs.resolve(path) is Ok,
        valid_name(file.name),
    ensures
        ({
            let at = fs.resolve(path)->Ok_0;
            let here = fs.root.at(at);
            let after = fs.touch(path, file);
            let full = path + seq!['/'] + file.name;
            match here.find_file(file.name) {
                Some(i) => after.locate_file(full) == Ok::<(Seq<int>, int), FsErrorView>((at, i))
                    && after.root.at(at).files[i] == here.files[i],
                None => after.locate_file(full) == Ok::<(Seq<int>, int), FsErrorView>(
                    (at, here.files.len() as int),
                ) && after.root.at(at).files[here.files.len() as int] == file,
            }
        }),
{
    lemma_parent_and_leaf(path, file.name);
    lemma_touch_keeps_way(fs, path, file);
    lemma_first_file_stays(fs.root.at(fs.resolve(path)->Ok_0), file, file.name);
}

} // verus!
