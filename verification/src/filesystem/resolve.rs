//! What path resolution means: where a path leads in a tree, segment by
//! segment.

use vstd::prelude::*;
use crate::error::{FsError, FsErrorView};
use crate::filesystem::file::{ContentView, FileView};
use crate::filesystem::tree::{empty_dir, DirView};
use crate::path::{dot, dot_dot, has_slash, is_absolute, parent_and_leaf, segments};

verus! {

/// Mathematical counterpart of the filesystem: the tree below the root, and
/// the path of the current directory.
pub struct FsView {
    pub root: DirView,
    pub current_directory: Seq<char>,
}

/// The address one step above `at`; the root is its own parent.
pub open spec fn parent_of(at: Seq<int>) -> Seq<int> {
    if at.len() == 0 {
        at
    } else {
        at.drop_last()
    }
}

/// Where one segment leads from the directory at `at`: `..` to the parent,
/// `.` nowhere, any other segment to the first subdirectory of that name.
pub open spec fn step(root: DirView, at: Seq<int>, segment: Seq<char>) -> Result<
    Seq<int>,
    FsErrorView,
> {
    if segment == dot_dot() {
        Ok(parent_of(at))
    } else if segment == dot() {
        Ok(at)
    } else {
        match root.at(at).find_dir(segment) {
            Some(i) => Ok(at.push(i)),
            None => Err(FsErrorView::NotFound(segment)),
        }
    }
}

/// Where `segments` lead from the directory at `at`, one step after the
/// other; the first step that fails ends the walk.
pub open spec fn walk(root: DirView, at: Seq<int>, segments: Seq<Seq<char>>) -> Result<
    Seq<int>,
    FsErrorView,
>
    decreases segments.len(),
{
    if segments.len() == 0 {
        Ok(at)
    } else {
        match step(root, at, segments[0]) {
            Ok(next) => walk(root, next, segments.drop_first()),
            Err(e) => Err(e),
        }
    }
}

/// The parent path that a directory created in `d` stores: the path of `d`
/// followed by a slash, and one slash alone where `d` is the root.
pub open spec fn child_prefix(d: DirView) -> Seq<char> {
    let base = match d.parent {
        Some(p) => p,
        None => seq!['/'],
    };
    if d.name == seq!['/'] {
        base
    } else {
        base + d.name + seq!['/']
    }
}

/// The tree after one segment of a directory creation, and the address at
/// which the creation goes on: `..` leads to the parent, `.` nowhere; any
/// other segment leads into the first subdirectory of that name, which is
/// created empty behind the others if there is none.
pub open spec fn make_step(root: DirView, at: Seq<int>, segment: Seq<char>) -> (DirView, Seq<int>) {
    if segment == dot_dot() {
        (root, parent_of(at))
    } else if segment == dot() {
        (root, at)
    } else {
        let here = root.at(at);
        match here.find_dir(segment) {
            Some(i) => (root, at.push(i)),
            None => (
                root.put(at, here.with_dir(empty_dir(segment, Some(child_prefix(here))))),
                at.push(here.subdirectories.len() as int),
            ),
        }
    }
}

/// The tree after the creation of every directory that is missing along
/// `segments`, from the directory at `at` on.
pub open spec fn make_dirs(root: DirView, at: Seq<int>, segments: Seq<Seq<char>>) -> DirView
    decreases segments.len(),
{
    if segments.len() == 0 {
        root
    } else {
        let (next_root, next_at) = make_step(root, at, segments[0]);
        make_dirs(next_root, next_at, segments.drop_first())
    }
}

/// The labels of the entries of `d`: the subdirectories, then the files.
pub open spec fn entry_labels(d: DirView) -> Seq<Seq<char>> {
    d.subdirectories.map_values(|sub: DirView| sub.label()) + d.files.map_values(
        |file: FileView| file.label(),
    )
}

/// The mark that stands before an entry of a listing: a corner before the
/// last entry, a branch before every other.
pub open spec fn branch(last: bool) -> Seq<char> {
    if last {
        " └─"@
    } else {
        " ├─"@
    }
}

/// The lines that list the entries of `d`, each behind its mark.
pub open spec fn entry_lines(d: DirView) -> Seq<Seq<char>> {
    let labels = entry_labels(d);
    Seq::new(labels.len(), |k: int| branch(k == labels.len() - 1) + labels[k])
}

/// Whether `r` and `after` are what an operation leaves that was to make
/// `outcome` of the filesystem `before`: on success the new filesystem, on
/// failure the error and the filesystem as it was.
pub open spec fn changed(
    before: FsView,
    outcome: Result<FsView, FsErrorView>,
    r: Result<(), FsError>,
    after: FsView,
) -> bool {
    match outcome {
        Ok(fs) => r is Ok && after == fs,
        Err(e) => r is Err && r->Err_0@ == e && after == before,
    }
}

impl FsView {
    /// The lines that list the current directory: its path and a colon,
    /// then its entries, or in their place one line that says that the
    /// current directory could not be found.
    pub open spec fn listing(self) -> Seq<Seq<char>> {
        seq![self.current_directory + ":"@] + match self.resolve(self.current_directory) {
            Ok(at) => entry_lines(self.root.at(at)),
            Err(_) => seq!["Failed to get current directory from path!"@],
        }
    }

    /// The address from which a directory creation at `path` starts: the
    /// root if the path starts with a slash, else where the path of the
    /// current directory leads.
    pub open spec fn make_start(self, path: Seq<char>) -> Result<Seq<int>, FsErrorView> {
        if is_absolute(path) {
            Ok(Seq::empty())
        } else {
            self.resolve(self.current_directory)
        }
    }

    /// What a directory creation at `path` makes of the filesystem.
    pub open spec fn mkdir(self, path: Seq<char>) -> Result<FsView, FsErrorView> {
        match self.make_start(path) {
            Ok(at) => if segments(path).len() == 0 {
                Err(FsErrorView::EmptyPath)
            } else {
                Ok(FsView { root: make_dirs(self.root, at, segments(path)), ..self })
            },
            Err(e) => Err(e),
        }
    }

    /// The address of the current directory: where the segments of its path
    /// lead from the root, each taken as a name.
    pub open spec fn current(self) -> Result<Seq<int>, FsErrorView> {
        match self.root.descend(segments(self.current_directory)) {
            Ok(at) => Ok(at),
            Err(missing) => Err(FsErrorView::NotFound(missing)),
        }
    }

    /// The address of the directory to which `path` leads: from the root if
    /// the path starts with a slash, else from the current directory.
    pub open spec fn resolve(self, path: Seq<char>) -> Result<Seq<int>, FsErrorView> {
        if is_absolute(path) {
            walk(self.root, Seq::empty(), segments(path))
        } else {
            match self.current() {
                Ok(start) => walk(self.root, start, segments(path)),
                Err(e) => Err(e),
            }
        }
    }

    /// The directory in which a path looks for the entry it names, and the
    /// name it looks for: with a slash, the part before the last slash (the
    /// root if that part is empty) and the part behind it; without one, the
    /// current directory and the whole path.
    pub open spec fn entry_site(self, path: Seq<char>) -> (Result<Seq<int>, FsErrorView>, Seq<char>) {
        if has_slash(path) {
            let (parent, leaf) = parent_and_leaf(path);
            if parent.len() == 0 {
                (Ok(Seq::empty()), leaf)
            } else {
                (self.resolve(parent), leaf)
            }
        } else {
            (self.resolve(self.current_directory), path)
        }
    }

    /// The address of the directory that holds the file that `path` names,
    /// and the position of the file in it.
    pub open spec fn locate_file(self, path: Seq<char>) -> Result<(Seq<int>, int), FsErrorView> {
        let (dir, name) = self.entry_site(path);
        match dir {
            Ok(at) => match self.root.at(at).find_file(name) {
                Some(i) => Ok((at, i)),
                None => Err(FsErrorView::NotFound(name)),
            },
            Err(e) => Err(e),
        }
    }

    /// The key of the program that the file that `path` names holds.
    pub open spec fn program_key(self, path: Seq<char>) -> Result<u64, FsErrorView> {
        match self.locate_file(path) {
            Ok((at, i)) => match self.root.at(at).files[i].content {
                ContentView::Executable(key) => Ok(key),
                _ => Err(FsErrorView::NotExecutable),
            },
            Err(e) => Err(e),
        }
    }

    /// What adding `file` to the directory to which `path` leads makes of
    /// the filesystem; nothing changes where the path leads nowhere.
    pub open spec fn touch(self, path: Seq<char>, file: FileView) -> FsView {
        match self.resolve(path) {
            Ok(at) => self.put(at, self.root.at(at).with_file(file)),
            Err(_) => self,
        }
    }

    /// What making the directory to which `path` leads the current one
    /// makes of the filesystem: the full path of that directory becomes the
    /// current path.
    pub open spec fn cd(self, path: Seq<char>) -> Result<FsView, FsErrorView> {
        match self.resolve(path) {
            Ok(at) => Ok(FsView { current_directory: self.root.at(at).path(), ..self }),
            Err(e) => Err(e),
        }
    }

    /// The name and the text of the file that `path` names.
    pub open spec fn cat(self, path: Seq<char>) -> Result<(Seq<char>, Seq<char>), FsErrorView> {
        match self.locate_file(path) {
            Ok((at, i)) => match self.root.at(at).files[i].content {
                ContentView::Text(text) => Ok((self.root.at(at).files[i].name, text)),
                _ => Err(FsErrorView::NotReadable),
            },
            Err(e) => Err(e),
        }
    }

    /// What replacing the content of the file that `path` names makes of
    /// the filesystem.
    pub open spec fn edit_file(self, path: Seq<char>, content: ContentView) -> Result<
        FsView,
        FsErrorView,
    > {
        match self.locate_file(path) {
            Ok((at, i)) => {
                let dir = self.root.at(at);
                Ok(self.put(at, dir.with_file_at(i, FileView { content, ..dir.files[i] })))
            },
            Err(e) => Err(e),
        }
    }

    /// What removing the file that `path` names makes of the filesystem:
    /// the first file of the leaf's name leaves its directory.
    pub open spec fn rm_file(self, path: Seq<char>) -> Result<FsView, FsErrorView> {
        match self.entry_site(path) {
            (Ok(at), leaf) => match self.root.at(at).find_file(leaf) {
                Some(i) => Ok(self.put(at, self.root.at(at).without_file(i))),
                None => Err(FsErrorView::NotFound(leaf)),
            },
            (Err(e), _) => Err(e),
        }
    }

    /// What removing the directory that `path` names makes of the
    /// filesystem: the first subdirectory of the leaf's name leaves its
    /// directory, with all that is below it.
    pub open spec fn rm_dir(self, path: Seq<char>) -> Result<FsView, FsErrorView> {
        match self.entry_site(path) {
            (Ok(at), leaf) => match self.root.at(at).find_dir(leaf) {
                Some(i) => Ok(self.put(at, self.root.at(at).without_dir(i))),
                None => Err(FsErrorView::NotFound(leaf)),
            },
            (Err(e), _) => Err(e),
        }
    }

    /// This filesystem with the directory at `at` replaced by `d`.
    pub open spec fn put(self, at: Seq<int>, d: DirView) -> FsView {
        FsView { root: self.root.put(at, d), ..self }
    }
}

} // verus!
