//! The mathematical model of the directory tree: what a directory is as a
//! value, how a directory below another is addressed, and what it means to
//! replace one.
//!
//! A directory below another is addressed by the positions to take, from the
//! top, among the subdirectories of each directory on the way.

use vstd::prelude::*;
use crate::filesystem::directory::Directory;
use crate::filesystem::file::{File, FileView};
use crate::path::text_of;
use crate::text::index_of;

verus! {

/// Mathematical counterpart of [`Directory`].
pub struct DirView {
    pub name: Seq<char>,
    pub parent: Option<Seq<char>>,
    pub subdirectories: Seq<DirView>,
    pub files: Seq<FileView>,
}

/// The views of the files of `files`, in order.
pub open spec fn file_views(files: Seq<File>) -> Seq<FileView> {
    files.map_values(|f: File| f@)
}

impl View for Directory {
    type V = DirView;

    open spec fn view(&self) -> DirView
        decreases self,
    {
        DirView {
            name: self.name@,
            parent: text_of(self.parent),
            subdirectories: Seq::new(
                self.subdirectories@.len(),
                |i: int|
                    if 0 <= i < self.subdirectories@.len() {
                        self.subdirectories@[i]@
                    } else {
                        arbitrary()
                    },
            ),
            files: file_views(self.files@),
        }
    }
}

/// The view of a directory, field by field.
pub broadcast proof fn lemma_view(d: Directory)
    ensures
        (#[trigger] d@).name == d.name@,
        d@.parent == text_of(d.parent),
        d@.files == file_views(d.files@),
        d@.subdirectories.len() == d.subdirectories@.len(),
        forall|i: int|
            0 <= i < d.subdirectories@.len() ==> #[trigger] d@.subdirectories[i]
                == d.subdirectories@[i]@,
{
    reveal_with_fuel(<Directory as View>::view, 2);
}

/// The positions of `v` as mathematical integers.
pub open spec fn ints(v: Seq<usize>) -> Seq<int> {
    v.map_values(|i: usize| i as int)
}

/// Whether `after` is `before` but for the subdirectory at position `i`.
pub open spec fn dir_replaced(before: Directory, after: Directory, i: int) -> bool {
    &&& 0 <= i < before.subdirectories@.len()
    &&& after.name == before.name
    &&& after.parent == before.parent
    &&& after.files == before.files
    &&& after.subdirectories@ == before.subdirectories@.update(i, after.subdirectories@[i])
}

/// Whether `after` is `before` but for the file at position `i`.
pub open spec fn file_replaced(before: Directory, after: Directory, i: int) -> bool {
    &&& 0 <= i < before.files@.len()
    &&& after.name == before.name
    &&& after.parent == before.parent
    &&& after.subdirectories == before.subdirectories
    &&& after.files@ == before.files@.update(i, after.files@[i])
}

/// Replacing a subdirectory of a directory replaces it in the view.
pub proof fn lemma_dir_replaced(before: Directory, after: Directory, i: int)
    requires
        dir_replaced(before, after, i),
    ensures
        after@ == before@.with_dir_at(i, after.subdirectories@[i]@),
{
    lemma_view(before);
    lemma_view(after);
    let target = before@.with_dir_at(i, after.subdirectories@[i]@);
    assert(after@.subdirectories =~= target.subdirectories) by {
        assert forall|j: int| 0 <= j < after@.subdirectories.len() implies after@.subdirectories[j]
            == target.subdirectories[j] by {}
    }
}

/// Replacing a file of a directory replaces it in the view.
pub proof fn lemma_file_replaced(before: Directory, after: Directory, i: int)
    requires
        file_replaced(before, after, i),
    ensures
        after@ == before@.with_file_at(i, after.files@[i]@),
{
    let target = before@.with_file_at(i, after.files@[i]@);
    assert(after@.files =~= target.files);
    assert(after@.subdirectories =~= target.subdirectories) by {
        assert forall|j: int| 0 <= j < after@.subdirectories.len() implies after@.subdirectories[j]
            == target.subdirectories[j] by {}
    }
}

/// An empty directory of the given name and stored parent path.
pub open spec fn empty_dir(name: Seq<char>, parent: Option<Seq<char>>) -> DirView {
    DirView { name, parent, subdirectories: Seq::empty(), files: Seq::empty() }
}

impl DirView {
    /// The full path: the stored parent path, if there is one, followed by
    /// the name.
    pub open spec fn path(self) -> Seq<char> {
        match self.parent {
            Some(p) => p + self.name,
            None => self.name,
        }
    }

    /// The line that shows the directory in a listing.
    pub open spec fn label(self) -> Seq<char> {
        "📁 "@ + self.name
    }

    /// The names of the subdirectories, in order.
    pub open spec fn dir_names(self) -> Seq<Seq<char>> {
        self.subdirectories.map_values(|d: DirView| d.name)
    }

    /// The names of the files, in order.
    pub open spec fn file_names(self) -> Seq<Seq<char>> {
        self.files.map_values(|f: FileView| f.name)
    }

    /// Position of the first subdirectory called `name`.
    pub open spec fn find_dir(self, name: Seq<char>) -> Option<int> {
        let i = index_of(self.dir_names(), name);
        if i < self.subdirectories.len() {
            Some(i as int)
        } else {
            None
        }
    }

    /// Position of the first file called `name`.
    pub open spec fn find_file(self, name: Seq<char>) -> Option<int> {
        let i = index_of(self.file_names(), name);
        if i < self.files.len() {
            Some(i as int)
        } else {
            None
        }
    }

    /// Whether `at` addresses a directory at or below this one.
    pub open spec fn has(self, at: Seq<int>) -> bool
        decreases at.len(),
    {
        at.len() == 0 || (0 <= at[0] < self.subdirectories.len()
            && self.subdirectories[at[0]].has(at.drop_first()))
    }

    /// The directory that `at` addresses.
    pub open spec fn at(self, at: Seq<int>) -> DirView
        recommends
            self.has(at),
        decreases at.len(),
    {
        if at.len() == 0 || !(0 <= at[0] < self.subdirectories.len()) {
            self
        } else {
            self.subdirectories[at[0]].at(at.drop_first())
        }
    }

    /// This directory with the one that `at` addresses replaced by `d`.
    pub open spec fn put(self, at: Seq<int>, d: DirView) -> DirView
        recommends
            self.has(at),
        decreases at.len(),
    {
        if at.len() == 0 {
            d
        } else if 0 <= at[0] < self.subdirectories.len() {
            DirView {
                subdirectories: self.subdirectories.update(
                    at[0],
                    self.subdirectories[at[0]].put(at.drop_first(), d),
                ),
                ..self
            }
        } else {
            self
        }
    }

    /// Where going down by `names`, one subdirectory per name and always the
    /// first of that name, leads; `Err` with the first name that is missing.
    pub open spec fn descend(self, names: Seq<Seq<char>>) -> Result<Seq<int>, Seq<char>>
        decreases names.len(),
    {
        if names.len() == 0 {
            Ok(Seq::empty())
        } else {
            match self.find_dir(names[0]) {
                Some(i) => match self.subdirectories[i].descend(names.drop_first()) {
                    Ok(rest) => Ok(seq![i] + rest),
                    Err(missing) => Err(missing),
                },
                None => Err(names[0]),
            }
        }
    }

    /// Where going down by `names` leads from the directory that `at`
    /// addresses, as an address from this directory.
    pub open spec fn descend_below(self, at: Seq<int>, names: Seq<Seq<char>>) -> Result<
        Seq<int>,
        Seq<char>,
    > {
        match self.at(at).descend(names) {
            Ok(rest) => Ok(at + rest),
            Err(missing) => Err(missing),
        }
    }

    /// This directory with `file` added behind its files.
    pub open spec fn with_file(self, file: FileView) -> DirView {
        DirView { files: self.files.push(file), ..self }
    }

    /// This directory with the file at position `i` replaced by `file`.
    pub open spec fn with_file_at(self, i: int, file: FileView) -> DirView {
        DirView { files: self.files.update(i, file), ..self }
    }

    /// This directory without the file at position `i`.
    pub open spec fn without_file(self, i: int) -> DirView {
        DirView { files: self.files.remove(i), ..self }
    }

    /// This directory with `d` added behind its subdirectories.
    pub open spec fn with_dir(self, d: DirView) -> DirView {
        DirView { subdirectories: self.subdirectories.push(d), ..self }
    }

    /// This directory with the subdirectory at position `i` replaced by `d`.
    pub open spec fn with_dir_at(self, i: int, d: DirView) -> DirView {
        DirView { subdirectories: self.subdirectories.update(i, d), ..self }
    }

    /// This directory without the subdirectory at position `i`, and so
    /// without anything below it.
    pub open spec fn without_dir(self, i: int) -> DirView {
        DirView { subdirectories: self.subdirectories.remove(i), ..self }
    }
}

/// A directory reached and one more position, where that position exists,
/// address the subdirectory at that position.
pub proof fn lemma_at_push(d: DirView, at: Seq<int>, i: int)
    requires
        d.has(at),
        0 <= i < d.at(at).subdirectories.len(),
    ensures
        d.has(at.push(i)),
        d.at(at.push(i)) == d.at(at).subdirectories[i],
    decreases at.len(),
{
    let longer = at.push(i);
    if at.len() == 0 {
        assert(d.subdirectories[i].has(longer.drop_first()));
        assert(d.subdirectories[i].at(longer.drop_first()) == d.subdirectories[i]);
    } else {
        assert(longer.drop_first() =~= at.drop_first().push(i));
        lemma_at_push(d.subdirectories[at[0]], at.drop_first(), i);
    }
}

/// Where an address with one more position is valid, so is the address
/// without it, and the position exists in the directory it reaches.
pub proof fn lemma_has_push(d: DirView, at: Seq<int>, i: int)
    requires
        d.has(at.push(i)),
    ensures
        d.has(at),
        0 <= i < d.at(at).subdirectories.len(),
    decreases at.len(),
{
    if at.len() > 0 {
        assert(at.push(i).drop_first() =~= at.drop_first().push(i));
        lemma_has_push(d.subdirectories[at[0]], at.drop_first(), i);
    }
}

/// Every beginning of a valid address is a valid address.
pub proof fn lemma_has_take(d: DirView, at: Seq<int>, k: int)
    requires
        d.has(at),
        0 <= k <= at.len(),
    ensures
        d.has(at.take(k)),
    decreases at.len() - k,
{
    if k < at.len() {
        lemma_has_take(d, at, k + 1);
        assert(at.take(k + 1) =~= at.take(k).push(at[k]));
        lemma_has_push(d, at.take(k), at[k]);
    } else {
        assert(at.take(k) =~= at);
    }
}

/// After a replacement the address is still valid and reaches what was put
/// there.
pub proof fn lemma_put_at(d: DirView, at: Seq<int>, x: DirView)
    requires
        d.has(at),
    ensures
        d.put(at, x).has(at),
        d.put(at, x).at(at) == x,
    decreases at.len(),
{
    if at.len() > 0 {
        lemma_put_at(d.subdirectories[at[0]], at.drop_first(), x);
    }
}

/// Replacing a directory by itself changes nothing.
pub proof fn lemma_put_same(d: DirView, at: Seq<int>)
    requires
        d.has(at),
    ensures
        d.put(at, d.at(at)) == d,
    decreases at.len(),
{
    if at.len() > 0 {
        lemma_put_same(d.subdirectories[at[0]], at.drop_first());
        assert(d.put(at, d.at(at)).subdirectories =~= d.subdirectories);
    }
}

/// A second replacement at the same address overrides the first.
pub proof fn lemma_put_put(d: DirView, at: Seq<int>, x: DirView, y: DirView)
    requires
        d.has(at),
    ensures
        d.put(at, x).put(at, y) == d.put(at, y),
    decreases at.len(),
{
    if at.len() > 0 {
        lemma_put_put(d.subdirectories[at[0]], at.drop_first(), x, y);
        assert(d.put(at, x).put(at, y).subdirectories =~= d.put(at, y).subdirectories);
    }
}

/// Replacing below a subdirectory is replacing that subdirectory by the
/// result of the replacement in it.
pub proof fn lemma_put_below(d: DirView, i: int, rest: Seq<int>, x: DirView)
    requires
        0 <= i < d.subdirectories.len(),
    ensures
        d.put(seq![i] + rest, x) == d.with_dir_at(i, d.subdirectories[i].put(rest, x)),
{
    let at = seq![i] + rest;
    assert(at.drop_first() =~= rest);
}

/// Replacing the directory that a longer address reaches is replacing, in
/// the directory that the shorter address reaches, one subdirectory.
pub proof fn lemma_put_push(d: DirView, at: Seq<int>, i: int, x: DirView)
    requires
        d.has(at.push(i)),
    ensures
        d.put(at.push(i), x) == d.put(at, d.at(at).with_dir_at(i, x)),
    decreases at.len(),
{
    let longer = at.push(i);
    if at.len() == 0 {
        assert(d.subdirectories[i].put(longer.drop_first(), x) == x);
    } else {
        let child = d.subdirectories[at[0]];
        assert(longer.drop_first() =~= at.drop_first().push(i));
        lemma_put_push(child, at.drop_first(), i, x);
    }
}

} // verus!
