//! Directories and the operations on one directory.

use vstd::prelude::*;
use crate::error::{FsError, FsErrorView};
use crate::filesystem::file::File;
use crate::filesystem::tree::{
    dir_replaced, empty_dir, file_replaced, ints, lemma_at_push, lemma_dir_replaced,
    lemma_file_replaced, lemma_has_push, lemma_has_take, lemma_view, DirView,
};
use crate::path::{segments, split_segments, texts};
use crate::text::lemma_index_of_is;

verus! {

broadcast use lemma_view;

/// A named node of the tree that owns its subdirectories and its files.
///
/// `parent` is the path of the directory above, ending in a slash; only the
/// root has none.
#[derive(Debug, PartialEq, Eq)]
pub struct Directory {
    pub name: String,
    pub parent: Option<String>,
    pub subdirectories: Vec<Directory>,
    pub files: Vec<File>,
}

impl Directory {
    /// The full path of the directory.
    pub fn get_path(&self) -> (path: String)
        ensures
            path@ == self@.path(),
    {
        match &self.parent {
            Some(parent) => parent.clone().concat(self.name.as_str()),
            None => self.name.clone(),
        }
    }

    /// Position of the first subdirectory called `name`.
    pub fn position_of_dir(&self, name: &str) -> (r: Option<usize>)
        ensures
            match r {
                Some(i) => self@.find_dir(name@) == Some(i as int),
                None => self@.find_dir(name@) is None,
            },
    {
        let mut i: usize = 0;
        while i < self.subdirectories.len()
            invariant
                i <= self.subdirectories.len(),
                forall|j: int| 0 <= j < i ==> self@.dir_names()[j] != name@,
            decreases self.subdirectories.len() - i,
        {
            if self.subdirectories[i].name.as_str().eq(name) {
                proof {
                    lemma_index_of_is(self@.dir_names(), name@, i as int);
                }
                return Some(i);
            }
            i += 1;
        }
        proof {
            lemma_index_of_is(self@.dir_names(), name@, i as int);
        }
        None
    }

    /// Position of the first file called `name`.
    pub fn position_of_file(&self, name: &str) -> (r: Option<usize>)
        ensures
            match r {
                Some(i) => self@.find_file(name@) == Some(i as int),
                None => self@.find_file(name@) is None,
            },
    {
        let mut i: usize = 0;
        while i < self.files.len()
            invariant
                i <= self.files.len(),
                forall|j: int| 0 <= j < i ==> self@.file_names()[j] != name@,
            decreases self.files.len() - i,
        {
            if self.files[i].name.as_str().eq(name) {
                proof {
                    lemma_index_of_is(self@.file_names(), name@, i as int);
                }
                return Some(i);
            }
            i += 1;
        }
        proof {
            lemma_index_of_is(self@.file_names(), name@, i as int);
        }
        None
    }

    /// The first subdirectory called `name`.
    pub fn find_directory(&self, name: &str) -> (r: Option<&Directory>)
        ensures
            match self@.find_dir(name@) {
                Some(i) => r is Some && r->0@ == self@.subdirectories[i],
                None => r is None,
            },
    {
        match self.position_of_dir(name) {
            Some(i) => Some(&self.subdirectories[i]),
            None => None,
        }
    }

    /// The first file called `name`.
    pub fn find_file(&self, name: String) -> (r: Option<&File>)
        ensures
            match self@.find_file(name@) {
                Some(i) => r is Some && r->0@ == self@.files[i],
                None => r is None,
            },
    {
        match self.position_of_file(name.as_str()) {
            Some(i) => Some(&self.files[i]),
            None => None,
        }
    }

    /// Whether a subdirectory called `name` exists.
    pub fn has_subdir(&self, name: &str) -> (r: bool)
        ensures
            r == self@.find_dir(name@) is Some,
    {
        self.position_of_dir(name).is_some()
    }

    /// Adds `file` behind the files, whatever their names.
    pub fn touch(&mut self, file: File)
        ensures
            final(self)@ == old(self)@.with_file(file@),
    {
        self.files.push(file);
        assert(self@.files =~= old(self)@.files.push(file@));
    }

    /// The first subdirectory called `name`, for changing it.
    pub fn find_directory_mut(&mut self, name: &str) -> (r: Option<&mut Directory>)
        ensures
            match old(self)@.find_dir(name@) {
                Some(i) => r is Some && r->0@ == old(self)@.subdirectories[i] && final(self)@
                    == old(self)@.with_dir_at(i, final(r->0)@),
                None => r is None && final(self)@ == old(self)@,
            },
    {
        match self.position_of_dir(name) {
            Some(i) => {
                let ghost before = *self;
                assert forall|after: Directory| dir_replaced(before, after, i as int) implies (
                #[trigger] after@) == before@.with_dir_at(
                    i as int,
                    after.subdirectories@[i as int]@,
                ) by {
                    lemma_dir_replaced(before, after, i as int);
                }
                Some(&mut self.subdirectories[i])
            },
            None => None,
        }
    }

    /// The first file called `name`, for changing it.
    pub fn find_file_mut(&mut self, name: String) -> (r: Option<&mut File>)
        ensures
            match old(self)@.find_file(name@) {
                Some(i) => r is Some && r->0@ == old(self)@.files[i]
                    && final(self)@ == old(self)@.with_file_at(i, final(r->0)@),
                None => r is None && final(self)@ == old(self)@,
            },
    {
        match self.position_of_file(name.as_str()) {
            Some(i) => {
                let ghost before = *self;
                assert forall|after: Directory| file_replaced(before, after, i as int) implies (
                #[trigger] after@) == before@.with_file_at(i as int, after.files@[i as int]@) by {
                    lemma_file_replaced(before, after, i as int);
                }
                Some(&mut self.files[i])
            },
            None => None,
        }
    }

    /// Creates an empty subdirectory called `name` that stores `parent_path`
    /// as the path of its parent, unless one of that name exists.
    pub fn make_subdir(&mut self, name: &str, parent_path: String) -> (r: Result<
        &mut Directory,
        FsError,
    >)
        ensures
            match r {
                Ok(d) => old(self)@.find_dir(name@) is None && d@ == empty_dir(
                    name@,
                    Some(parent_path@),
                ) && final(self)@ == old(self)@.with_dir(final(d)@),
                Err(e) => old(self)@.find_dir(name@) is Some && e@
                    == FsErrorView::DirAlreadyExists(name@) && final(self)@ == old(self)@,
            },
    {
        if self.has_subdir(name) {
            return Err(FsError::DirAlreadyExists(name.to_owned()));
        }
        let new_dir = Directory {
            name: name.to_owned(),
            parent: Some(parent_path),
            files: Vec::new(),
            subdirectories: Vec::new(),
        };
        proof {
            assert(new_dir@.subdirectories =~= Seq::<DirView>::empty());
            assert(new_dir@.files =~= Seq::empty());
        }
        self.subdirectories.push(new_dir);
        let index = self.subdirectories.len() - 1;
        let ghost before = *self;
        assert forall|after: Directory| dir_replaced(before, after, index as int) implies (
        #[trigger] after@) == old(self)@.with_dir(after.subdirectories@[index as int]@) by {
            assert(after@.subdirectories =~= old(self)@.with_dir(
                after.subdirectories@[index as int]@,
            ).subdirectories);
        }
        Ok(&mut self.subdirectories[index])
    }

    /// Removes the first file called `name`.
    pub fn rm_file(&mut self, name: &str) -> (r: Result<(), FsError>)
        ensures
            match old(self)@.find_file(name@) {
                Some(i) => r is Ok && final(self)@ == old(self)@.without_file(i),
                None => r is Err && r->Err_0@ == FsErrorView::NotFound(name@) && final(self)@
                    == old(self)@,
            },
    {
        match self.position_of_file(name) {
            Some(index) => {
                self.files.remove(index);
                assert(self@.files =~= old(self)@.files.remove(index as int));
                Ok(())
            },
            None => Err(FsError::NotFound(name.to_owned())),
        }
    }

    /// Removes the first subdirectory called `name`, with all that is below
    /// it.
    pub fn rm_dir(&mut self, name: &str) -> (r: Result<(), FsError>)
        ensures
            match old(self)@.find_dir(name@) {
                Some(i) => r is Ok && final(self)@ == old(self)@.without_dir(i),
                None => r is Err && r->Err_0@ == FsErrorView::NotFound(name@) && final(self)@
                    == old(self)@,
            },
    {
        match self.position_of_dir(name) {
            Some(index) => {
                self.subdirectories.remove(index);
                assert(self@.subdirectories =~= old(self)@.subdirectories.remove(index as int));
                Ok(())
            },
            None => Err(FsError::NotFound(name.to_owned())),
        }
    }

    /// The line that shows the directory in a listing.
    pub fn to_text(&self) -> (label: String)
        ensures
            label@ == self@.label(),
    {
        "📁 ".to_owned().concat(self.name.as_str())
    }

    /// The address to which going down by `names` leads, one subdirectory
    /// per name and always the first of that name; `Err` with the first name
    /// that is missing.
    pub fn descend(&self, names: &Vec<String>) -> (r: Result<Vec<usize>, String>)
        ensures
            match self@.descend(texts(names@)) {
                Ok(at) => r is Ok && ints(r->Ok_0@) == at && self@.has(at),
                Err(missing) => r is Err && r->Err_0@ == missing,
            },
    {
        let mut at: Vec<usize> = Vec::new();
        let mut current = self;
        let mut k: usize = 0;
        proof {
            assert(texts(names@).skip(0) =~= texts(names@));
        }
        while k < names.len()
            invariant
                k <= names.len(),
                self@.has(ints(at@)),
                current@ == self@.at(ints(at@)),
                self@.descend(texts(names@)) == self@.descend_below(
                    ints(at@),
                    texts(names@).skip(k as int),
                ),
            decreases names.len() - k,
        {
            let ghost rest = texts(names@).skip(k as int);
            let ghost here = ints(at@);
            proof {
                assert(rest.drop_first() =~= texts(names@).skip(k + 1));
            }
            match current.position_of_dir(names[k].as_str()) {
                Some(i) => {
                    proof {
                        lemma_at_push(self@, here, i as int);
                        assert(ints(at@.push(i)) =~= here.push(i as int));
                        let below = current@.subdirectories[i as int].descend(rest.drop_first());
                        if below is Ok {
                            assert(here + (seq![i as int] + below->Ok_0) =~= here.push(i as int)
                                + below->Ok_0);
                        }
                    }
                    current = &current.subdirectories[i];
                    at.push(i);
                },
                None => {
                    return Err(names[k].clone());
                },
            }
            k += 1;
        }
        Ok(at)
    }

    /// The directory that `at` addresses.
    pub fn dir_at(&self, at: &Vec<usize>) -> (r: &Directory)
        requires
            self@.has(ints(at@)),
        ensures
            r@ == self@.at(ints(at@)),
    {
        let mut current = self;
        let mut k: usize = 0;
        while k < at.len()
            invariant
                k <= at.len(),
                self@.has(ints(at@)),
                self@.has(ints(at@).take(k as int)),
                current@ == self@.at(ints(at@).take(k as int)),
            decreases at.len() - k,
        {
            proof {
                let shorter = ints(at@).take(k as int);
                lemma_has_take(self@, ints(at@), k + 1);
                assert(ints(at@).take(k + 1) =~= shorter.push(at@[k as int] as int));
                lemma_has_push(self@, shorter, at@[k as int] as int);
                lemma_at_push(self@, shorter, at@[k as int] as int);
            }
            current = &current.subdirectories[at[k]];
            k += 1;
        }
        proof {
            assert(ints(at@).take(k as int) =~= ints(at@));
        }
        current
    }

    /// The directory that `at` addresses, for changing it.
    pub fn dir_at_mut(&mut self, at: &Vec<usize>) -> (r: &mut Directory)
        requires
            old(self)@.has(ints(at@)),
        ensures
            r@ == old(self)@.at(ints(at@)),
            final(self)@ == old(self)@.put(ints(at@), final(r)@),
    {
        proof {
            assert(ints(at@).skip(0) =~= ints(at@));
        }
        self.dir_at_mut_from(at, 0)
    }

    /// The directory that `at`, read from position `k` on, addresses, for
    /// changing it.
    fn dir_at_mut_from(&mut self, at: &Vec<usize>, k: usize) -> (r: &mut Directory)
        requires
            k <= at.len(),
            old(self)@.has(ints(at@).skip(k as int)),
        ensures
            r@ == old(self)@.at(ints(at@).skip(k as int)),
            final(self)@ == old(self)@.put(ints(at@).skip(k as int), final(r)@),
        decreases at.len() - k,
    {
        if k == at.len() {
            self
        } else {
            let i = at[k];
            let ghost before = *self;
            let ghost rest = ints(at@).skip(k as int);
            proof {
                assert(rest.drop_first() =~= ints(at@).skip(k + 1));
                assert forall|after: Directory, x: DirView|
                    dir_replaced(before, after, i as int) && after.subdirectories@[i as int]@
                        == before@.subdirectories[i as int].put(
                        rest.drop_first(),
                        x,
                    ) implies #[trigger] after@ == #[trigger] before@.put(rest, x) by {
                    lemma_dir_replaced(before, after, i as int);
                }
            }
            let child = &mut self.subdirectories[i];
            child.dir_at_mut_from(at, k + 1)
        }
    }

    /// The directory to which `path` leads from here, segment by segment.
    pub fn get_child(&self, path: &str) -> (r: Option<&Directory>)
        ensures
            match self@.descend(segments(path@)) {
                Ok(at) => r is Some && r->0@ == self@.at(at),
                Err(_) => r is None,
            },
    {
        let names = split_segments(path);
        match self.descend(&names) {
            Ok(at) => Some(self.dir_at(&at)),
            Err(_) => None,
        }
    }

    /// The directory to which `path` leads from here, segment by segment, for
    /// changing it. The empty path leads nowhere.
    pub fn get_mut_child(&mut self, path: &str) -> (r: Option<&mut Directory>)
        ensures
            path@.len() == 0 ==> r is None && final(self)@ == old(self)@,
            path@.len() > 0 ==> match old(self)@.descend(segments(path@)) {
                Ok(at) => r is Some && r->0@ == old(self)@.at(at)
                    && final(self)@ == old(self)@.put(at, final(r->0)@),
                Err(_) => r is None && final(self)@ == old(self)@,
            },
    {
        if path.is_empty() {
            return None;
        }
        let names = split_segments(path);
        match self.descend(&names) {
            Ok(at) => Some(self.dir_at_mut(&at)),
            Err(_) => None,
        }
    }
}

} // verus!
