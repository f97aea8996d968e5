//! The filesystem: one root directory that owns the whole tree, and the
//! path of the directory in which the session currently stands.

use vstd::prelude::*;
use crate::error::FsError;
use crate::filesystem::directory::Directory;
use crate::filesystem::file::{File, FileContent, FileView};
use crate::filesystem::laws::{
    lemma_files_wf, lemma_locate_file_has, lemma_mkdir_wf, lemma_path_leads_back,
    lemma_resolve_has, lemma_touch_wf, lemma_without_dir_wf,
};
use crate::filesystem::resolve::{
    changed, child_prefix, entry_lines, make_dirs, walk, FsView,
};
use crate::filesystem::tree::{
    empty_dir, file_replaced, ints, lemma_at_push, lemma_file_replaced, lemma_has_push,
    lemma_put_at, lemma_put_same, lemma_view, DirView,
};
use crate::path::{
    dot, dot_dot, is_absolute, lemma_segments_of_slash, split_segments, starts_at_root, texts,
};
use crate::player::Player;
use crate::programs::Programs;
use crate::text::{chars_of, find_last, slice_of};

pub mod file;
pub mod directory;
pub mod tree;
pub mod resolve;
pub mod laws;

verus! {

broadcast use lemma_view;

/// The whole tree, owned through its root, and the path of the current
/// directory.
///
/// The view holds the path of the current directory as the field holds it.
/// Verified code outside this module reads it with `get_pwd` and writes it
/// with `set_pwd`.
pub struct FileSystem {
    root: Directory,
    pub current_directory: String,
}

impl View for FileSystem {
    type V = FsView;

    closed spec fn view(&self) -> FsView {
        FsView { root: self.root@, current_directory: self.current_directory@ }
    }
}

impl FileSystem {
    /// A filesystem that holds the empty root, which is also the current
    /// directory.
    pub fn new() -> (fs: FileSystem)
        ensures
            fs@.root == empty_dir(seq!['/'], None),
            fs@.current_directory == seq!['/'],
            fs@.wf(),
    {
        proof {
            reveal_strlit("/");
        }
        let root = Directory {
            name: String::from_str("/"),
            parent: None,
            files: Vec::new(),
            subdirectories: Vec::new(),
        };
        let current_directory = root.get_path();
        proof {
            assert(root@.subdirectories =~= Seq::<DirView>::empty());
            assert(root@.files =~= Seq::empty());
            assert(root@.name =~= seq!['/']);
        }
        FileSystem { root, current_directory }
    }

    /// The path of the current directory.
    pub fn get_pwd(&self) -> (path: String)
        ensures
            path@ == self@.current_directory,
    {
        self.current_directory.clone()
    }

    /// Makes `path` the path of the current directory, whether or not it
    /// leads anywhere.
    pub fn set_pwd(&mut self, path: String)
        ensures
            final(self)@ == (FsView { current_directory: path@, ..old(self)@ }),
    {
        self.current_directory = path;
    }

    /// The address of the directory to which `path` leads.
    pub fn resolve(&self, path: &str) -> (r: Result<Vec<usize>, FsError>)
        ensures
            match self@.resolve(path@) {
                Ok(at) => r is Ok && ints(r->Ok_0@) == at && self@.root.has(at),
                Err(e) => r is Err && r->Err_0@ == e,
            },
    {
        let mut at: Vec<usize> = if starts_at_root(path) {
            Vec::new()
        } else {
            let names = split_segments(self.current_directory.as_str());
            match self.root.descend(&names) {
                Ok(at) => at,
                Err(missing) => {
                    return Err(FsError::NotFound(missing));
                },
            }
        };
        let names = split_segments(path);
        let ghost start = ints(at@);
        let ghost all = texts(names@);
        let mut k: usize = 0;
        proof {
            reveal_strlit("..");
            reveal_strlit(".");
            assert(all.skip(0) =~= all);
            if is_absolute(path@) {
                assert(start =~= Seq::<int>::empty());
            }
        }
        while k < names.len()
            invariant
                k <= names.len(),
                all == texts(names@),
                ".."@ == dot_dot(),
                "."@ == dot(),
                self.root@.has(ints(at@)),
                self@.resolve(path@) == walk(self.root@, start, all),
                walk(self.root@, start, all) == walk(self.root@, ints(at@), all.skip(k as int)),
            decreases names.len() - k,
        {
            let ghost rest = all.skip(k as int);
            let ghost here = ints(at@);
            proof {
                assert(rest.drop_first() =~= all.skip(k + 1));
            }
            let name = names[k].as_str();
            if name.eq("..") {
                if at.len() > 0 {
                    proof {
                        assert(here =~= here.drop_last().push(here.last()));
                        lemma_has_push(self.root@, here.drop_last(), here.last());
                    }
                    at.pop();
                    assert(ints(at@) =~= here.drop_last());
                }
            } else if name.eq(".") {
            } else {
                match self.root.dir_at(&at).position_of_dir(name) {
                    Some(i) => {
                        proof {
                            lemma_at_push(self.root@, here, i as int);
                        }
                        at.push(i);
                        assert(ints(at@) =~= here.push(i as int));
                    },
                    None => {
                        return Err(FsError::NotFound(names[k].clone()));
                    },
                }
            }
            k += 1;
        }
        Ok(at)
    }

    /// The current directory, found by going down from the root along the
    /// segments of its path.
    pub fn get_current_dir(&self) -> (r: Option<&Directory>)
        ensures
            match self@.current() {
                Ok(at) => r is Some && r->0@ == self@.root.at(at),
                Err(_) => r is None,
            },
    {
        proof {
            reveal_strlit("/");
        }
        if self.current_directory.as_str().eq("/") {
            proof {
                assert(self.current_directory@ =~= seq!['/']);
                lemma_segments_of_slash();
            }
            return Some(&self.root);
        }
        self.root.get_child(self.current_directory.as_str())
    }

    /// The current directory, for changing it. An empty current path leads
    /// nowhere.
    pub fn get_current_dir_mut(&mut self) -> (r: Option<&mut Directory>)
        ensures
            final(self)@.current_directory == old(self)@.current_directory,
            match old(self)@.current() {
                Ok(at) => if old(self)@.current_directory.len() > 0 {
                    r is Some && r->0@ == old(self)@.root.at(at)
                        && final(self)@.root == old(self)@.root.put(at, final(r->0)@)
                } else {
                    r is None && final(self)@.root == old(self)@.root
                },
                Err(_) => r is None && final(self)@.root == old(self)@.root,
            },
    {
        proof {
            reveal_strlit("/");
        }
        if self.current_directory.as_str().eq("/") {
            proof {
                assert(self.current_directory@ =~= seq!['/']);
                lemma_segments_of_slash();
            }
            return Some(&mut self.root);
        }
        self.root.get_mut_child(self.current_directory.as_str())
    }

    /// The directory to which `path` leads.
    pub fn parse_path(&self, path: &str) -> (r: Result<&Directory, FsError>)
        ensures
            match self@.resolve(path@) {
                Ok(at) => r is Ok && r->Ok_0@ == self@.root.at(at),
                Err(e) => r is Err && r->Err_0@ == e,
            },
    {
        match self.resolve(path) {
            Ok(at) => Ok(self.root.dir_at(&at)),
            Err(e) => Err(e),
        }
    }

    /// The directory to which `path` leads, for changing it.
    pub fn parse_path_mut(&mut self, path: &str) -> (r: Result<&mut Directory, FsError>)
        ensures
            match old(self)@.resolve(path@) {
                Ok(at) => r is Ok && r->Ok_0@ == old(self)@.root.at(at)
                    && final(self)@ == old(self)@.put(at, final(r->Ok_0)@),
                Err(e) => r is Err && r->Err_0@ == e && final(self)@ == old(self)@,
            },
    {
        match self.resolve(path) {
            Ok(at) => Ok(self.root.dir_at_mut(&at)),
            Err(e) => Err(e),
        }
    }

    /// Makes the directory to which `path` leads the current one.
    pub fn cd(&mut self, path: String) -> (r: Result<(), FsError>)
        ensures
            changed(old(self)@, old(self)@.cd(path@), r, final(self)@),
            old(self)@.wf() ==> final(self)@.wf(),
            old(self)@.wf() && r is Ok ==> final(self)@.current() == old(self)@.resolve(path@),
    {
        let new_path = self.parse_path(path.as_str())?.get_path();
        self.current_directory = new_path;
        proof {
            if old(self)@.wf() {
                lemma_resolve_has(old(self)@, path@);
                lemma_path_leads_back(old(self)@, old(self)@.resolve(path@)->Ok_0);
            }
        }
        Ok(())
    }

    /// Adds `file` behind the files of the directory to which `path` leads;
    /// says whether the directory was found.
    pub fn touch(&mut self, path: &str, file: File) -> (done: bool)
        ensures
            done == old(self)@.resolve(path@) is Ok,
            final(self)@ == old(self)@.touch(path@, file@),
            old(self)@.wf() ==> final(self)@.wf(),
    {
        proof {
            if old(self)@.wf() {
                lemma_touch_wf(old(self)@, path@, file@);
            }
        }
        match self.parse_path_mut(path) {
            Ok(dir) => {
                dir.touch(file);
                true
            },
            Err(_) => false,
        }
    }

    /// The address of the directory in which `path` looks for the entry it
    /// names, and the name it looks for.
    fn entry_site(&self, path: &str) -> (r: (Result<Vec<usize>, FsError>, String))
        ensures
            r.1@ == self@.entry_site(path@).1,
            match self@.entry_site(path@).0 {
                Ok(at) => r.0 is Ok && ints(r.0->Ok_0@) == at && self@.root.has(at),
                Err(e) => r.0 is Err && r.0->Err_0@ == e,
            },
    {
        let chars = chars_of(path);
        match find_last(&chars, '/') {
            Some(cut) => {
                let parent = slice_of(path, 0, cut);
                let leaf = slice_of(path, cut + 1, chars.len());
                if parent.as_str().is_empty() {
                    (Ok(Vec::new()), leaf)
                } else {
                    (self.resolve(parent.as_str()), leaf)
                }
            },
            None => (self.resolve(self.current_directory.as_str()), path.to_owned()),
        }
    }

    /// The address of the directory that holds the file that `path` names,
    /// and the position of the file in it.
    pub fn locate_file(&self, path: &str) -> (r: Result<(Vec<usize>, usize), FsError>)
        ensures
            match self@.locate_file(path@) {
                Ok((at, i)) => r is Ok && ints(r->Ok_0.0@) == at && r->Ok_0.1 == i
                    && self@.root.has(at) && 0 <= i < self@.root.at(at).files.len(),
                Err(e) => r is Err && r->Err_0@ == e,
            },
    {
        let (site, name) = self.entry_site(path);
        let at = site?;
        match self.root.dir_at(&at).position_of_file(name.as_str()) {
            Some(i) => Ok((at, i)),
            None => Err(FsError::NotFound(name)),
        }
    }

    /// The file that `path` names.
    pub fn get_file(&self, path: &str) -> (r: Result<&File, FsError>)
        ensures
            match self@.locate_file(path@) {
                Ok((at, i)) => r is Ok && r->Ok_0@ == self@.root.at(at).files[i],
                Err(e) => r is Err && r->Err_0@ == e,
            },
    {
        let (at, i) = self.locate_file(path)?;
        Ok(&self.root.dir_at(&at).files[i])
    }

    /// The file that `path` names, for changing it.
    pub fn get_file_mut(&mut self, path: &str) -> (r: Result<&mut File, FsError>)
        ensures
            match old(self)@.locate_file(path@) {
                Ok((at, i)) => r is Ok && r->Ok_0@ == old(self)@.root.at(at).files[i]
                    && final(self)@ == old(self)@.put(
                    at,
                    old(self)@.root.at(at).with_file_at(i, final(r->Ok_0)@),
                ),
                Err(e) => r is Err && r->Err_0@ == e && final(self)@ == old(self)@,
            },
    {
        let (at, i) = self.locate_file(path)?;
        let dir = self.root.dir_at_mut(&at);
        let ghost before = *dir;
        assert forall|after: Directory| file_replaced(before, after, i as int) implies (
        #[trigger] after@) == before@.with_file_at(i as int, after.files@[i as int]@) by {
            lemma_file_replaced(before, after, i as int);
        }
        Ok(&mut dir.files[i])
    }

    /// The name and the text of the file that `path` names.
    pub fn cat(&self, path: &str) -> (r: Result<(String, String), FsError>)
        ensures
            match self@.cat(path@) {
                Ok((name, text)) => r is Ok && r->Ok_0.0@ == name && r->Ok_0.1@ == text,
                Err(e) => r is Err && r->Err_0@ == e,
            },
    {
        let file = self.get_file(path)?;
        match &file.content {
            FileContent::Text(text) => Ok((file.name.clone(), text.clone())),
            _ => Err(FsError::NotReadable),
        }
    }

    /// Replaces the content of the file that `path` names.
    pub fn edit_file(&mut self, path: &str, new_content: FileContent) -> (r: Result<(), FsError>)
        ensures
            changed(old(self)@, old(self)@.edit_file(path@, new_content@), r, final(self)@),
            old(self)@.wf() ==> final(self)@.wf(),
    {
        proof {
            if old(self)@.wf() {
                if let Ok((at, i)) = old(self)@.locate_file(path@) {
                    lemma_locate_file_has(old(self)@, path@);
                    let dir = old(self)@.root.at(at);
                    lemma_files_wf(
                        old(self)@,
                        at,
                        dir.files.update(i, FileView { content: new_content@, ..dir.files[i] }),
                    );
                }
            }
        }
        let file = self.get_file_mut(path)?;
        file.content = new_content;
        Ok(())
    }

    /// Removes the first file of the leaf's name from the directory in which
    /// `path` looks for it: the one to which the part before the last slash
    /// leads, or the current directory where `path` holds no slash.
    pub fn rm_file(&mut self, path: &str) -> (r: Result<(), FsError>)
        ensures
            changed(old(self)@, old(self)@.rm_file(path@), r, final(self)@),
            old(self)@.wf() ==> final(self)@.wf(),
    {
        let (site, leaf) = self.entry_site(path);
        let at = site?;
        let dir = self.root.dir_at_mut(&at);
        let ghost found = dir@;
        let r = dir.rm_file(leaf.as_str());
        proof {
            if r is Err {
                lemma_put_same(old(self).root@, ints(at@));
            } else if old(self)@.wf() {
                let i = found.find_file(leaf@)->0;
                lemma_files_wf(old(self)@, ints(at@), found.files.remove(i));
            }
        }
        r
    }

    /// Removes the first subdirectory of the leaf's name, with all that is
    /// below it, from the directory in which `path` looks for it: the one to
    /// which the part before the last slash leads, or the current directory
    /// where `path` holds no slash.
    pub fn rm_dir(&mut self, path: &str) -> (r: Result<(), FsError>)
        ensures
            changed(old(self)@, old(self)@.rm_dir(path@), r, final(self)@),
            old(self)@.wf() ==> final(self)@.wf(),
    {
        let (site, leaf) = self.entry_site(path);
        let at = site?;
        let dir = self.root.dir_at_mut(&at);
        let ghost found = dir@;
        let r = dir.rm_dir(leaf.as_str());
        proof {
            if r is Err {
                lemma_put_same(old(self).root@, ints(at@));
            } else if old(self)@.wf() {
                let i = found.find_dir(leaf@)->0;
                lemma_without_dir_wf(old(self)@, ints(at@), i);
            }
        }
        r
    }

    /// Creates every directory that is missing along `path`; directories
    /// that exist are entered, `..` leads to the parent and `.` nowhere.
    pub fn mkdir(&mut self, path: &str) -> (r: Result<(), FsError>)
        ensures
            changed(old(self)@, old(self)@.mkdir(path@), r, final(self)@),
            old(self)@.wf() ==> final(self)@.wf(),
    {
        proof {
            if old(self)@.wf() {
                lemma_mkdir_wf(old(self)@, path@);
            }
        }
        let names = split_segments(path);
        let mut at: Vec<usize> = if starts_at_root(path) {
            Vec::new()
        } else {
            self.resolve(self.current_directory.as_str())?
        };
        if names.len() == 0 {
            return Err(FsError::EmptyPath);
        }
        let ghost start = ints(at@);
        let ghost all = texts(names@);
        let mut k: usize = 0;
        proof {
            reveal_strlit("..");
            reveal_strlit(".");
            reveal_strlit("/");
            assert(all.skip(0) =~= all);
            if is_absolute(path@) {
                assert(start =~= Seq::<int>::empty());
            }
        }
        while k < names.len()
            invariant
                k <= names.len(),
                all == texts(names@),
                ".."@ == dot_dot(),
                "."@ == dot(),
                "/"@ == seq!['/'],
                self.root@.has(ints(at@)),
                self.current_directory == old(self).current_directory,
                make_dirs(old(self).root@, start, all) == make_dirs(
                    self.root@,
                    ints(at@),
                    all.skip(k as int),
                ),
            decreases names.len() - k,
        {
            let ghost rest = all.skip(k as int);
            let ghost here = ints(at@);
            let ghost tree = self.root@;
            proof {
                assert(rest.drop_first() =~= all.skip(k + 1));
            }
            let name = names[k].as_str();
            if name.eq("..") {
                if at.len() > 0 {
                    proof {
                        assert(here =~= here.drop_last().push(here.last()));
                        lemma_has_push(tree, here.drop_last(), here.last());
                    }
                    at.pop();
                    assert(ints(at@) =~= here.drop_last());
                }
            } else if name.eq(".") {
            } else {
                let dir = self.root.dir_at_mut(&at);
                let ghost found = dir@;
                match dir.position_of_dir(name) {
                    Some(i) => {
                        proof {
                            lemma_put_same(tree, here);
                            lemma_at_push(tree, here, i as int);
                        }
                        at.push(i);
                        assert(ints(at@) =~= here.push(i as int));
                    },
                    None => {
                        let mut parent_path = match &dir.parent {
                            Some(p) => p.clone(),
                            None => String::from_str("/"),
                        };
                        if !dir.name.as_str().eq("/") {
                            parent_path.append(dir.name.as_str());
                            parent_path.append("/");
                        }
                        let n = dir.subdirectories.len();
                        let _ = dir.make_subdir(name, parent_path);
                        proof {
                            let grown = found.with_dir(empty_dir(rest[0], Some(child_prefix(found))));
                            lemma_put_at(tree, here, grown);
                            lemma_at_push(tree.put(here, grown), here, n as int);
                        }
                        at.push(n);
                        assert(ints(at@) =~= here.push(n as int));
                    },
                }
            }
            k += 1;
        }
        Ok(())
    }

    /// The lines that list the current directory: its path and a colon,
    /// then the subdirectories and the files in the order in which they were
    /// added, each behind a mark.
    pub fn ls(&self) -> (lines: Vec<String>)
        ensures
            texts(lines@) == self@.listing(),
    {
        let mut lines: Vec<String> = Vec::new();
        lines.push(self.get_pwd().concat(":"));
        let ghost header = texts(lines@);
        let dir = match self.parse_path(self.current_directory.as_str()) {
            Ok(dir) => dir,
            Err(_) => {
                lines.push("Failed to get current directory from path!".to_owned());
                return lines;
            },
        };
        let ghost wanted = entry_lines(dir@);
        let dirs = dir.subdirectories.len();
        let files = dir.files.len();
        let mut x: usize = 0;
        while x < dirs
            invariant
                x <= dirs,
                dirs == dir.subdirectories.len(),
                files == dir.files.len(),
                wanted == entry_lines(dir@),
                texts(lines@) == header + wanted.take(x as int),
            decreases dirs - x,
        {
            let last = x == dirs - 1 && files == 0;
            let mark = if last {
                " └─"
            } else {
                " ├─"
            };
            let label = dir.subdirectories[x].to_text();
            let line = mark.to_owned().concat(label.as_str());
            let ghost before = texts(lines@);
            lines.push(line);
            assert(texts(lines@) =~= before.push(line@));
            x += 1;
        }
        let mut y: usize = 0;
        while y < files
            invariant
                y <= files,
                dirs == dir.subdirectories.len(),
                files == dir.files.len(),
                wanted == entry_lines(dir@),
                texts(lines@) == header + wanted.take(dirs + y),
            decreases files - y,
        {
            let mark = if y == files - 1 {
                " └─"
            } else {
                " ├─"
            };
            let label = dir.files[y].to_text();
            let line = mark.to_owned().concat(label.as_str());
            let ghost before = texts(lines@);
            lines.push(line);
            assert(texts(lines@) =~= before.push(line@));
            y += 1;
        }
        lines
    }

    /// The key of the program that the file that `path` names holds.
    pub fn program_key(&self, path: &str) -> (r: Result<u64, FsError>)
        ensures
            match self@.program_key(path@) {
                Ok(key) => r == Ok::<u64, FsError>(key),
                Err(e) => r is Err && r->Err_0@ == e,
            },
    {
        let file = self.get_file(path)?;
        match &file.content {
            FileContent::Executable(key) => Ok(*key),
            _ => Err(FsError::NotExecutable),
        }
    }

    /// Runs the program that the file that `path` names holds, with the
    /// filesystem, the player and `args` in its hands, and hands back the
    /// lines that the program shows. Where the path names no file, or the
    /// file holds no program, nothing changes.
    pub fn run<P: Programs>(
        &mut self,
        path: &str,
        programs: &P,
        player: &mut Player,
        args: Vec<String>,
    ) -> (r: Result<Vec<String>, FsError>)
        ensures
            match old(self)@.program_key(path@) {
                Ok(key) => r is Ok && programs.outcome(
                    key,
                    old(self)@,
                    *old(player),
                    texts(args@),
                    final(self)@,
                    *final(player),
                    texts(r->Ok_0@),
                ),
                Err(e) => r is Err && r->Err_0@ == e && final(self)@ == old(self)@
                    && *final(player) == *old(player),
            },
    {
        let key = self.program_key(path)?;
        Ok(programs.invoke(key, self, player, args))
    }
}

impl Default for FileSystem {
    fn default() -> (fs: FileSystem)
        ensures
            fs@.root == empty_dir(seq!['/'], None),
            fs@.current_directory == seq!['/'],
            fs@.wf(),
    {
        FileSystem::new()
    }
}

} // verus!
