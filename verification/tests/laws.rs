use bytecrawl::error::FsError;
use bytecrawl::filesystem::directory::Directory;
use bytecrawl::filesystem::file::{File, FileContent};
use bytecrawl::filesystem::FileSystem;

fn text_file(name: &str, text: &str) -> File {
    File { name: name.to_string(), content: FileContent::Text(text.to_string()) }
}

fn populated() -> FileSystem {
    let mut fs = FileSystem::new();
    fs.mkdir("/a/b/c").unwrap();
    fs.mkdir("/a/d").unwrap();
    fs.mkdir("/e").unwrap();
    fs
}

/// Walks `segments` from the root by hand: down by name, up by `..`.
fn by_hand<'a>(fs: &'a FileSystem, segments: &[&str]) -> Option<&'a Directory> {
    let root = fs.parse_path("/").unwrap();
    let mut trail: Vec<&Directory> = vec![root];
    for segment in segments {
        match *segment {
            "." => {}
            ".." => {
                if trail.len() > 1 {
                    trail.pop();
                }
            }
            name => {
                let here = *trail.last().unwrap();
                let next = here.subdirectories.iter().find(|d| d.name == name)?;
                trail.push(next);
            }
        }
    }
    trail.last().copied()
}

#[test]
fn resolution_is_walking_by_hand() {
    let fs = populated();
    let paths: [&[&str]; 8] = [
        &[],
        &["a"],
        &["a", "b", "c"],
        &["a", ".", "b", "..", "d"],
        &["..", "a", "..", "e", "."],
        &["a", "b", "c", "..", "..", ".."],
        &["a", "x"],
        &["e", "..", "e", "..", "a", "d"],
    ];
    for segments in paths {
        let path = format!("/{}", segments.join("/"));
        let resolved = fs.parse_path(&path).ok().map(|d| d.get_path());
        let walked = by_hand(&fs, segments).map(|d| d.get_path());
        assert_eq!(resolved, walked);
    }
}

#[test]
fn one_more_segment_is_one_more_step() {
    let fs = populated();
    assert_eq!(fs.resolve("/a/b"), Ok(vec![0, 0]));
    assert_eq!(fs.resolve("/a/b/c"), Ok(vec![0, 0, 0]));
    assert_eq!(fs.resolve("/a/b/.."), Ok(vec![0]));
    assert_eq!(fs.resolve("/a/b/."), Ok(vec![0, 0]));
    assert_eq!(fs.resolve("/a/b/x"), Err(FsError::NotFound("x".to_string())));
    assert_eq!(fs.resolve("/a/x/c"), Err(FsError::NotFound("x".to_string())));
}

#[test]
fn every_directory_stores_the_path_that_leads_to_it() {
    let fs = populated();
    for path in ["/", "/a", "/a/b", "/a/b/c", "/a/d", "/e"] {
        assert_eq!(fs.parse_path(path).unwrap().get_path(), path);
    }
}

#[test]
fn the_current_path_leads_back_to_the_directory() {
    let mut fs = populated();
    for path in ["/a/b/c", "../../d", "/", "e", "/a/./b/../d"] {
        let target = fs.resolve(path).unwrap();
        fs.cd(path.to_string()).unwrap();
        let pwd = fs.get_pwd();
        assert_eq!(fs.resolve(&pwd), Ok(target.clone()));
        assert_eq!(fs.resolve(""), Ok(target));
        assert_eq!(fs.get_current_dir().unwrap().get_path(), pwd);
    }
}

#[test]
fn creation_is_local_and_happens_once() {
    let mut fs = populated();
    fs.mkdir("/a/d/new/deeper").unwrap();
    assert_eq!(fs.parse_path("/a").unwrap().subdirectories.len(), 2);
    assert_eq!(fs.parse_path("/a/b").unwrap().subdirectories.len(), 1);
    assert_eq!(fs.parse_path("/").unwrap().subdirectories.len(), 2);
    let made = fs.parse_path("/a/d/new/deeper").unwrap();
    assert_eq!(made.name, "deeper");
    assert!(made.subdirectories.is_empty() && made.files.is_empty());
    fs.mkdir("/a/d/new/deeper").unwrap();
    assert_eq!(fs.parse_path("/a/d").unwrap().subdirectories.len(), 1);
    assert_eq!(fs.parse_path("/a/d/new").unwrap().subdirectories.len(), 1);
}

#[test]
fn sibling_names_stay_unique() {
    let mut fs = populated();
    fs.mkdir("/a/b").unwrap();
    fs.mkdir("a/b/c/../c").unwrap();
    fs.rm_dir("/a/d").unwrap();
    fs.mkdir("/a/d").unwrap();
    let a = fs.parse_path("/a").unwrap();
    let names: Vec<&str> = a.subdirectories.iter().map(|d| d.name.as_str()).collect();
    assert_eq!(names, vec!["b", "d"]);
    assert_eq!(a.subdirectories[0].subdirectories.len(), 1);
}

#[test]
fn a_dot_leads_nowhere_in_a_creation() {
    let mut fs = FileSystem::new();
    fs.mkdir("/a/./b").unwrap();
    let a = fs.parse_path("/a").unwrap();
    assert_eq!(a.subdirectories.len(), 1);
    assert_eq!(a.subdirectories[0].name, "b");
    assert_eq!(a.subdirectories[0].parent, Some("/a/".to_string()));
    assert_eq!(fs.resolve("/a/./b"), Ok(vec![0, 0]));
    assert_eq!(fs.parse_path("/a/./b").unwrap().get_path(), "/a/b");
    fs.cd("/a".to_string()).unwrap();
    fs.mkdir("./c/.").unwrap();
    fs.mkdir(".").unwrap();
    let names: Vec<&str> =
        fs.parse_path("/a").unwrap().subdirectories.iter().map(|d| d.name.as_str()).collect();
    assert_eq!(names, vec!["b", "c"]);
    assert!(fs.parse_path("/a/c").unwrap().subdirectories.is_empty());
    fs.mkdir("/a/./b").unwrap();
    assert_eq!(fs.parse_path("/a").unwrap().subdirectories.len(), 2);
}

#[test]
fn an_added_file_is_read_back_unless_the_name_was_taken() {
    let mut fs = populated();
    assert!(fs.touch("/a/b", text_file("x", "new")));
    assert_eq!(fs.locate_file("/a/b/x"), Ok((vec![0, 0], 0)));
    assert_eq!(fs.cat("/a/b/x"), Ok(("x".to_string(), "new".to_string())));
    assert!(fs.touch("/a/b", text_file("y", "other")));
    assert!(fs.touch("/a/b", text_file("x", "later")));
    assert_eq!(fs.locate_file("/a/b/x"), Ok((vec![0, 0], 0)));
    assert_eq!(fs.cat("/a/b/x"), Ok(("x".to_string(), "new".to_string())));
    assert_eq!(fs.parse_path("/a/b").unwrap().files.len(), 3);
    assert_eq!(fs.resolve("/a/b"), Ok(vec![0, 0]));
}

#[test]
fn a_removed_directory_is_gone() {
    let mut fs = populated();
    for path in ["/a/b", "/e", "/a"] {
        let leaf = path.rsplit('/').next().unwrap().to_string();
        assert_eq!(fs.rm_dir(path), Ok(()));
        assert_eq!(fs.resolve(path), Err(FsError::NotFound(leaf)));
    }
    assert!(fs.parse_path("/").unwrap().subdirectories.is_empty());
}
