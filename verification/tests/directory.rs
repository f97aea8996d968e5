use bytecrawl::error::FsError;
use bytecrawl::filesystem::directory::Directory;
use bytecrawl::filesystem::file::{File, FileContent};

fn dir(name: &str, parent: Option<&str>) -> Directory {
    Directory {
        name: name.to_string(),
        parent: parent.map(|p| p.to_string()),
        subdirectories: Vec::new(),
        files: Vec::new(),
    }
}

fn text_file(name: &str, text: &str) -> File {
    File { name: name.to_string(), content: FileContent::Text(text.to_string()) }
}

#[test]
fn path_is_parent_path_and_name() {
    assert_eq!(dir("/", None).get_path(), "/");
    assert_eq!(dir("a", Some("/")).get_path(), "/a");
    assert_eq!(dir("c", Some("/a/b/")).get_path(), "/a/b/c");
}

#[test]
fn make_subdir_creates_an_empty_directory() {
    let mut root = dir("/", None);
    {
        let made = root.make_subdir("a", "/".to_string()).unwrap();
        assert_eq!(made.name, "a");
        assert_eq!(made.parent, Some("/".to_string()));
        assert!(made.subdirectories.is_empty());
        assert!(made.files.is_empty());
    }
    assert_eq!(root.subdirectories.len(), 1);
    assert!(root.has_subdir("a"));
    assert!(!root.has_subdir("b"));
}

#[test]
fn make_subdir_refuses_a_sibling_name() {
    let mut root = dir("/", None);
    root.make_subdir("a", "/".to_string()).unwrap();
    let again = root.make_subdir("a", "/".to_string()).err();
    assert_eq!(again, Some(FsError::DirAlreadyExists("a".to_string())));
    assert_eq!(root.subdirectories.len(), 1);
}

#[test]
fn a_handle_from_make_subdir_changes_the_tree() {
    let mut root = dir("/", None);
    root.make_subdir("a", "/".to_string()).unwrap().touch(text_file("x", "1"));
    assert_eq!(root.subdirectories[0].files.len(), 1);
    assert_eq!(root.subdirectories[0].files[0].name, "x");
}

#[test]
fn a_file_and_a_directory_may_share_a_name() {
    let mut root = dir("/", None);
    root.make_subdir("same", "/".to_string()).unwrap();
    root.touch(text_file("same", "t"));
    assert!(root.find_directory("same").is_some());
    assert!(root.find_file("same".to_string()).is_some());
}

#[test]
fn lookups_return_the_first_match() {
    let mut root = dir("/", None);
    root.touch(text_file("dup", "first"));
    root.touch(text_file("other", "x"));
    root.touch(text_file("dup", "second"));
    assert_eq!(root.position_of_file("dup"), Some(0));
    assert_eq!(root.position_of_file("other"), Some(1));
    assert_eq!(root.position_of_file("none"), None);
    assert_eq!(root.find_file("dup".to_string()), Some(&text_file("dup", "first")));
    root.subdirectories.push(dir("d", Some("first")));
    root.subdirectories.push(dir("d", Some("second")));
    assert_eq!(root.position_of_dir("d"), Some(0));
    assert_eq!(root.find_directory("d").unwrap().parent, Some("first".to_string()));
    assert!(root.find_directory("e").is_none());
}

#[test]
fn find_mut_changes_the_first_match() {
    let mut root = dir("/", None);
    root.touch(text_file("dup", "first"));
    root.touch(text_file("dup", "second"));
    root.find_file_mut("dup".to_string()).unwrap().content = FileContent::Text("new".to_string());
    assert_eq!(root.files[0], text_file("dup", "new"));
    assert_eq!(root.files[1], text_file("dup", "second"));
    assert!(root.find_file_mut("none".to_string()).is_none());
    root.make_subdir("a", "/".to_string()).unwrap();
    root.make_subdir("b", "/".to_string()).unwrap();
    root.find_directory_mut("b").unwrap().touch(text_file("in_b", ""));
    assert!(root.subdirectories[0].files.is_empty());
    assert_eq!(root.subdirectories[1].files.len(), 1);
    assert!(root.find_directory_mut("c").is_none());
}

#[test]
fn rm_file_removes_the_first_match_only() {
    let mut root = dir("/", None);
    root.touch(text_file("a", "1"));
    root.touch(text_file("dup", "first"));
    root.touch(text_file("dup", "second"));
    assert_eq!(root.rm_file("dup"), Ok(()));
    assert_eq!(root.files, vec![text_file("a", "1"), text_file("dup", "second")]);
    assert_eq!(root.rm_file("missing"), Err(FsError::NotFound("missing".to_string())));
    assert_eq!(root.files.len(), 2);
}

#[test]
fn rm_dir_removes_the_directory_with_its_subtree() {
    let mut root = dir("/", None);
    root.make_subdir("a", "/".to_string()).unwrap().make_subdir("b", "/a/".to_string()).unwrap();
    root.make_subdir("c", "/".to_string()).unwrap();
    assert_eq!(root.rm_dir("a"), Ok(()));
    assert_eq!(root.subdirectories.len(), 1);
    assert_eq!(root.subdirectories[0].name, "c");
    assert_eq!(root.rm_dir("a"), Err(FsError::NotFound("a".to_string())));
}

#[test]
fn get_child_goes_down_by_names() {
    let mut root = dir("/", None);
    root.make_subdir("a", "/".to_string()).unwrap().make_subdir("b", "/a/".to_string()).unwrap();
    assert_eq!(root.get_child("a/b").unwrap().name, "b");
    assert_eq!(root.get_child("/a//b/").unwrap().name, "b");
    assert_eq!(root.get_child("").unwrap().name, "/");
    assert_eq!(root.get_child("/").unwrap().name, "/");
    assert!(root.get_child("a/c").is_none());
    assert!(root.get_child("a/..").is_none());
}

#[test]
fn get_mut_child_refuses_the_empty_path() {
    let mut root = dir("/", None);
    root.make_subdir("a", "/".to_string()).unwrap().make_subdir("b", "/a/".to_string()).unwrap();
    assert!(root.get_mut_child("").is_none());
    assert_eq!(root.get_mut_child("/").unwrap().name, "/");
    root.get_mut_child("a/b").unwrap().touch(text_file("deep", "x"));
    assert_eq!(root.subdirectories[0].subdirectories[0].files.len(), 1);
    assert!(root.get_mut_child("a/x").is_none());
}

#[test]
fn descend_reports_the_address_or_the_missing_name() {
    let mut root = dir("/", None);
    root.make_subdir("x", "/".to_string()).unwrap();
    root.make_subdir("a", "/".to_string()).unwrap().make_subdir("b", "/a/".to_string()).unwrap();
    let names = vec!["a".to_string(), "b".to_string()];
    assert_eq!(root.descend(&names), Ok(vec![1, 0]));
    assert_eq!(root.descend(&Vec::new()), Ok(Vec::new()));
    let missing = vec!["a".to_string(), "nope".to_string(), "b".to_string()];
    assert_eq!(root.descend(&missing), Err("nope".to_string()));
    assert_eq!(root.dir_at(&vec![1, 0]).name, "b");
    assert_eq!(root.dir_at(&Vec::new()).name, "/");
    root.dir_at_mut(&vec![1, 0]).touch(text_file("f", ""));
    assert_eq!(root.subdirectories[1].subdirectories[0].files.len(), 1);
}

#[test]
fn labels_show_kind_and_name() {
    assert_eq!(dir("docs", Some("/")).to_text(), "📁 docs");
    assert_eq!(text_file("note", "x").to_text(), "🗎 note (TXT)");
    let exec = File { name: "run".to_string(), content: FileContent::Executable(7) };
    assert_eq!(exec.to_text(), "🗎 run (EXEC)");
    let shop = File { name: "s".to_string(), content: FileContent::Shop { name: "S".to_string() } };
    assert_eq!(shop.to_text(), "🗎 s (SHOP)");
    assert_eq!(FileContent::Text("t".to_string()).to_text(), "TXT");
}
