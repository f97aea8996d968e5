use bytecrawl::error::FsError;
use bytecrawl::filesystem::file::{File, FileContent};
use bytecrawl::filesystem::FileSystem;
use bytecrawl::player::Player;
use bytecrawl::programs::Programs;

fn text_file(name: &str, text: &str) -> File {
    File { name: name.to_string(), content: FileContent::Text(text.to_string()) }
}

fn not_found(name: &str) -> FsError {
    FsError::NotFound(name.to_string())
}

/// A registry with one program, under key 1, that records that it ran.
struct Recorder;

impl Programs for Recorder {
    fn invoke(&self, key: u64, fs: &mut FileSystem, player: &mut Player, args: Vec<String>) -> Vec<String> {
        player.score += 1;
        fs.mkdir("/ran").unwrap();
        let mut lines = vec![format!("key {}", key)];
        lines.extend(args);
        lines
    }
}

#[test]
fn new_filesystem_is_an_empty_root() {
    let fs = FileSystem::new();
    assert_eq!(fs.get_pwd(), "/");
    assert_eq!(fs.current_directory, "/");
    let root = fs.parse_path("/").unwrap();
    assert_eq!(root.name, "/");
    assert_eq!(root.parent, None);
    assert!(root.subdirectories.is_empty());
    assert!(root.files.is_empty());
    let same = FileSystem::default();
    assert_eq!(same.get_pwd(), "/");
    assert!(same.parse_path("/").unwrap().subdirectories.is_empty());
}

#[test]
fn mkdir_then_resolve_yields_empty_directory() {
    let mut fs = FileSystem::new();
    assert_eq!(fs.mkdir("/a/b/c"), Ok(()));
    let dir = fs.parse_path("/a/b/c").unwrap();
    assert_eq!(dir.name, "c");
    assert!(dir.subdirectories.is_empty());
    assert!(dir.files.is_empty());
    assert_eq!(dir.get_path(), "/a/b/c");
}

#[test]
fn mkdir_again_neither_fails_nor_duplicates() {
    let mut fs = FileSystem::new();
    assert_eq!(fs.mkdir("/a/b/c"), Ok(()));
    assert!(fs.touch("/a/b/c", text_file("kept", "x")));
    assert_eq!(fs.mkdir("/a/b/c"), Ok(()));
    assert_eq!(fs.parse_path("/").unwrap().subdirectories.len(), 1);
    assert_eq!(fs.parse_path("/a").unwrap().subdirectories.len(), 1);
    assert_eq!(fs.parse_path("/a/b").unwrap().subdirectories.len(), 1);
    assert_eq!(fs.parse_path("/a/b/c").unwrap().files.len(), 1);
}

#[test]
fn mkdir_stores_parent_paths() {
    let mut fs = FileSystem::new();
    fs.mkdir("/a/b/c").unwrap();
    assert_eq!(fs.parse_path("/a").unwrap().parent, Some("/".to_string()));
    assert_eq!(fs.parse_path("/a/b").unwrap().parent, Some("/a/".to_string()));
    assert_eq!(fs.parse_path("/a/b/c").unwrap().parent, Some("/a/b/".to_string()));
}

#[test]
fn mkdir_reuses_what_exists() {
    let mut fs = FileSystem::new();
    fs.mkdir("/a/b").unwrap();
    fs.mkdir("/a/c").unwrap();
    fs.mkdir("/a/b/d/").unwrap();
    let a = fs.parse_path("/a").unwrap();
    assert_eq!(a.subdirectories.len(), 2);
    assert_eq!(a.subdirectories[0].name, "b");
    assert_eq!(a.subdirectories[1].name, "c");
    assert_eq!(a.subdirectories[0].subdirectories[0].get_path(), "/a/b/d");
}

#[test]
fn mkdir_of_no_segment_fails() {
    let mut fs = FileSystem::new();
    assert_eq!(fs.mkdir("/"), Err(FsError::EmptyPath));
    assert_eq!(fs.mkdir(""), Err(FsError::EmptyPath));
    assert_eq!(fs.mkdir("//"), Err(FsError::EmptyPath));
    assert!(fs.parse_path("/").unwrap().subdirectories.is_empty());
}

#[test]
fn mkdir_relative_starts_in_the_current_directory() {
    let mut fs = FileSystem::new();
    fs.mkdir("/a").unwrap();
    fs.cd("/a".to_string()).unwrap();
    fs.mkdir("b/c").unwrap();
    assert_eq!(fs.parse_path("/a/b/c").unwrap().get_path(), "/a/b/c");
    fs.current_directory = "/gone".to_string();
    assert_eq!(fs.mkdir("x"), Err(not_found("gone")));
    assert_eq!(fs.mkdir("/x"), Ok(()));
}

#[test]
fn mkdir_goes_up_on_dot_dot() {
    let mut fs = FileSystem::new();
    fs.mkdir("/a/../b").unwrap();
    let root = fs.parse_path("/").unwrap();
    assert_eq!(root.subdirectories.len(), 2);
    assert_eq!(root.subdirectories[0].name, "a");
    assert_eq!(root.subdirectories[1].name, "b");
    assert_eq!(root.subdirectories[1].parent, Some("/".to_string()));
    assert!(root.subdirectories[0].subdirectories.is_empty());
    fs.mkdir("/../../c").unwrap();
    assert_eq!(fs.parse_path("/c").unwrap().get_path(), "/c");
}

#[test]
fn resolve_handles_dot_and_dot_dot() {
    let mut fs = FileSystem::new();
    fs.mkdir("/a/b/c").unwrap();
    fs.mkdir("/a/d").unwrap();
    assert_eq!(fs.resolve("/a/./b"), Ok(vec![0, 0]));
    assert_eq!(fs.resolve("/a/b/.."), Ok(vec![0]));
    assert_eq!(fs.resolve("/a/b/../d"), Ok(vec![0, 1]));
    assert_eq!(fs.resolve("/a/b/c/../../d/."), Ok(vec![0, 1]));
    assert_eq!(fs.parse_path("/a/b/c/../..").unwrap().get_path(), "/a");
}

#[test]
fn dot_dot_above_the_root_is_absorbed() {
    let mut fs = FileSystem::new();
    fs.mkdir("/a").unwrap();
    assert_eq!(fs.resolve("/.."), Ok(vec![]));
    assert_eq!(fs.resolve("/../../a"), Ok(vec![0]));
    assert_eq!(fs.resolve("/a/../../.."), Ok(vec![]));
    assert_eq!(fs.parse_path("..").unwrap().name, "/");
}

#[test]
fn dot_dot_needs_the_directory_it_leaves() {
    let mut fs = FileSystem::new();
    fs.mkdir("/a").unwrap();
    assert_eq!(fs.resolve("/missing/.."), Err(not_found("missing")));
    assert_eq!(fs.parse_path_mut("/missing/..").err(), Some(not_found("missing")));
}

#[test]
fn resolve_drops_empty_segments() {
    let mut fs = FileSystem::new();
    fs.mkdir("/a/b").unwrap();
    assert_eq!(fs.resolve("//a///b/"), Ok(vec![0, 0]));
    assert_eq!(fs.resolve(""), Ok(vec![]));
}

#[test]
fn resolve_names_the_missing_segment() {
    let mut fs = FileSystem::new();
    fs.mkdir("/a/b").unwrap();
    assert_eq!(fs.resolve("/a/x/b"), Err(not_found("x")));
    assert_eq!(fs.parse_path("/nope").err(), Some(not_found("nope")));
    assert_eq!(fs.parse_path("/").unwrap().subdirectories.len(), 1);
}

#[test]
fn relative_paths_start_in_the_current_directory() {
    let mut fs = FileSystem::new();
    fs.mkdir("/a/b").unwrap();
    fs.mkdir("/c").unwrap();
    fs.cd("/a".to_string()).unwrap();
    assert_eq!(fs.parse_path("b").unwrap().get_path(), "/a/b");
    assert_eq!(fs.parse_path("../c").unwrap().get_path(), "/c");
    assert_eq!(fs.parse_path("/c").unwrap().get_path(), "/c");
    assert_eq!(fs.parse_path("c").err(), Some(not_found("c")));
    assert_eq!(fs.parse_path("").unwrap().get_path(), "/a");
}

#[test]
fn resolved_path_round_trips() {
    let mut fs = FileSystem::new();
    fs.mkdir("/a/b/c").unwrap();
    assert_eq!(fs.parse_path("/a/b/c").unwrap().get_path(), "/a/b/c");
    assert_eq!(fs.parse_path("//a/b//").unwrap().get_path(), "/a/b");
    assert_eq!(fs.parse_path("/").unwrap().get_path(), "/");
    fs.cd("/a".to_string()).unwrap();
    assert_eq!(fs.parse_path("b/c").unwrap().get_path(), "/a/b/c");
}

#[test]
fn mutable_resolution_agrees_with_immutable() {
    let mut fs = FileSystem::new();
    fs.mkdir("/a/b/c").unwrap();
    fs.mkdir("/a/d").unwrap();
    fs.cd("/a/b".to_string()).unwrap();
    fs.parse_path_mut("c/../../d").unwrap().touch(text_file("here", "x"));
    assert_eq!(fs.parse_path("/a/d").unwrap().files.len(), 1);
    fs.parse_path_mut("..").unwrap().touch(text_file("up", "y"));
    assert_eq!(fs.parse_path("/a").unwrap().files[0].name, "up");
    fs.parse_path_mut(".").unwrap().touch(text_file("same", "z"));
    assert_eq!(fs.parse_path("/a/b").unwrap().files[0].name, "same");
    assert!(fs.parse_path_mut("nope").is_err());
}

#[test]
fn cd_validates_before_it_commits() {
    let mut fs = FileSystem::new();
    fs.mkdir("/a/b").unwrap();
    assert_eq!(fs.cd("/a/b".to_string()), Ok(()));
    assert_eq!(fs.get_pwd(), "/a/b");
    assert_eq!(fs.cd("/a/x".to_string()), Err(not_found("x")));
    assert_eq!(fs.get_pwd(), "/a/b");
    assert_eq!(fs.cd("..".to_string()), Ok(()));
    assert_eq!(fs.get_pwd(), "/a");
    assert_eq!(fs.cd("../..".to_string()), Ok(()));
    assert_eq!(fs.get_pwd(), "/");
    assert_eq!(fs.cd("a//b/./".to_string()), Ok(()));
    assert_eq!(fs.get_pwd(), "/a/b");
}

#[test]
fn current_directory_is_found_from_the_root() {
    let mut fs = FileSystem::new();
    fs.mkdir("/a/b").unwrap();
    assert_eq!(fs.get_current_dir().unwrap().name, "/");
    fs.cd("/a/b".to_string()).unwrap();
    assert_eq!(fs.get_current_dir().unwrap().get_path(), "/a/b");
    fs.get_current_dir_mut().unwrap().touch(text_file("f", "x"));
    assert_eq!(fs.parse_path("/a/b").unwrap().files.len(), 1);
    fs.rm_dir("/a/b").unwrap();
    assert!(fs.get_current_dir().is_none());
    assert!(fs.get_current_dir_mut().is_none());
    assert_eq!(fs.parse_path("x").err(), Some(not_found("b")));
    assert_eq!(fs.parse_path("/a").unwrap().name, "a");
    fs.current_directory = String::new();
    assert_eq!(fs.get_current_dir().unwrap().name, "/");
    assert!(fs.get_current_dir_mut().is_none());
}

#[test]
fn touch_then_cat_returns_name_and_text() {
    let mut fs = FileSystem::new();
    fs.mkdir("/a").unwrap();
    assert!(fs.touch("/a", text_file("x", "hi")));
    assert_eq!(fs.cat("/a/x"), Ok(("x".to_string(), "hi".to_string())));
}

#[test]
fn touch_into_a_missing_directory_does_nothing() {
    let mut fs = FileSystem::new();
    assert!(!fs.touch("/nowhere", text_file("x", "hi")));
    assert!(fs.parse_path("/").unwrap().files.is_empty());
    assert!(fs.parse_path("/").unwrap().subdirectories.is_empty());
}

#[test]
fn duplicate_files_both_exist_and_the_first_is_read() {
    let mut fs = FileSystem::new();
    fs.mkdir("/d").unwrap();
    assert!(fs.touch("/d", text_file("dup", "first")));
    assert!(fs.touch("/d", text_file("dup", "second")));
    let d = fs.parse_path("/d").unwrap();
    assert_eq!(d.files.len(), 2);
    assert_eq!(d.files[0], text_file("dup", "first"));
    assert_eq!(d.files[1], text_file("dup", "second"));
    assert_eq!(fs.cat("/d/dup"), Ok(("dup".to_string(), "first".to_string())));
}

#[test]
fn cat_looks_in_the_right_directory() {
    let mut fs = FileSystem::new();
    fs.mkdir("/a/b").unwrap();
    fs.touch("/", text_file("top", "root text"));
    fs.touch("/a/b", text_file("deep", "deep text"));
    assert_eq!(fs.cat("/top"), Ok(("top".to_string(), "root text".to_string())));
    assert_eq!(fs.cat("top"), Ok(("top".to_string(), "root text".to_string())));
    assert_eq!(fs.cat("a/b/deep"), Ok(("deep".to_string(), "deep text".to_string())));
    fs.cd("/a".to_string()).unwrap();
    assert_eq!(fs.cat("b/deep"), Ok(("deep".to_string(), "deep text".to_string())));
    assert_eq!(fs.cat("top"), Err(not_found("top")));
    assert_eq!(fs.cat("../top"), Ok(("top".to_string(), "root text".to_string())));
    assert_eq!(fs.cat("b/none"), Err(not_found("none")));
    assert_eq!(fs.cat("x/deep"), Err(not_found("x")));
    assert_eq!(fs.cat("b/"), Err(not_found("")));
}

#[test]
fn cat_reads_text_only() {
    let mut fs = FileSystem::new();
    fs.touch("/", File { name: "prog".to_string(), content: FileContent::Executable(1) });
    fs.touch("/", File { name: "shop".to_string(), content: FileContent::Shop { name: "S".to_string() } });
    assert_eq!(fs.cat("/prog"), Err(FsError::NotReadable));
    assert_eq!(fs.cat("/shop"), Err(FsError::NotReadable));
}

#[test]
fn edit_replaces_the_content_wholesale() {
    let mut fs = FileSystem::new();
    fs.mkdir("/a").unwrap();
    fs.touch("/a", text_file("x", "old"));
    fs.touch("/a", text_file("y", "other"));
    assert_eq!(fs.edit_file("/a/x", FileContent::Text("new".to_string())), Ok(()));
    assert_eq!(fs.cat("/a/x"), Ok(("x".to_string(), "new".to_string())));
    assert_eq!(fs.cat("/a/y"), Ok(("y".to_string(), "other".to_string())));
    assert_eq!(fs.edit_file("/a/x", FileContent::Executable(9)), Ok(()));
    assert_eq!(fs.get_file("/a/x").unwrap().content, FileContent::Executable(9));
    assert_eq!(fs.edit_file("/a/z", FileContent::Text("n".to_string())), Err(not_found("z")));
    assert_eq!(fs.edit_file("/b/x", FileContent::Text("n".to_string())), Err(not_found("b")));
    assert_eq!(fs.parse_path("/a").unwrap().files.len(), 2);
}

#[test]
fn file_handles_reach_the_file() {
    let mut fs = FileSystem::new();
    fs.mkdir("/a").unwrap();
    fs.touch("/a", text_file("x", "1"));
    assert_eq!(fs.locate_file("/a/x"), Ok((vec![0], 0)));
    assert_eq!(fs.get_file("/a/x").unwrap().name, "x");
    fs.get_file_mut("/a/x").unwrap().name = "renamed".to_string();
    assert_eq!(fs.parse_path("/a").unwrap().files[0].name, "renamed");
    assert_eq!(fs.get_file_mut("/a/x").err(), Some(not_found("x")));
}

#[test]
fn rm_file_removes_one_entry() {
    let mut fs = FileSystem::new();
    fs.mkdir("/a").unwrap();
    fs.touch("/a", text_file("x", "1"));
    fs.touch("/a", text_file("y", "2"));
    fs.touch("/", text_file("top", "3"));
    assert_eq!(fs.rm_file("/a/x"), Ok(()));
    assert_eq!(fs.parse_path("/a").unwrap().files, vec![text_file("y", "2")]);
    assert_eq!(fs.rm_file("/a/x"), Err(not_found("x")));
    assert_eq!(fs.rm_file("/b/y"), Err(not_found("b")));
    assert_eq!(fs.rm_file("/top"), Ok(()));
    assert!(fs.parse_path("/").unwrap().files.is_empty());
}

#[test]
fn a_bare_name_is_removed_from_the_current_directory() {
    let mut fs = FileSystem::new();
    fs.mkdir("/a/sub").unwrap();
    fs.mkdir("/sub").unwrap();
    fs.touch("/", text_file("f", "root"));
    fs.touch("/a", text_file("f", "in a"));
    fs.cd("/a".to_string()).unwrap();
    assert_eq!(fs.rm_file("f"), Ok(()));
    assert!(fs.parse_path("/a").unwrap().files.is_empty());
    assert_eq!(fs.cat("/f"), Ok(("f".to_string(), "root".to_string())));
    assert_eq!(fs.rm_file("f"), Err(not_found("f")));
    assert_eq!(fs.rm_dir("sub"), Ok(()));
    assert!(fs.parse_path("/a/sub").is_err());
    assert!(fs.parse_path("/sub").is_ok());
    assert_eq!(fs.rm_dir("sub"), Err(not_found("sub")));
    assert_eq!(fs.rm_dir("/sub"), Ok(()));
    assert!(fs.parse_path("/sub").is_err());
}

#[test]
fn a_bare_name_and_a_dotted_path_name_the_same_entry() {
    let mut fs = FileSystem::new();
    fs.mkdir("/a/one").unwrap();
    fs.mkdir("/a/two").unwrap();
    fs.touch("/a", text_file("x", ""));
    fs.touch("/a", text_file("y", ""));
    fs.cd("/a".to_string()).unwrap();
    assert_eq!(fs.rm_dir("./one"), Ok(()));
    assert_eq!(fs.rm_dir("two"), Ok(()));
    assert!(fs.parse_path("/a").unwrap().subdirectories.is_empty());
    assert_eq!(fs.rm_file("./x"), Ok(()));
    assert_eq!(fs.rm_file("y"), Ok(()));
    assert!(fs.parse_path("/a").unwrap().files.is_empty());
    assert_eq!(fs.cat("/a/x"), Err(not_found("x")));
}

#[test]
fn a_removal_without_a_current_directory_fails() {
    let mut fs = FileSystem::new();
    fs.touch("/", text_file("f", ""));
    fs.current_directory = "/gone".to_string();
    assert_eq!(fs.rm_file("f"), Err(not_found("gone")));
    assert_eq!(fs.rm_dir("f"), Err(not_found("gone")));
    assert_eq!(fs.rm_file("/f"), Ok(()));
}

#[test]
fn rm_dir_removes_the_subtree() {
    let mut fs = FileSystem::new();
    fs.mkdir("/a/b/c/d").unwrap();
    fs.touch("/a/b/c", text_file("f", "x"));
    assert_eq!(fs.rm_dir("/a/b"), Ok(()));
    assert_eq!(fs.resolve("/a/b"), Err(not_found("b")));
    assert_eq!(fs.resolve("/a/b/c"), Err(not_found("b")));
    assert_eq!(fs.resolve("/a/b/c/d"), Err(not_found("b")));
    assert_eq!(fs.cat("/a/b/c/f"), Err(not_found("b")));
    assert!(fs.parse_path("/a").unwrap().subdirectories.is_empty());
    assert_eq!(fs.rm_dir("/a/b"), Err(not_found("b")));
    assert_eq!(fs.rm_dir("/x/b"), Err(not_found("x")));
}

#[test]
fn listing_marks_the_last_entry() {
    let mut fs = FileSystem::new();
    assert_eq!(fs.ls(), vec!["/:".to_string()]);
    fs.mkdir("/docs").unwrap();
    assert_eq!(fs.ls(), vec!["/:".to_string(), " └─📁 docs".to_string()]);
    fs.mkdir("/bin").unwrap();
    assert_eq!(
        fs.ls(),
        vec!["/:".to_string(), " ├─📁 docs".to_string(), " └─📁 bin".to_string()]
    );
    fs.touch("/", text_file("note", "x"));
    fs.touch("/", File { name: "run".to_string(), content: FileContent::Executable(1) });
    assert_eq!(
        fs.ls(),
        vec![
            "/:".to_string(),
            " ├─📁 docs".to_string(),
            " ├─📁 bin".to_string(),
            " ├─🗎 note (TXT)".to_string(),
            " └─🗎 run (EXEC)".to_string(),
        ]
    );
    fs.cd("/docs".to_string()).unwrap();
    fs.touch("/docs", text_file("only", ""));
    assert_eq!(fs.ls(), vec!["/docs:".to_string(), " └─🗎 only (TXT)".to_string()]);
}

#[test]
fn listing_of_a_lost_directory_says_so() {
    let mut fs = FileSystem::new();
    fs.current_directory = "/gone".to_string();
    assert_eq!(
        fs.ls(),
        vec!["/gone:".to_string(), "Failed to get current directory from path!".to_string()]
    );
}

#[test]
fn running_text_fails_and_changes_nothing() {
    let mut fs = FileSystem::new();
    fs.mkdir("/a").unwrap();
    fs.touch("/a", text_file("x", "hi"));
    let mut player = Player::new();
    let r = fs.run("/a/x", &Recorder, &mut player, vec!["arg".to_string()]);
    assert_eq!(r, Err(FsError::NotExecutable));
    assert_eq!(player, Player::new());
    assert_eq!(fs.parse_path("/").unwrap().subdirectories.len(), 1);
    assert_eq!(fs.cat("/a/x"), Ok(("x".to_string(), "hi".to_string())));
    assert_eq!(fs.program_key("/a/x"), Err(FsError::NotExecutable));
}

#[test]
fn running_a_missing_file_fails() {
    let mut fs = FileSystem::new();
    let mut player = Player::new();
    let r = fs.run("/nope", &Recorder, &mut player, Vec::new());
    assert_eq!(r, Err(not_found("nope")));
    assert_eq!(player, Player::new());
    assert!(fs.parse_path("/").unwrap().subdirectories.is_empty());
}

#[test]
fn running_a_program_hands_it_everything() {
    let mut fs = FileSystem::new();
    fs.touch("/", File { name: "prog".to_string(), content: FileContent::Executable(1) });
    let mut player = Player::new();
    let r = fs.run("/prog", &Recorder, &mut player, vec!["a".to_string(), "b".to_string()]);
    assert_eq!(r, Ok(vec!["key 1".to_string(), "a".to_string(), "b".to_string()]));
    assert_eq!(player.score, 1);
    assert!(fs.parse_path("/ran").is_ok());
    assert_eq!(fs.program_key("/prog"), Ok(1));
}

#[test]
fn error_messages_name_what_failed() {
    assert_eq!(FsError::MalformedPath.message(), "No closing ' found!");
    assert_eq!(FsError::EmptyPath.message(), "Specified path can not be empty!");
    assert_eq!(not_found("x").message(), "Not found: x");
    assert_eq!(
        FsError::DirAlreadyExists("d".to_string()).message(),
        "Directory already exists: d"
    );
    assert_eq!(
        FsError::NotReadable.message(),
        "This file is not a text file and can not be read!"
    );
    assert_eq!(FsError::NotExecutable.message(), "This file is not executable!");
    assert_eq!(FsError::InvalidCommandArguments.message(), "Not enough arguments.");
}

#[test]
fn the_current_path_is_written_as_it_is_given() {
    let mut fs = FileSystem::new();
    fs.mkdir("/a").unwrap();
    fs.set_pwd("/a".to_string());
    assert_eq!(fs.get_pwd(), "/a");
    assert_eq!(fs.current_directory, "/a");
    assert_eq!(fs.parse_path("").unwrap().name, "a");
    fs.set_pwd("/nowhere".to_string());
    assert_eq!(fs.get_pwd(), "/nowhere");
    assert_eq!(fs.resolve("x"), Err(not_found("nowhere")));
    assert_eq!(fs.parse_path("/").unwrap().subdirectories.len(), 1);
    fs.current_directory = "/a".to_string();
    assert_eq!(fs.get_pwd(), "/a");
}
