//! The world in which a game starts, and the programs that live in it.

use vstd::prelude::*;
use crate::error::{FsError, FsErrorView};
use crate::filesystem::file::{ContentView, File, FileContent, FileView};
use crate::filesystem::resolve::FsView;
use crate::filesystem::tree::empty_dir;
use crate::filesystem::laws::lemma_mkdir_goes_through;
use crate::filesystem::FileSystem;
use crate::path::texts;
use crate::player::Player;
use crate::programs::{
    gambled, has_room, loot_lines, open_crate, shown, try_loot, Programs, GAMBLE_EXAMPLE,
    LOOT_EXAMPLE, TUTORIAL,
};

verus! {

/// The empty filesystem.
pub open spec fn empty_fs() -> FsView {
    FsView { root: empty_dir(seq!['/'], None), current_directory: seq!['/'] }
}

/// `fs` after a directory creation at `path`, where `fs` is there at all.
pub open spec fn then_mkdir(fs: Result<FsView, FsErrorView>, path: Seq<char>) -> Result<
    FsView,
    FsErrorView,
> {
    match fs {
        Ok(fs) => fs.mkdir(path),
        Err(e) => Err(e),
    }
}

/// `fs` after a file called `name` with `content` was added at `path`,
/// where `fs` is there at all.
pub open spec fn then_touch(
    fs: Result<FsView, FsErrorView>,
    path: Seq<char>,
    name: Seq<char>,
    content: ContentView,
) -> Result<FsView, FsErrorView> {
    match fs {
        Ok(fs) => Ok(fs.touch(path, FileView { name, content })),
        Err(e) => Err(e),
    }
}

/// The world at the start of a game: a shop, a note on scripts, a dungeon
/// of three doors with a loot box and a crate behind two of them, the
/// player's standing in a file, and the tutorial where it is asked for.
pub open spec fn world(stats: Seq<char>, with_tutorial: bool) -> Result<FsView, FsErrorView> {
    let shops = then_touch(
        then_mkdir(Ok(empty_fs()), "/shops/"@),
        "/shops"@,
        "test_shop"@,
        ContentView::Shop { name: "Scripts"@ },
    );
    let scripts = then_touch(
        then_mkdir(shops, "/scripts/"@),
        "/scripts"@,
        "README"@,
        ContentView::Text("Scripts are currently not implemented."@),
    );
    let door1 = then_touch(
        then_mkdir(scripts, "/dungeon/door1"@),
        "/dungeon/door1"@,
        "loot_example"@,
        ContentView::Executable(LOOT_EXAMPLE),
    );
    let door2 = then_touch(
        then_mkdir(door1, "/dungeon/door2"@),
        "/dungeon/door2"@,
        "gamble_example"@,
        ContentView::Executable(GAMBLE_EXAMPLE),
    );
    let door3 = then_mkdir(door2, "/dungeon/door3"@);
    let with_stats = then_touch(door3, "/"@, "stats"@, ContentView::Text(stats));
    if with_tutorial {
        then_touch(with_stats, "/"@, "tutorial"@, ContentView::Executable(TUTORIAL))
    } else {
        with_stats
    }
}

/// The world can always be made.
pub proof fn lemma_world_made(stats: Seq<char>, with_tutorial: bool)
    ensures
        world(stats, with_tutorial) is Ok,
{
    reveal_strlit("/shops/");
    reveal_strlit("/scripts/");
    reveal_strlit("/dungeon/door1");
    reveal_strlit("/dungeon/door2");
    reveal_strlit("/dungeon/door3");
    lemma_mkdir_goes_through(empty_fs(), "/shops/"@, 1);
    let shops = then_touch(
        then_mkdir(Ok(empty_fs()), "/shops/"@),
        "/shops"@,
        "test_shop"@,
        ContentView::Shop { name: "Scripts"@ },
    );
    lemma_mkdir_goes_through(shops->Ok_0, "/scripts/"@, 1);
    let scripts = then_touch(
        then_mkdir(shops, "/scripts/"@),
        "/scripts"@,
        "README"@,
        ContentView::Text("Scripts are currently not implemented."@),
    );
    lemma_mkdir_goes_through(scripts->Ok_0, "/dungeon/door1"@, 1);
    let door1 = then_touch(
        then_mkdir(scripts, "/dungeon/door1"@),
        "/dungeon/door1"@,
        "loot_example"@,
        ContentView::Executable(LOOT_EXAMPLE),
    );
    lemma_mkdir_goes_through(door1->Ok_0, "/dungeon/door2"@, 1);
    let door2 = then_touch(
        then_mkdir(door1, "/dungeon/door2"@),
        "/dungeon/door2"@,
        "gamble_example"@,
        ContentView::Executable(GAMBLE_EXAMPLE),
    );
    lemma_mkdir_goes_through(door2->Ok_0, "/dungeon/door3"@, 1);
}

/// A file called `name` that holds `content`.
fn file(name: &str, content: FileContent) -> (f: File)
    ensures
        f@ == (FileView { name: name@, content: content@ }),
{
    File { name: name.to_owned(), content }
}

/// Creates the filesystem and fills it with the world at the start of a
/// game, in which the file of the player's standing shows `player`.
pub fn create_fs(player: &Player, with_tutorial: bool) -> (r: Result<FileSystem, FsError>)
    ensures
        r is Ok,
        Ok::<FsView, FsErrorView>(r->Ok_0@) == world(player.stats(), with_tutorial),
{
    proof {
        lemma_world_made(player.stats(), with_tutorial);
    }
    let mut fs = FileSystem::new();

    fs.mkdir("/shops/")?;
    fs.touch("/shops", file("test_shop", FileContent::Shop { name: "Scripts".to_owned() }));

    fs.mkdir("/scripts/")?;
    fs.touch(
        "/scripts",
        file("README", FileContent::Text("Scripts are currently not implemented.".to_owned())),
    );

    fs.mkdir("/dungeon/door1")?;
    fs.touch("/dungeon/door1", file("loot_example", FileContent::Executable(LOOT_EXAMPLE)));
    fs.mkdir("/dungeon/door2")?;
    fs.touch("/dungeon/door2", file("gamble_example", FileContent::Executable(GAMBLE_EXAMPLE)));
    fs.mkdir("/dungeon/door3")?;

    fs.touch("/", file("stats", FileContent::Text(player.to_text())));

    if with_tutorial {
        fs.touch("/", file("tutorial", FileContent::Executable(TUTORIAL)));
    }
    Ok(fs)
}

/// The lines that the tutorial shows: its welcome, then either that there
/// is no tutorial yet, or that its own world could not be made.
pub open spec fn tutorial_lines(world_made: bool) -> Seq<Seq<char>> {
    seq![
        "Welcome to the tutorial! This will run you through the basics of the game!\nAll changes made here will not be reflected in the actual game, so feel free to experiment!"@,
        if world_made {
            "the tutorial is currently not implemented, sorry :("@
        } else {
            "Failed to run tutorial. Failed to create and populate virtual filesystem, exiting program."@
        },
    ]
}

/// Runs the tutorial in a world of its own, with a player of its own. The
/// world can always be made, so the tutorial never fails.
pub fn run_tutorial() -> (lines: Vec<String>)
    ensures
        texts(lines@) == tutorial_lines(true),
{
    let mut lines: Vec<String> = Vec::new();
    lines.push(
        "Welcome to the tutorial! This will run you through the basics of the game!\nAll changes made here will not be reflected in the actual game, so feel free to experiment!".to_owned(),
    );
    let player = Player::default();
    match create_fs(&player, false) {
        Ok(_) => {
            lines.push("the tutorial is currently not implemented, sorry :(".to_owned());
        },
        Err(_) => {
            lines.push(
                "Failed to run tutorial. Failed to create and populate virtual filesystem, exiting program.".to_owned(),
            );
        },
    }
    lines
}

/// Whether `after` and `lines` are what the crate of the game leaves that
/// `before` tried to open on `roll`: a crate that cannot be opened shows
/// nothing.
pub open spec fn crate_left(before: Player, roll: i32, after: Player, lines: Seq<Seq<char>>) -> bool {
    gambled(before, roll, after, Some(lines)) || (gambled(before, roll, after, None)
        && lines.len() == 0)
}

/// The programs of the game: the loot box, the crate and the tutorial.
pub struct GamePrograms;

impl Programs for GamePrograms {
    /// No program of the game touches the filesystem. The loot box adds ten
    /// bytes where the player has room for them, the crate adds or takes
    /// bytes as one draw decides; a box or a crate that cannot be opened
    /// shows nothing. The tutorial and any unknown key leave the player
    /// alone.
    open spec fn outcome(
        &self,
        key: u64,
        fs: FsView,
        player: Player,
        args: Seq<Seq<char>>,
        fs_after: FsView,
        player_after: Player,
        lines: Seq<Seq<char>>,
    ) -> bool {
        &&& fs_after == fs
        &&& if key == LOOT_EXAMPLE {
            if has_room(player.bytes) {
                player_after == (Player { bytes: (player.bytes + 10) as u32, ..player })
                    && lines == loot_lines()
            } else {
                player_after == player && lines == Seq::<Seq<char>>::empty()
            }
        } else if key == GAMBLE_EXAMPLE {
            exists|roll: i32|
                0 <= roll <= 1 && #[trigger] crate_left(player, roll, player_after, lines)
        } else if key == TUTORIAL {
            player_after == player && lines == tutorial_lines(true)
        } else {
            player_after == player && lines == Seq::<Seq<char>>::empty()
        }
    }

    fn invoke(&self, key: u64, fs: &mut FileSystem, player: &mut Player, args: Vec<String>) -> (lines:
        Vec<String>) {
        let opened = if key == LOOT_EXAMPLE {
            try_loot(player)
        } else if key == GAMBLE_EXAMPLE {
            open_crate(player)
        } else if key == TUTORIAL {
            Some(run_tutorial())
        } else {
            None
        };
        let lines = match opened {
            Some(lines) => lines,
            None => Vec::new(),
        };
        proof {
            if opened is None {
                assert(texts(lines@) =~= Seq::<Seq<char>>::empty());
            }
            if key == GAMBLE_EXAMPLE {
                let roll = choose|roll: i32|
                    0 <= roll <= 1 && #[trigger] gambled(
                        *old(player),
                        roll,
                        *player,
                        shown(opened),
                    );
                assert(crate_left(*old(player), roll, *player, texts(lines@)));
            }
        }
        lines
    }
}

} // verus!
