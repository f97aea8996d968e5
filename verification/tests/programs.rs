use bytecrawl::error::FsError;
use bytecrawl::filesystem::file::FileContent;
use bytecrawl::filesystem::FileSystem;
use bytecrawl::player::Player;
use bytecrawl::programs::{
    gamble, loot, open_crate, try_gamble, try_loot, Programs, GAMBLE_EXAMPLE, LOOT_EXAMPLE, TUTORIAL,
};
use bytecrawl::shop::shop;
use bytecrawl::world::{create_fs, run_tutorial, GamePrograms};

const WELCOME: &str = "Welcome to the tutorial! This will run you through the basics of the game!\nAll changes made here will not be reflected in the actual game, so feel free to experiment!";

#[test]
fn loot_gives_ten_bytes() {
    let mut player = Player { health: 1, score: 2, bytes: 3 };
    assert_eq!(loot(&mut player), vec!["You found a loot box! You got 10 bytes!".to_string()]);
    assert_eq!(player, Player { health: 1, score: 2, bytes: 13 });
}

#[test]
fn gamble_on_zero_gives_ten_bytes() {
    let mut player = Player { health: 100, score: 0, bytes: 5 };
    assert_eq!(
        gamble(&mut player, 0),
        vec!["You open the crate...".to_string(), "You found 10 bytes!".to_string()]
    );
    assert_eq!(player.bytes, 15);
}

#[test]
fn gamble_on_one_takes_ten_bytes() {
    let mut player = Player { health: 100, score: 0, bytes: 25 };
    assert_eq!(
        gamble(&mut player, 1),
        vec![
            "You open the crate...".to_string(),
            "You found a file gremlin that takes some bytes! :(".to_string(),
        ]
    );
    assert_eq!(player.bytes, 15);
    let mut exact = Player { health: 100, score: 0, bytes: 10 };
    assert_eq!(gamble(&mut exact, 1).len(), 2);
    assert_eq!(exact.bytes, 0);
}

#[test]
fn gamble_on_one_takes_what_is_left() {
    let mut player = Player { health: 100, score: 0, bytes: 9 };
    assert_eq!(
        gamble(&mut player, 1),
        vec![
            "You open the crate...".to_string(),
            "You found a file gremlin that takes some bytes! :(".to_string(),
            "The gremlin took all your remaining bytes. :(".to_string(),
        ]
    );
    assert_eq!(player.bytes, 0);
}

#[test]
fn gamble_on_one_leaves_an_empty_purse() {
    let mut player = Player { health: 100, score: 0, bytes: 0 };
    assert_eq!(
        gamble(&mut player, 1),
        vec![
            "You open the crate...".to_string(),
            "You found a file gremlin that takes some bytes! :(".to_string(),
            "You didnt have any bytes for the gremlin to take, so it just left.".to_string(),
        ]
    );
    assert_eq!(player.bytes, 0);
    assert_eq!(player.health, 100);
}

#[test]
fn a_losing_roll_needs_no_room() {
    let mut player = Player { health: 100, score: 0, bytes: u32::MAX };
    assert_eq!(gamble(&mut player, 1).len(), 2);
    assert_eq!(player.bytes, u32::MAX - 10);
    let mut other = Player { health: 100, score: 0, bytes: u32::MAX - 10 };
    assert_eq!(gamble(&mut other, 0).len(), 2);
    assert_eq!(other.bytes, u32::MAX);
}

#[test]
fn a_box_opens_only_where_there_is_room() {
    let mut player = Player { health: 1, score: 2, bytes: u32::MAX - 10 };
    assert_eq!(
        try_loot(&mut player),
        Some(vec!["You found a loot box! You got 10 bytes!".to_string()])
    );
    assert_eq!(player, Player { health: 1, score: 2, bytes: u32::MAX });
    assert_eq!(try_loot(&mut player), None);
    assert_eq!(player, Player { health: 1, score: 2, bytes: u32::MAX });
    let mut near = Player { health: 1, score: 2, bytes: u32::MAX - 9 };
    assert_eq!(try_loot(&mut near), None);
    assert_eq!(near.bytes, u32::MAX - 9);
}

#[test]
fn a_crate_opens_unless_a_winning_roll_finds_no_room() {
    let mut full = Player { health: 100, score: 0, bytes: u32::MAX - 9 };
    assert_eq!(try_gamble(&mut full, 0), None);
    assert_eq!(full.bytes, u32::MAX - 9);
    assert_eq!(
        try_gamble(&mut full, 1),
        Some(vec![
            "You open the crate...".to_string(),
            "You found a file gremlin that takes some bytes! :(".to_string(),
        ])
    );
    assert_eq!(full.bytes, u32::MAX - 19);
    assert_eq!(
        try_gamble(&mut full, 0),
        Some(vec!["You open the crate...".to_string(), "You found 10 bytes!".to_string()])
    );
    assert_eq!(full.bytes, u32::MAX - 9);
}

#[test]
fn a_crate_gives_or_takes_ten_bytes() {
    let mut gave = false;
    let mut took = false;
    for _ in 0..200 {
        let mut player = Player { health: 100, score: 0, bytes: 50 };
        let lines = open_crate(&mut player).unwrap();
        assert_eq!(lines[0], "You open the crate...");
        match player.bytes {
            60 => {
                gave = true;
                assert_eq!(lines[1], "You found 10 bytes!");
            }
            40 => {
                took = true;
                assert_eq!(lines[1], "You found a file gremlin that takes some bytes! :(");
            }
            other => panic!("a crate left {} bytes", other),
        }
    }
    assert!(gave && took);
}

#[test]
fn a_crate_before_a_full_purse_takes_bytes_or_stays_shut() {
    let mut shut = false;
    let mut took = false;
    for _ in 0..200 {
        let mut player = Player { health: 100, score: 0, bytes: u32::MAX };
        match open_crate(&mut player) {
            None => {
                shut = true;
                assert_eq!(player.bytes, u32::MAX);
            }
            Some(lines) => {
                took = true;
                assert_eq!(lines.len(), 2);
                assert_eq!(player.bytes, u32::MAX - 10);
            }
        }
    }
    assert!(shut && took);
}

#[test]
fn the_world_holds_what_a_game_starts_with() {
    let player = Player { health: 100, score: 3, bytes: 20 };
    let fs = create_fs(&player, true).unwrap();
    assert_eq!(fs.get_pwd(), "/");
    let root = fs.parse_path("/").unwrap();
    let names: Vec<&str> = root.subdirectories.iter().map(|d| d.name.as_str()).collect();
    assert_eq!(names, vec!["shops", "scripts", "dungeon"]);
    let files: Vec<&str> = root.files.iter().map(|f| f.name.as_str()).collect();
    assert_eq!(files, vec!["stats", "tutorial"]);
    assert_eq!(fs.cat("/stats"), Ok(("stats".to_string(), "Health: 100\nScore: 3\nBytes: 20".to_string())));
    assert_eq!(fs.program_key("/tutorial"), Ok(TUTORIAL));
    assert_eq!(
        fs.get_file("/shops/test_shop").unwrap().content,
        FileContent::Shop { name: "Scripts".to_string() }
    );
    assert_eq!(
        fs.cat("/scripts/README"),
        Ok(("README".to_string(), "Scripts are currently not implemented.".to_string()))
    );
    let doors: Vec<&str> =
        fs.parse_path("/dungeon").unwrap().subdirectories.iter().map(|d| d.name.as_str()).collect();
    assert_eq!(doors, vec!["door1", "door2", "door3"]);
    assert_eq!(fs.program_key("/dungeon/door1/loot_example"), Ok(LOOT_EXAMPLE));
    assert_eq!(fs.program_key("/dungeon/door2/gamble_example"), Ok(GAMBLE_EXAMPLE));
    assert!(fs.parse_path("/dungeon/door3").unwrap().files.is_empty());
    assert_eq!(fs.parse_path("/dungeon/door3").unwrap().get_path(), "/dungeon/door3");
}

#[test]
fn the_world_of_the_tutorial_has_no_tutorial() {
    let fs = create_fs(&Player::new(), false).unwrap();
    assert_eq!(fs.parse_path("/").unwrap().files.len(), 1);
    assert_eq!(fs.cat("/tutorial"), Err(FsError::NotFound("tutorial".to_string())));
}

#[test]
fn the_tutorial_welcomes_and_apologises() {
    assert_eq!(
        run_tutorial(),
        vec![WELCOME.to_string(), "the tutorial is currently not implemented, sorry :(".to_string()]
    );
}

#[test]
fn the_game_runs_its_programs_through_files() {
    let mut player = Player::new();
    let mut fs = create_fs(&player, true).unwrap();
    let lines = fs.run("/dungeon/door1/loot_example", &GamePrograms, &mut player, Vec::new());
    assert_eq!(lines, Ok(vec!["You found a loot box! You got 10 bytes!".to_string()]));
    assert_eq!(player.bytes, 10);
    let lines = fs.run("dungeon/door2/gamble_example", &GamePrograms, &mut player, Vec::new()).unwrap();
    assert_eq!(lines[0], "You open the crate...");
    assert!(player.bytes == 0 || player.bytes == 20);
    let lines = fs.run("tutorial", &GamePrograms, &mut player, Vec::new()).unwrap();
    assert_eq!(lines[0], WELCOME);
    assert_eq!(fs.run("/stats", &GamePrograms, &mut player, Vec::new()), Err(FsError::NotExecutable));
    assert_eq!(
        fs.run("/shops/test_shop", &GamePrograms, &mut player, Vec::new()),
        Err(FsError::NotExecutable)
    );
}

#[test]
fn an_unknown_key_does_nothing() {
    let mut player = Player::new();
    let mut fs = FileSystem::new();
    let lines = GamePrograms.invoke(99, &mut fs, &mut player, vec!["x".to_string()]);
    assert!(lines.is_empty());
    assert_eq!(player, Player::new());
    assert!(fs.parse_path("/").unwrap().subdirectories.is_empty());
}

#[test]
fn a_shop_greets_by_name() {
    assert_eq!(
        shop("Scripts"),
        vec![
            "Welcome to the Scripts shop!".to_string(),
            "Type ls to browse the stock. Run `help` to see how to navigate the shop.".to_string(),
            "".to_string(),
            "Shops are currently not implemented.".to_string(),
        ]
    );
}
