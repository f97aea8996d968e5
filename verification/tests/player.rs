use bytecrawl::filesystem::file::{File, FileContent};
use bytecrawl::player::Player;

#[test]
fn a_new_player_is_in_full_health() {
    let player = Player::new();
    assert_eq!(player.health, 100);
    assert_eq!(player.score, 0);
    assert_eq!(player.bytes, 0);
    assert_eq!(Player::default(), player);
}

#[test]
fn damage_takes_health_and_tells_of_death() {
    let mut player = Player::new();
    assert!(!player.damage(30));
    assert_eq!(player.health, 70);
    assert!(!player.damage(69));
    assert_eq!(player.health, 1);
    assert!(player.damage(1));
    assert_eq!(player.health, 0);
    let mut other = Player::new();
    assert!(other.damage(1000));
    assert_eq!(other.health, 0);
    assert!(other.damage(0));
    assert_eq!(other.score, 0);
    assert_eq!(other.bytes, 0);
}

#[test]
fn heal_adds_health() {
    let mut player = Player::new();
    player.heal(25);
    assert_eq!(player.health, 125);
    player.heal(0);
    assert_eq!(player.health, 125);
}

#[test]
fn standing_is_shown_in_three_lines() {
    let player = Player { health: 100, score: 7, bytes: 4294967295 };
    assert_eq!(player.to_text(), "Health: 100\nScore: 7\nBytes: 4294967295");
    assert_eq!(Player::new().to_text(), "Health: 100\nScore: 0\nBytes: 0");
}

#[test]
fn write_file_replaces_the_content() {
    let mut player = Player { health: 5, score: 6, bytes: 7 };
    let mut file = File { name: "stats".to_string(), content: FileContent::Executable(3) };
    player.write_file(&mut file);
    assert_eq!(file.name, "stats");
    assert_eq!(file.content, FileContent::Text("Health: 5\nScore: 6\nBytes: 7".to_string()));
    assert_eq!(player, Player { health: 5, score: 6, bytes: 7 });
}
