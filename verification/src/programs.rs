//! Programs: the behaviour behind executable files, and the programs that
//! the game itself brings along.

use vstd::prelude::*;
use rand::Rng;
use crate::filesystem::resolve::FsView;
use crate::filesystem::FileSystem;
use crate::path::texts;
use crate::player::Player;

verus! {

/// A registry of programs, each known by its key. An executable file holds
/// the key; running the file invokes the program with the filesystem, the
/// player and the arguments, and shows the lines that the program hands
/// back.
///
/// Every program can be invoked in every state. A registry may say what its
/// programs leave; one that says nothing promises nothing.
pub trait Programs {
    /// Whether the program under `key`, invoked in the state `fs` and
    /// `player`, may leave `fs_after` and `player_after` and hand back
    /// `lines`.
    open spec fn outcome(
        &self,
        key: u64,
        fs: FsView,
        player: Player,
        args: Seq<Seq<char>>,
        fs_after: FsView,
        player_after: Player,
        lines: Seq<Seq<char>>,
    ) -> bool {
        true
    }

    /// Invokes the program under `key`.
    fn invoke(&self, key: u64, fs: &mut FileSystem, player: &mut Player, args: Vec<String>) -> (lines:
        Vec<String>)
        ensures
            self.outcome(
                key,
                old(fs)@,
                *old(player),
                texts(args@),
                final(fs)@,
                *final(player),
                texts(lines@),
            ),
    ;
}

/// Key of the program that hands out ten bytes.
pub const LOOT_EXAMPLE: u64 = 1;

/// Key of the program that hands out or takes ten bytes, by chance.
pub const GAMBLE_EXAMPLE: u64 = 2;

/// Key of the program that introduces the game.
pub const TUTORIAL: u64 = 3;

/// Whether a player who has `bytes` bytes has room for ten more.
pub open spec fn has_room(bytes: u32) -> bool {
    bytes + 10 <= u32::MAX
}

/// The lines of `lines`, if there are any.
pub open spec fn shown(lines: Option<Vec<String>>) -> Option<Seq<Seq<char>>> {
    match lines {
        Some(lines) => Some(texts(lines@)),
        None => None,
    }
}

/// The lines that the loot box shows.
pub open spec fn loot_lines() -> Seq<Seq<char>> {
    seq!["You found a loot box! You got 10 bytes!"@]
}

/// Opens a loot box: the player gains ten bytes.
pub fn loot(player: &mut Player) -> (lines: Vec<String>)
    requires
        has_room(old(player).bytes),
    ensures
        *final(player) == (Player { bytes: (old(player).bytes + 10) as u32, ..*old(player) }),
        texts(lines@) == loot_lines(),
{
    player.bytes += 10;
    let mut lines: Vec<String> = Vec::new();
    lines.push("You found a loot box! You got 10 bytes!".to_owned());
    lines
}

/// Opens a loot box if the player has room for what is in it; hands back
/// nothing, and leaves the player alone, if not.
pub fn try_loot(player: &mut Player) -> (lines: Option<Vec<String>>)
    ensures
        if has_room(old(player).bytes) {
            *final(player) == (Player { bytes: (old(player).bytes + 10) as u32, ..*old(player) })
                && shown(lines) == Some(loot_lines())
        } else {
            *final(player) == *old(player) && lines is None
        },
{
    if player.bytes <= u32::MAX - 10 {
        Some(loot(player))
    } else {
        None
    }
}

/// The number of bytes that the player has after a crate was opened on
/// `roll`: ten more on zero; else ten fewer, or none where fewer than ten
/// were there.
pub open spec fn gamble_bytes(bytes: u32, roll: i32) -> int {
    if roll == 0 {
        bytes + 10
    } else if bytes >= 10 {
        bytes - 10
    } else {
        0
    }
}

/// The lines that a crate opened on `roll` shows to a player who has
/// `bytes` bytes.
pub open spec fn gamble_lines(bytes: u32, roll: i32) -> Seq<Seq<char>> {
    if roll == 0 {
        seq!["You open the crate..."@, "You found 10 bytes!"@]
    } else if bytes >= 10 {
        seq!["You open the crate..."@, "You found a file gremlin that takes some bytes! :("@]
    } else if bytes != 0 {
        seq![
            "You open the crate..."@,
            "You found a file gremlin that takes some bytes! :("@,
            "The gremlin took all your remaining bytes. :("@,
        ]
    } else {
        seq![
            "You open the crate..."@,
            "You found a file gremlin that takes some bytes! :("@,
            "You didnt have any bytes for the gremlin to take, so it just left."@,
        ]
    }
}

/// Opens a crate on the outcome `roll` of the draw. Only a roll of zero
/// adds bytes, so only then the player needs room for them.
pub fn gamble(player: &mut Player, roll: i32) -> (lines: Vec<String>)
    requires
        roll == 0 ==> has_room(old(player).bytes),
    ensures
        *final(player) == (Player {
            bytes: gamble_bytes(old(player).bytes, roll) as u32,
            ..*old(player)
        }),
        texts(lines@) == gamble_lines(old(player).bytes, roll),
{
    let mut lines: Vec<String> = Vec::new();
    lines.push("You open the crate...".to_owned());
    if roll == 0 {
        lines.push("You found 10 bytes!".to_owned());
        player.bytes += 10;
    } else {
        lines.push("You found a file gremlin that takes some bytes! :(".to_owned());
        if player.bytes >= 10 {
            player.bytes -= 10;
        } else if player.bytes != 0 {
            lines.push("The gremlin took all your remaining bytes. :(".to_owned());
            player.bytes = 0;
        } else {
            lines.push(
                "You didnt have any bytes for the gremlin to take, so it just left.".to_owned(),
            );
        }
    }
    lines
}

/// Whether `after` and `lines` are what a crate leaves that `before` tried
/// to open on `roll`: what the crate holds on that roll, or nothing, with
/// the player left alone, where the roll is zero and there is no room for
/// the bytes.
pub open spec fn gambled(
    before: Player,
    roll: i32,
    after: Player,
    lines: Option<Seq<Seq<char>>>,
) -> bool {
    if roll == 0 && !has_room(before.bytes) {
        after == before && lines is None
    } else {
        after == (Player { bytes: gamble_bytes(before.bytes, roll) as u32, ..before }) && lines
            == Some(gamble_lines(before.bytes, roll))
    }
}

/// Opens a crate on the outcome `roll` of the draw if the player has room
/// for what the roll brings; hands back nothing, and leaves the player
/// alone, if not.
pub fn try_gamble(player: &mut Player, roll: i32) -> (lines: Option<Vec<String>>)
    ensures
        gambled(*old(player), roll, *final(player), shown(lines)),
{
    if roll == 0 && player.bytes > u32::MAX - 10 {
        None
    } else {
        Some(gamble(player, roll))
    }
}

/// Draws a number from `low` to `high`, both included, from the generator
/// that `rand::thread_rng` hands out, with `Rng::gen_range` on the
/// inclusive range. The contract claims only that the draw lies in the
/// range; an empty range, on which `gen_range` panics, is left out.
#[verifier::external_body]
fn draw(low: i32, high: i32) -> (roll: i32)
    requires
        low <= high,
    ensures
        low <= roll <= high,
{
    rand::thread_rng().gen_range(low..=high)
}

/// Tries to open a crate on a draw of its own, of zero or one.
pub fn open_crate(player: &mut Player) -> (lines: Option<Vec<String>>)
    ensures
        exists|roll: i32|
            0 <= roll <= 1 && #[trigger] gambled(*old(player), roll, *final(player), shown(lines)),
{
    let roll = draw(0, 1);
    try_gamble(player, roll)
}

} // verus!
