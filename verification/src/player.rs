//! The state of the player that a session carries along.

use vstd::prelude::*;
use crate::filesystem::file::{ContentView, File, FileContent, FileView};
use crate::text::{decimal, push_decimal};

verus! {

/// The player's standing.
#[derive(Debug, PartialEq, Eq)]
pub struct Player {
    pub health: u32,
    pub score: u32,
    pub bytes: u32,
}

impl Player {
    /// A player in full health who owns nothing yet.
    pub open spec fn fresh() -> Player {
        Player { health: 100, score: 0, bytes: 0 }
    }

    /// A player in full health who owns nothing yet.
    pub fn new() -> (player: Player)
        ensures
            player == Player::fresh(),
    {
        Player { health: 100, score: 0, bytes: 0 }
    }

    /// The three lines that show the player's standing.
    pub open spec fn stats(self) -> Seq<char> {
        "Health: "@ + decimal(self.health as nat) + "\nScore: "@ + decimal(self.score as nat)
            + "\nBytes: "@ + decimal(self.bytes as nat)
    }

    /// The three lines that show the player's standing.
    pub fn to_text(&self) -> (text: String)
        ensures
            text@ == self.stats(),
    {
        let mut text = "Health: ".to_owned();
        push_decimal(&mut text, self.health);
        text.append("\nScore: ");
        push_decimal(&mut text, self.score);
        text.append("\nBytes: ");
        push_decimal(&mut text, self.bytes);
        text
    }

    /// Replaces the content of `file` by the player's standing.
    pub fn write_file(&mut self, file: &mut File)
        ensures
            *final(self) == *old(self),
            final(file)@ == (FileView {
                content: ContentView::Text(old(self).stats()),
                ..old(file)@
            }),
    {
        file.content = FileContent::Text(self.to_text());
    }

    /// Takes `amount` from the player's health, down to nothing; says
    /// whether the player dies from it.
    pub fn damage(&mut self, amount: u32) -> (dead: bool)
        ensures
            dead == (old(self).health <= amount),
            final(self).health == if dead {
                0
            } else {
                old(self).health - amount
            },
            final(self).score == old(self).score,
            final(self).bytes == old(self).bytes,
    {
        if self.health > amount {
            self.health -= amount;
            false
        } else {
            self.health = 0;
            true
        }
    }

    /// Adds `amount` to the player's health.
    pub fn heal(&mut self, amount: u32)
        requires
            old(self).health + amount <= u32::MAX,
        ensures
            *final(self) == (Player { health: (old(self).health + amount) as u32, ..*old(self) }),
    {
        self.health += amount;
    }
}

impl Default for Player {
    fn default() -> (player: Player)
        ensures
            player == Player::fresh(),
    {
        Player::new()
    }
}

} // verus!
