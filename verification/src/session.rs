//! One turn of a session: a line of input is read as a command and carried
//! out, and the file of the player's standing is brought up to date.

use vstd::prelude::*;
use crate::command::{carried_out, command_of, result_view, Command, Reply, ReplyView};
use crate::error::FsErrorView;
use crate::filesystem::file::{ContentView, FileContent};
use crate::filesystem::resolve::FsView;
use crate::filesystem::FileSystem;
use crate::path::texts;
use crate::player::Player;
use crate::programs::Programs;

verus! {

/// How a turn ends whose command left `r`, `fs` and `player`: what the
/// command shows, or its failure in words, is shown; unless the command
/// ends the session, the file `/stats` takes the player's standing, and
/// where it cannot, one more line says so.
pub open spec fn turn_end(r: Result<ReplyView, FsErrorView>, fs: FsView, player: Player) -> (
    ReplyView,
    FsView,
) {
    let shown = match r {
        Ok(reply) => reply.lines,
        Err(e) => seq![e.message()],
    };
    if r is Ok && r->Ok_0.exit {
        (ReplyView { exit: true, lines: shown }, fs)
    } else {
        match fs.edit_file("/stats"@, ContentView::Text(player.stats())) {
            Ok(after) => (ReplyView { exit: false, lines: shown }, after),
            Err(e) => (
                ReplyView {
                    exit: false,
                    lines: shown.push("Couldn't write stats to file. "@ + e.message()),
                },
                fs,
            ),
        }
    }
}

/// Takes one turn: reads `line` as a command, carries it out, and brings
/// the file of the player's standing up to date. Hands back the lines to
/// show and whether the session ends.
pub fn turn<P: Programs>(
    line: &str,
    allow_debug: bool,
    fs: &mut FileSystem,
    player: &mut Player,
    programs: &P,
) -> (reply: Reply)
    ensures
        exists|r: Result<ReplyView, FsErrorView>, mid: FsView| #[trigger]
            carried_out(
                command_of(line@, allow_debug),
                programs,
                old(fs)@,
                *old(player),
                r,
                mid,
                *final(player),
            ) && (reply@, final(fs)@) == turn_end(r, mid, *final(player)),
{
    let command = Command::parse(line, allow_debug);
    let result = command.execute(fs, player, programs);
    let ghost r = result_view(result);
    let ghost mid = fs@;
    let mut lines = match result {
        Ok(reply) => {
            if reply.exit {
                return reply;
            }
            reply.lines
        },
        Err(e) => {
            let mut lines: Vec<String> = Vec::new();
            lines.push(e.message());
            assert(texts(lines@) =~= seq![e@.message()]);
            lines
        },
    };
    let ghost shown = texts(lines@);
    match fs.edit_file("/stats", FileContent::Text(player.to_text())) {
        Ok(_) => {},
        Err(e) => {
            lines.push("Couldn't write stats to file. ".to_owned().concat(e.message().as_str()));
            assert(texts(lines@) =~= shown.push("Couldn't write stats to file. "@ + e@.message()));
        },
    }
    let reply = Reply { exit: false, lines };
    reply
}

} // verus!
