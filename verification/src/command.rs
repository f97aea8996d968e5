//! The command layer: what a line of input asks for, and what carrying it
//! out makes of the filesystem and the player.

use vstd::prelude::*;
use crate::error::{FsError, FsErrorView};
use crate::filesystem::file::{ContentView, File, FileContent, FileView};
use crate::filesystem::resolve::FsView;
use crate::filesystem::FileSystem;
use crate::path::{parent_and_leaf, parsed, texts};
use crate::player::Player;
use crate::programs::Programs;
use crate::token::{
    fields, join_spaced, parse_u32, parsed_u32, spaced, split_fields, split_words,
    strip_dot_slash, without_dot_slash, words,
};

verus! {

/// What a line of input asks for.
#[allow(inconsistent_fields)]
#[derive(Debug, PartialEq, Eq)]
pub enum Command {
    /// Change the current directory.
    Cd { path: String },
    /// List the current directory.
    Ls,
    /// Show the path of the current directory.
    Pwd,
    /// Clear the screen.
    Clear,
    /// Leave.
    Exit,
    /// Show the text of a file.
    Cat { path: String },
    /// Run a program: the path of its file, then its arguments.
    Run { args: String },
    /// Show the commands.
    Help,
    /// Change things that a player cannot change.
    Debug { args: Vec<String> },
    /// Nothing that is known.
    Invalid,
}

/// Mathematical counterpart of [`Command`].
#[allow(inconsistent_fields)]
pub enum CommandView {
    Cd { path: Seq<char> },
    Ls,
    Pwd,
    Clear,
    Exit,
    Cat { path: Seq<char> },
    Run { args: Seq<char> },
    Help,
    Debug { args: Seq<Seq<char>> },
    Invalid,
}

impl View for Command {
    type V = CommandView;

    open spec fn view(&self) -> CommandView {
        match self {
            Command::Cd { path } => CommandView::Cd { path: path@ },
            Command::Ls => CommandView::Ls,
            Command::Pwd => CommandView::Pwd,
            Command::Clear => CommandView::Clear,
            Command::Exit => CommandView::Exit,
            Command::Cat { path } => CommandView::Cat { path: path@ },
            Command::Run { args } => CommandView::Run { args: args@ },
            Command::Help => CommandView::Help,
            Command::Debug { args } => CommandView::Debug { args: texts(args@) },
            Command::Invalid => CommandView::Invalid,
        }
    }
}

/// Whether `s` starts with `./`.
pub open spec fn is_run(s: Seq<char>) -> bool {
    s.len() >= 2 && s[0] == '.' && s[1] == '/'
}

/// Each of `words` behind a space.
pub open spec fn trailing(words: Seq<Seq<char>>) -> Seq<char>
    decreases words.len(),
{
    if words.len() == 0 {
        Seq::empty()
    } else {
        trailing(words.drop_last()) + seq![' '] + words.last()
    }
}

/// What the line `raw` asks for. The first word names the command, the
/// others are its arguments; `debug` is known only where `allow_debug`
/// holds, and a first word that starts with `./` asks for a run.
pub open spec fn command_of(raw: Seq<char>, allow_debug: bool) -> CommandView {
    let tokens = words(raw);
    if tokens.len() == 0 {
        CommandView::Invalid
    } else {
        let verb = tokens[0];
        let rest = tokens.drop_first();
        if verb == "cd"@ && rest.len() > 0 {
            CommandView::Cd { path: spaced(rest) }
        } else if verb == "ls"@ && rest.len() == 0 {
            CommandView::Ls
        } else if verb == "pwd"@ && rest.len() == 0 {
            CommandView::Pwd
        } else if verb == "clear"@ && rest.len() == 0 {
            CommandView::Clear
        } else if verb == "exit"@ && rest.len() == 0 {
            CommandView::Exit
        } else if verb == "cat"@ && rest.len() > 0 {
            CommandView::Cat { path: spaced(rest) }
        } else if verb == "help"@ {
            CommandView::Help
        } else if verb == "debug"@ && allow_debug {
            CommandView::Debug { args: rest }
        } else if is_run(verb) {
            CommandView::Run { args: without_dot_slash(verb) + trailing(rest) }
        } else {
            CommandView::Invalid
        }
    }
}

/// Whether `s` starts with `./`.
fn starts_with_dot_slash(s: &str) -> (r: bool)
    ensures
        r == is_run(s@),
{
    s.unicode_len() >= 2 && s.get_char(0) == '.' && s.get_char(1) == '/'
}

/// The words of `words` from position `from` on, each behind a space,
/// behind what `out` holds.
fn push_trailing(out: &mut String, words: &Vec<String>, from: usize)
    requires
        from <= words.len(),
    ensures
        final(out)@ == old(out)@ + trailing(texts(words@).skip(from as int)),
{
    let ghost all = texts(words@).skip(from as int);
    let mut k: usize = from;
    proof {
        reveal_strlit(" ");
    }
    while k < words.len()
        invariant
            from <= k <= words.len(),
            all == texts(words@).skip(from as int),
            " "@ == seq![' '],
            out@ == old(out)@ + trailing(all.take(k - from)),
        decreases words.len() - k,
    {
        proof {
            let now = all.take(k - from + 1);
            assert(now.drop_last() =~= all.take(k - from));
        }
        out.append(" ");
        out.append(words[k].as_str());
        k += 1;
    }
    assert(all.take(k - from) =~= all);
}

impl Command {
    /// Reads what the line `raw` asks for.
    pub fn parse(raw: &str, allow_debug: bool) -> (command: Command)
        ensures
            command@ == command_of(raw@, allow_debug),
    {
        let tokens = split_words(raw);
        if tokens.len() == 0 {
            return Command::Invalid;
        }
        let verb = tokens[0].as_str();
        let rest = tokens.len() - 1;
        if verb.eq("cd") && rest > 0 {
            Command::Cd { path: join_spaced(&tokens, 1) }
        } else if verb.eq("ls") && rest == 0 {
            Command::Ls
        } else if verb.eq("pwd") && rest == 0 {
            Command::Pwd
        } else if verb.eq("clear") && rest == 0 {
            Command::Clear
        } else if verb.eq("exit") && rest == 0 {
            Command::Exit
        } else if verb.eq("cat") && rest > 0 {
            Command::Cat { path: join_spaced(&tokens, 1) }
        } else if verb.eq("help") {
            Command::Help
        } else if verb.eq("debug") && allow_debug {
            let mut args: Vec<String> = Vec::new();
            let mut k: usize = 1;
            while k < tokens.len()
                invariant
                    1 <= k <= tokens.len(),
                    texts(args@) == texts(tokens@).subrange(1, k as int),
                decreases tokens.len() - k,
            {
                let ghost before = texts(args@);
                args.push(tokens[k].clone());
                assert(texts(args@) =~= before.push(tokens@[k as int]@));
                k += 1;
            }
            Command::Debug { args }
        } else if starts_with_dot_slash(verb) {
            let mut line = strip_dot_slash(verb);
            push_trailing(&mut line, &tokens, 1);
            Command::Run { args: line }
        } else {
            Command::Invalid
        }
    }
}

/// What is handed back when a command was carried out: whether the session
/// ends, and the lines to show.
#[derive(Debug, PartialEq, Eq)]
pub struct Reply {
    pub exit: bool,
    pub lines: Vec<String>,
}

/// Mathematical counterpart of [`Reply`].
pub struct ReplyView {
    pub exit: bool,
    pub lines: Seq<Seq<char>>,
}

impl View for Reply {
    type V = ReplyView;

    open spec fn view(&self) -> ReplyView {
        ReplyView { exit: self.exit, lines: texts(self.lines@) }
    }
}

/// What carrying out a command leaves: the reply or the failure, the
/// filesystem and the player.
pub struct Step {
    pub reply: Result<ReplyView, FsErrorView>,
    pub fs: FsView,
    pub player: Player,
}

/// The step that leaves everything as it is and shows `line`.
pub open spec fn said(line: Seq<char>, fs: FsView, player: Player) -> Step {
    Step { reply: Ok(ReplyView { exit: false, lines: seq![line] }), fs, player }
}

/// The step that shows nothing.
pub open spec fn quiet(fs: FsView, player: Player) -> Step {
    Step { reply: Ok(ReplyView { exit: false, lines: Seq::empty() }), fs, player }
}

/// The step that fails with `e`.
pub open spec fn failed(e: FsErrorView, fs: FsView, player: Player) -> Step {
    Step { reply: Err(e), fs, player }
}

/// The step of an operation that was to make `outcome` of `fs`.
pub open spec fn done(outcome: Result<FsView, FsErrorView>, fs: FsView, player: Player) -> Step {
    match outcome {
        Ok(after) => quiet(after, player),
        Err(e) => failed(e, fs, player),
    }
}

/// The text that `help` shows.
pub open spec fn help_text() -> Seq<char> {
    "Commands:\n  cd <path>                    - change directories\n  ls                           - list contents of current directory\n  pwd                          - display the current directory\n  clear                        - clear the screen\n  cat <path>                   - display the contents of a file\n  exit                         - exit the program\n  help                         - display this help message\nTo run an EXEC file, type ./<program name>"@
}

/// The text that `debug help` shows.
pub open spec fn debug_help_text() -> Seq<char> {
    "Debug commands:\n  ps <var> <value>             - edit player stats\n  edit <file path> <new text>  - edit a text file's content\n  touch <file path> <text?>    - create a new text file with optional text\n  rm <file, dir> <path>        - remove a file or directory"@
}

/// What `debug ps` makes of the player: the standing named by `variable`
/// takes `value`.
pub open spec fn set_stat(variable: Seq<char>, value: u32, fs: FsView, player: Player) -> Step {
    if variable == "health"@ {
        quiet(fs, Player { health: value, ..player })
    } else if variable == "score"@ {
        quiet(fs, Player { score: value, ..player })
    } else if variable == "bytes"@ {
        quiet(fs, Player { bytes: value, ..player })
    } else {
        said("Unknown variable."@, fs, player)
    }
}

/// What a debug command with the arguments `args` leaves.
pub open spec fn debug_step(args: Seq<Seq<char>>, fs: FsView, player: Player) -> Step {
    if args.len() == 0 {
        failed(FsErrorView::InvalidCommandArguments, fs, player)
    } else if args[0] == "help"@ || args[0] == "?"@ {
        said(debug_help_text(), fs, player)
    } else if args[0] == "ps"@ {
        if args.len() != 3 {
            failed(FsErrorView::InvalidCommandArguments, fs, player)
        } else {
            match parsed_u32(args[2]) {
                Some(value) => set_stat(args[1], value, fs, player),
                None => said("Invalid value."@, fs, player),
            }
        }
    } else if args[0] == "mkdir"@ {
        if args.len() < 2 {
            failed(FsErrorView::InvalidCommandArguments, fs, player)
        } else {
            match parsed(spaced(args.skip(1))) {
                Some((path, Some(_))) => said("Invalid path."@, fs, player),
                Some((path, None)) => done(fs.mkdir(path), fs, player),
                None => failed(FsErrorView::MalformedPath, fs, player),
            }
        }
    } else if args[0] == "edit"@ {
        if args.len() < 3 {
            failed(FsErrorView::InvalidCommandArguments, fs, player)
        } else {
            match parsed(spaced(args.skip(1))) {
                Some((path, Some(text))) => done(
                    fs.edit_file(fs.current_directory + path, ContentView::Text(text)),
                    fs,
                    player,
                ),
                Some((path, None)) => said("Invalid path."@, fs, player),
                None => failed(FsErrorView::MalformedPath, fs, player),
            }
        }
    } else if args[0] == "touch"@ {
        if args.len() < 2 {
            failed(FsErrorView::InvalidCommandArguments, fs, player)
        } else {
            match parsed(spaced(args.skip(1))) {
                Some((path, rest)) => {
                    let text = match rest {
                        Some(text) => text,
                        None => Seq::empty(),
                    };
                    let (dir, name) = parent_and_leaf(path);
                    quiet(
                        fs.touch(
                            fs.current_directory + dir,
                            FileView { name, content: ContentView::Text(text) },
                        ),
                        player,
                    )
                },
                None => failed(FsErrorView::MalformedPath, fs, player),
            }
        }
    } else if args[0] == "rm"@ {
        if args.len() < 3 {
            failed(FsErrorView::InvalidCommandArguments, fs, player)
        } else {
            match parsed(spaced(args.skip(2))) {
                Some((path, Some(rest))) => said("Invalid arguments: "@ + rest, fs, player),
                Some((path, None)) => if args[1] == "file"@ {
                    done(fs.rm_file(fs.current_directory + path), fs, player)
                } else if args[1] == "dir"@ {
                    done(fs.rm_dir(fs.current_directory + path), fs, player)
                } else {
                    said("Unknown subcommand for rm."@, fs, player)
                },
                None => failed(FsErrorView::MalformedPath, fs, player),
            }
        }
    } else {
        said("Unknown subcommand."@, fs, player)
    }
}

/// What carrying out `command`, other than a run, leaves.
pub open spec fn step_of(command: CommandView, fs: FsView, player: Player) -> Step {
    match command {
        CommandView::Help => said(help_text(), fs, player),
        CommandView::Cd { path } => match parsed(path) {
            Some((path, Some(_))) => said("Invalid path."@, fs, player),
            Some((path, None)) => done(fs.cd(path), fs, player),
            None => failed(FsErrorView::MalformedPath, fs, player),
        },
        CommandView::Ls => Step {
            reply: Ok(ReplyView { exit: false, lines: fs.listing() }),
            fs,
            player,
        },
        CommandView::Pwd => said(fs.current_directory, fs, player),
        CommandView::Clear => said("This command is not currently implemented."@, fs, player),
        CommandView::Cat { path } => match parsed(path) {
            Some((path, Some(_))) => said("Invalid path."@, fs, player),
            Some((path, None)) => match fs.cat(path) {
                Ok((name, text)) => said(name + ":\n"@ + text, fs, player),
                Err(e) => failed(e, fs, player),
            },
            None => failed(FsErrorView::MalformedPath, fs, player),
        },
        CommandView::Exit => Step {
            reply: Ok(ReplyView { exit: true, lines: Seq::empty() }),
            fs,
            player,
        },
        CommandView::Debug { args } => debug_step(args, fs, player),
        CommandView::Invalid => said("Unknown command."@, fs, player),
        CommandView::Run { .. } => quiet(fs, player),
    }
}

/// The path of the file to run and the arguments for its program, as the
/// line of a run gives them: the path as the path grammar reads it, and
/// what follows cut at every space.
pub open spec fn run_request(line: Seq<char>) -> Option<(Seq<char>, Seq<Seq<char>>)> {
    match parsed(line) {
        Some((path, Some(rest))) => Some((path, fields(rest, ' '))),
        Some((path, None)) => Some((path, Seq::empty())),
        None => None,
    }
}

/// The view of what carrying out a command handed back.
pub open spec fn result_view(r: Result<Reply, FsError>) -> Result<ReplyView, FsErrorView> {
    match r {
        Ok(reply) => Ok(reply@),
        Err(e) => Err(e@),
    }
}

/// Whether `r`, `fs_after` and `player_after` are what carrying out
/// `command` on `fs` and `player` may leave, with `programs` behind the
/// executable files. A run leaves what the program of the file leaves, and
/// shows its lines; where the line of the run is malformed, or names no
/// program, the run fails and changes nothing. Every other command leaves
/// exactly its step.
pub open spec fn carried_out<P: Programs>(
    command: CommandView,
    programs: &P,
    fs: FsView,
    player: Player,
    r: Result<ReplyView, FsErrorView>,
    fs_after: FsView,
    player_after: Player,
) -> bool {
    let left = Step { reply: r, fs: fs_after, player: player_after };
    match command {
        CommandView::Run { args } => match run_request(args) {
            Some((path, program_args)) => match fs.program_key(path) {
                Ok(key) => r is Ok && !r->Ok_0.exit && programs.outcome(
                    key,
                    fs,
                    player,
                    program_args,
                    fs_after,
                    player_after,
                    r->Ok_0.lines,
                ),
                Err(e) => left == failed(e, fs, player),
            },
            None => left == failed(FsErrorView::MalformedPath, fs, player),
        },
        _ => left == step_of(command, fs, player),
    }
}

/// The reply that goes on and shows `line`.
fn say(line: String) -> (r: Result<Reply, FsError>)
    ensures
        r is Ok,
        r->Ok_0@ == (ReplyView { exit: false, lines: seq![line@] }),
{
    let mut lines: Vec<String> = Vec::new();
    lines.push(line);
    assert(texts(lines@) =~= seq![line@]);
    Ok(Reply { exit: false, lines })
}

/// The reply that goes on and shows `lines`.
fn show(lines: Vec<String>) -> (r: Result<Reply, FsError>)
    ensures
        r is Ok,
        r->Ok_0@ == (ReplyView { exit: false, lines: texts(lines@) }),
{
    Ok(Reply { exit: false, lines })
}

/// The reply of an operation that ended in `r`.
fn finish(r: Result<(), FsError>) -> (reply: Result<Reply, FsError>)
    ensures
        match r {
            Ok(_) => reply is Ok && reply->Ok_0@ == (ReplyView {
                exit: false,
                lines: Seq::empty(),
            }),
            Err(e) => reply is Err && reply->Err_0@ == e@,
        },
{
    match r {
        Ok(_) => {
            let lines: Vec<String> = Vec::new();
            assert(texts(lines@) =~= Seq::<Seq<char>>::empty());
            Ok(Reply { exit: false, lines })
        },
        Err(e) => Err(e),
    }
}

impl Command {
    /// Carries out a debug command with the arguments `args`.
    fn execute_debug(args: &Vec<String>, fs: &mut FileSystem, player: &mut Player) -> (r: Result<
        Reply,
        FsError,
    >)
        ensures
            (Step { reply: result_view(r), fs: final(fs)@, player: *final(player) }) == debug_step(
                texts(args@),
                old(fs)@,
                *old(player),
            ),
    {
        if args.len() == 0 {
            return Err(FsError::InvalidCommandArguments);
        }
        let sub = args[0].as_str();
        if sub.eq("help") || sub.eq("?") {
            say(
                "Debug commands:\n  ps <var> <value>             - edit player stats\n  edit <file path> <new text>  - edit a text file's content\n  touch <file path> <text?>    - create a new text file with optional text\n  rm <file, dir> <path>        - remove a file or directory".to_owned(),
            )
        } else if sub.eq("ps") {
            if args.len() != 3 {
                return Err(FsError::InvalidCommandArguments);
            }
            let variable = args[1].as_str();
            let value = match parse_u32(args[2].as_str()) {
                Some(value) => value,
                None => {
                    return say("Invalid value.".to_owned());
                },
            };
            if variable.eq("health") {
                player.health = value;
            } else if variable.eq("score") {
                player.score = value;
            } else if variable.eq("bytes") {
                player.bytes = value;
            } else {
                return say("Unknown variable.".to_owned());
            }
            finish(Ok(()))
        } else if sub.eq("mkdir") {
            if args.len() < 2 {
                return Err(FsError::InvalidCommandArguments);
            }
            let (path, rest) = FileSystem::parse_path_out_of_string(&join_spaced(args, 1))?;
            if rest.is_some() {
                return say("Invalid path.".to_owned());
            }
            finish(fs.mkdir(path.as_str()))
        } else if sub.eq("edit") {
            if args.len() < 3 {
                return Err(FsError::InvalidCommandArguments);
            }
            let (path, rest) = FileSystem::parse_path_out_of_string(&join_spaced(args, 1))?;
            let text = match rest {
                Some(text) => text,
                None => {
                    return say("Invalid path.".to_owned());
                },
            };
            let path = fs.get_pwd().concat(path.as_str());
            finish(fs.edit_file(path.as_str(), FileContent::Text(text)))
        } else if sub.eq("touch") {
            if args.len() < 2 {
                return Err(FsError::InvalidCommandArguments);
            }
            let (path, rest) = FileSystem::parse_path_out_of_string(&join_spaced(args, 1))?;
            let text = match rest {
                Some(text) => text,
                None => String::new(),
            };
            let (dir, name) = match FileSystem::separate_file_and_parent(path) {
                Some(parts) => parts,
                None => {
                    return say("Invalid path.".to_owned());
                },
            };
            let dir = fs.get_pwd().concat(dir.as_str());
            fs.touch(dir.as_str(), File { name, content: FileContent::Text(text) });
            finish(Ok(()))
        } else if sub.eq("rm") {
            if args.len() < 3 {
                return Err(FsError::InvalidCommandArguments);
            }
            let kind = args[1].as_str();
            let (path, rest) = FileSystem::parse_path_out_of_string(&join_spaced(args, 2))?;
            let path = fs.get_pwd().concat(path.as_str());
            match rest {
                Some(rest) => {
                    return say("Invalid arguments: ".to_owned().concat(rest.as_str()));
                },
                None => {},
            }
            if kind.eq("file") {
                finish(fs.rm_file(path.as_str()))
            } else if kind.eq("dir") {
                finish(fs.rm_dir(path.as_str()))
            } else {
                say("Unknown subcommand for rm.".to_owned())
            }
        } else {
            say("Unknown subcommand.".to_owned())
        }
    }

    /// Carries out the command on the filesystem and the player, with
    /// `programs` behind the executable files. Hands back the lines to show
    /// and whether the session ends; a failure leaves everything as it was.
    pub fn execute<P: Programs>(
        &self,
        fs: &mut FileSystem,
        player: &mut Player,
        programs: &P,
    ) -> (r: Result<Reply, FsError>)
        ensures
            carried_out(
                self@,
                programs,
                old(fs)@,
                *old(player),
                result_view(r),
                final(fs)@,
                *final(player),
            ),
    {
        match self {
            Command::Help => say(
                "Commands:\n  cd <path>                    - change directories\n  ls                           - list contents of current directory\n  pwd                          - display the current directory\n  clear                        - clear the screen\n  cat <path>                   - display the contents of a file\n  exit                         - exit the program\n  help                         - display this help message\nTo run an EXEC file, type ./<program name>".to_owned(),
            ),
            Command::Cd { path } => {
                let (parsed, rest) = FileSystem::parse_path_out_of_string(path)?;
                if rest.is_some() {
                    return say("Invalid path.".to_owned());
                }
                finish(fs.cd(parsed))
            },
            Command::Ls => show(fs.ls()),
            Command::Pwd => say(fs.get_pwd()),
            Command::Clear => say("This command is not currently implemented.".to_owned()),
            Command::Cat { path } => {
                let (parsed, rest) = FileSystem::parse_path_out_of_string(path)?;
                if rest.is_some() {
                    return say("Invalid path.".to_owned());
                }
                let (name, text) = fs.cat(parsed.as_str())?;
                let mut line = name;
                line.append(":\n");
                line.append(text.as_str());
                say(line)
            },
            Command::Run { args } => {
                let (parsed, rest) = FileSystem::parse_path_out_of_string(args)?;
                let program_args = match rest {
                    Some(rest) => split_fields(rest.as_str(), ' '),
                    None => {
                        let none: Vec<String> = Vec::new();
                        assert(texts(none@) =~= Seq::<Seq<char>>::empty());
                        none
                    },
                };
                let lines = fs.run(parsed.as_str(), programs, player, program_args)?;
                show(lines)
            },
            Command::Exit => {
                let lines: Vec<String> = Vec::new();
                assert(texts(lines@) =~= Seq::<Seq<char>>::empty());
                Ok(Reply { exit: true, lines })
            },
            Command::Debug { args } => Command::execute_debug(args, fs, player),
            Command::Invalid => say("Unknown command.".to_owned()),
        }
    }
}

} // verus!
