//! Slash commands: parsing, descriptions, help text and the ghost-text
//! suggestion engine of the command line.
//!
//! Paths are carried as `String`s; a seek position is a whole number of
//! seconds.

use vstd::prelude::*;
use crate::text::{
    prefixed,
    chars_eq, concat_chars, split_words, starts_with_chars, sub_chars, words,
    chars_to_string, eq_str, lowercase_chars, parse_u32_chars, parse_u64_chars, parse_unsigned,
    lowercase_spec, split_once, split_once_chars, str_chars, string_push, trim, trim_chars,
    lemma_trim_idempotent, lemma_trim_ends, lemma_trim_plain, lemma_find_char, lemma_find_char_bound,
    lemma_ascii_lower_char, lemma_decimal_roundtrip, lemma_parse_decimal, decimal, is_digit,
    ascii_lower_char, ascii_lowercase, is_ascii_text, find_char, is_ws,
};

verus! {

broadcast use vstd::string::group_string_axioms;

/// Errors that can occur during command parsing or execution.
#[derive(Debug)]
pub enum CommandError {
    Unknown(String),
    InvalidArgument(String),
    MissingArgument(String),
    ExecutionFailed(String),
}

impl CommandError {
    /// The error's message.
    pub fn message(&self) -> (r: String)
        ensures
            r@ == match self {
                CommandError::Unknown(s) => "Unknown command: "@ + s@,
                CommandError::InvalidArgument(s) => "Invalid argument: "@ + s@,
                CommandError::MissingArgument(s) => "Missing argument: "@ + s@,
                CommandError::ExecutionFailed(s) => "Execution failed: "@ + s@,
            },
    {
        match self {
            CommandError::Unknown(s) => prefixed("Unknown command: ", s.as_str()),
            CommandError::InvalidArgument(s) => prefixed("Invalid argument: ", s.as_str()),
            CommandError::MissingArgument(s) => prefixed("Missing argument: ", s.as_str()),
            CommandError::ExecutionFailed(s) => prefixed("Execution failed: ", s.as_str()),
        }
    }
}

/// Repeat mode argument for parsing.
#[derive(Debug, Clone, Copy, PartialEq, Eq, Structural)]
pub enum RepeatModeArg {
    Off,
    One,
    All,
}

/// Subcommand for directory playlist operations.
#[derive(Debug, Clone, PartialEq)]
pub enum DirPlCmd {
    Save { name: String, directory: Option<String> },
    Load { name: String },
    List,
    Delete { name: String },
}

/// Parsed slash command.
#[derive(Debug, Clone, PartialEq)]
pub enum Command {
    // Playlist commands
    Add { path: String },
    Remove,
    Clear,
    Dedup,
    Save { name: String },
    Load { name: String },
    ListPlaylists,
    DeletePlaylist { name: String },
    Shuffle,
    Repeat { mode: Option<RepeatModeArg> },
    // Directory playlist commands
    DirPl { sub: DirPlCmd },
    // Navigation commands
    Goto { path: String },
    Search { term: String },
    Home,
    // Playback commands
    Play,
    Pause,
    Stop,
    Next,
    Prev,
    /// Seek to a position, in whole seconds.
    Seek { position: u64 },
    // Misc
    Reload,
    // UI commands
    Vis,
    Volume { level: Option<u32> },
    Help,
    Quit,
}

/// The abstract value of a [`CommandError`].
pub enum CommandErrorModel {
    Unknown(Seq<char>),
    InvalidArgument(Seq<char>),
    MissingArgument(Seq<char>),
    ExecutionFailed(Seq<char>),
}

/// The abstract value of a [`DirPlCmd`].
pub enum DirPlModel {
    Save { name: Seq<char>, directory: Option<Seq<char>> },
    Load { name: Seq<char> },
    List,
    Delete { name: Seq<char> },
}

/// The abstract value of a [`Command`]; the seek position is an
/// unbounded number of seconds.
pub enum CommandModel {
    Add { path: Seq<char> },
    Remove,
    Clear,
    Dedup,
    Save { name: Seq<char> },
    Load { name: Seq<char> },
    ListPlaylists,
    DeletePlaylist { name: Seq<char> },
    Shuffle,
    Repeat { mode: Option<RepeatModeArg> },
    DirPl { sub: DirPlModel },
    Goto { path: Seq<char> },
    Search { term: Seq<char> },
    Home,
    Play,
    Pause,
    Stop,
    Next,
    Prev,
    Seek { position: nat },
    Reload,
    Vis,
    Volume { level: Option<u32> },
    Help,
    Quit,
}

impl View for CommandError {
    type V = CommandErrorModel;

    open spec fn view(&self) -> CommandErrorModel {
        match self {
            CommandError::Unknown(s) => CommandErrorModel::Unknown(s@),
            CommandError::InvalidArgument(s) => CommandErrorModel::InvalidArgument(s@),
            CommandError::MissingArgument(s) => CommandErrorModel::MissingArgument(s@),
            CommandError::ExecutionFailed(s) => CommandErrorModel::ExecutionFailed(s@),
        }
    }
}

/// The view of an optional string.
pub open spec fn opt_string_view(o: Option<String>) -> Option<Seq<char>> {
    match o {
        Some(s) => Some(s@),
        None => None,
    }
}

impl View for DirPlCmd {
    type V = DirPlModel;

    open spec fn view(&self) -> DirPlModel {
        match self {
            DirPlCmd::Save { name, directory } => DirPlModel::Save {
                name: name@,
                directory: opt_string_view(*directory),
            },
            DirPlCmd::Load { name } => DirPlModel::Load { name: name@ },
            DirPlCmd::List => DirPlModel::List,
            DirPlCmd::Delete { name } => DirPlModel::Delete { name: name@ },
        }
    }
}

impl View for Command {
    type V = CommandModel;

    open spec fn view(&self) -> CommandModel {
        match self {
            Command::Add { path } => CommandModel::Add { path: path@ },
            Command::Remove => CommandModel::Remove,
            Command::Clear => CommandModel::Clear,
            Command::Dedup => CommandModel::Dedup,
            Command::Save { name } => CommandModel::Save { name: name@ },
            Command::Load { name } => CommandModel::Load { name: name@ },
            Command::ListPlaylists => CommandModel::ListPlaylists,
            Command::DeletePlaylist { name } => CommandModel::DeletePlaylist { name: name@ },
            Command::Shuffle => CommandModel::Shuffle,
            Command::Repeat { mode } => CommandModel::Repeat { mode: *mode },
            Command::DirPl { sub } => CommandModel::DirPl { sub: sub@ },
            Command::Goto { path } => CommandModel::Goto { path: path@ },
            Command::Search { term } => CommandModel::Search { term: term@ },
            Command::Home => CommandModel::Home,
            Command::Play => CommandModel::Play,
            Command::Pause => CommandModel::Pause,
            Command::Stop => CommandModel::Stop,
            Command::Next => CommandModel::Next,
            Command::Prev => CommandModel::Prev,
            Command::Seek { position } => CommandModel::Seek { position: *position as nat },
            Command::Reload => CommandModel::Reload,
            Command::Vis => CommandModel::Vis,
            Command::Volume { level } => CommandModel::Volume { level: *level },
            Command::Help => CommandModel::Help,
            Command::Quit => CommandModel::Quit,
        }
    }
}

/// The abstract value of a parse result.
pub open spec fn result_view<T: View>(r: Result<T, CommandError>) -> Result<T::V, CommandErrorModel> {
    match r {
        Ok(c) => Ok(c@),
        Err(e) => Err(e@),
    }
}

// ---------------------------------------------------------------------
// The grammar
// ---------------------------------------------------------------------

/// The trimmed text after the first word, if there is any.
pub open spec fn trimmed_rest(rest: Option<Seq<char>>) -> Option<Seq<char>> {
    match rest {
        Some(a) => Some(trim(a)),
        None => None,
    }
}

/// A missing-argument error naming what is missing.
pub open spec fn missing<T>(what: Seq<char>) -> Result<T, CommandErrorModel> {
    Err(CommandErrorModel::MissingArgument(what))
}

/// Repeat mode spellings, compared after lowercasing.
pub open spec fn repeat_mode_spec(s: Seq<char>) -> Result<RepeatModeArg, CommandErrorModel> {
    let l = lowercase_spec(s);
    if l == "off"@ || l == "0"@ {
        Ok(RepeatModeArg::Off)
    } else if l == "one"@ || l == "1"@ {
        Ok(RepeatModeArg::One)
    } else if l == "all"@ || l == "2"@ {
        Ok(RepeatModeArg::All)
    } else {
        Err(
            CommandErrorModel::InvalidArgument(
                "Invalid repeat mode: '"@ + s + "'. Use 'off', 'one', or 'all'"@,
            ),
        )
    }
}

/// Time positions: `M:S` (minutes and seconds, each a `u64`) or plain
/// seconds, after trimming.
pub open spec fn parse_time_spec(s: Seq<char>) -> Result<nat, CommandErrorModel> {
    let t = trim(s);
    match split_once(t, ':') {
        (min, Some(sec)) => match parse_unsigned(min, u64::MAX as nat) {
            Some(m) => match parse_unsigned(sec, u64::MAX as nat) {
                Some(x) => Ok(m * 60 + x),
                None => Err(CommandErrorModel::InvalidArgument("Invalid seconds: "@ + sec)),
            },
            None => Err(CommandErrorModel::InvalidArgument("Invalid minutes: "@ + min)),
        },
        (_, None) => match parse_unsigned(t, u64::MAX as nat) {
            Some(x) => Ok(x),
            None => Err(CommandErrorModel::InvalidArgument("Invalid time: "@ + t)),
        },
    }
}

/// The word and trimmed argument of a subcommand.
pub open spec fn sub_parts(sub_args: Seq<char>) -> (Seq<char>, Option<Seq<char>>) {
    let (w, rest) = split_once(sub_args, ' ');
    (lowercase_spec(w), trimmed_rest(rest))
}

/// `/playlist` subcommands.
pub open spec fn playlist_sub_spec(sub_args: Seq<char>) -> Result<CommandModel, CommandErrorModel> {
    let (sub, arg) = sub_parts(sub_args);
    if sub == "list"@ || sub == "ls"@ {
        Ok(CommandModel::ListPlaylists)
    } else if sub == "save"@ {
        match arg {
            Some(n) => Ok(CommandModel::Save { name: n }),
            None => missing("playlist name"@),
        }
    } else if sub == "load"@ {
        match arg {
            Some(n) => Ok(CommandModel::Load { name: n }),
            None => missing("playlist name"@),
        }
    } else if sub == "delete"@ || sub == "del"@ || sub == "rm"@ {
        match arg {
            Some(n) => Ok(CommandModel::DeletePlaylist { name: n }),
            None => missing("playlist name"@),
        }
    } else if sub.len() == 0 {
        missing("subcommand (list|save|load|delete)"@)
    } else {
        Err(CommandErrorModel::Unknown("playlist "@ + sub))
    }
}

/// `/queue` subcommands.
pub open spec fn queue_sub_spec(sub_args: Seq<char>) -> Result<CommandModel, CommandErrorModel> {
    let (sub, arg) = sub_parts(sub_args);
    if sub == "add"@ || sub == "a"@ {
        match arg {
            Some(p) => Ok(CommandModel::Add { path: p }),
            None => missing("path"@),
        }
    } else if sub == "remove"@ || sub == "rm"@ || sub == "del"@ {
        Ok(CommandModel::Remove)
    } else if sub == "clear"@ || sub == "cl"@ {
        Ok(CommandModel::Clear)
    } else if sub == "dedup"@ || sub == "dedupe"@ || sub == "unique"@ {
        Ok(CommandModel::Dedup)
    } else if sub.len() == 0 {
        missing("subcommand (add|remove|clear|dedup)"@)
    } else {
        Err(CommandErrorModel::Unknown("queue "@ + sub))
    }
}

/// `/dirplaylist` subcommands; `save` takes a name and an optional
/// directory after it.
pub open spec fn dirpl_sub_spec(sub_args: Seq<char>) -> Result<CommandModel, CommandErrorModel> {
    let (sub, arg) = sub_parts(sub_args);
    if sub == "list"@ || sub == "ls"@ {
        Ok(CommandModel::DirPl { sub: DirPlModel::List })
    } else if sub == "save"@ {
        match arg {
            Some(n) => match split_once(n, ' ') {
                (name, Some(d)) => Ok(
                    CommandModel::DirPl { sub: DirPlModel::Save { name, directory: Some(trim(d)) } },
                ),
                (name, None) => Ok(
                    CommandModel::DirPl { sub: DirPlModel::Save { name, directory: None } },
                ),
            },
            None => missing("playlist name"@),
        }
    } else if sub == "load"@ {
        match arg {
            Some(n) => Ok(CommandModel::DirPl { sub: DirPlModel::Load { name: n } }),
            None => missing("playlist name"@),
        }
    } else if sub == "delete"@ || sub == "del"@ || sub == "rm"@ {
        match arg {
            Some(n) => Ok(CommandModel::DirPl { sub: DirPlModel::Delete { name: n } }),
            None => missing("playlist name"@),
        }
    } else if sub.len() == 0 {
        missing("subcommand (save|load|list|delete)"@)
    } else {
        Err(CommandErrorModel::Unknown("dirplaylist "@ + sub))
    }
}

/// The command a line of input (without the leading `/`) denotes.
///
/// The line is trimmed; its first word, lowercased, names the command
/// (with its aliases); the rest, trimmed, is the argument.
pub open spec fn parse_spec(input: Seq<char>) -> Result<CommandModel, CommandErrorModel> {
    let (w, rest) = split_once(trim(input), ' ');
    parse_words_spec(lowercase_spec(w), trimmed_rest(rest))
}

/// What a command is, given its first word (lowercased) and the trimmed
/// text after it, if any.
pub open spec fn parse_words_spec(cmd: Seq<char>, args: Option<Seq<char>>) -> Result<
    CommandModel,
    CommandErrorModel,
> {
    if cmd == "add"@ || cmd == "a"@ {
        match args {
            Some(p) => Ok(CommandModel::Add { path: p }),
            None => missing("path"@),
        }
    } else if cmd == "remove"@ || cmd == "rm"@ || cmd == "del"@ {
        Ok(CommandModel::Remove)
    } else if cmd == "clear"@ || cmd == "cl"@ {
        Ok(CommandModel::Clear)
    } else if cmd == "dedup"@ || cmd == "dedupe"@ || cmd == "unique"@ {
        Ok(CommandModel::Dedup)
    } else if cmd == "save"@ {
        match args {
            Some(n) => Ok(CommandModel::Save { name: n }),
            None => missing("playlist name"@),
        }
    } else if cmd == "load"@ {
        match args {
            Some(n) => Ok(CommandModel::Load { name: n }),
            None => missing("playlist name"@),
        }
    } else if cmd == "playlist"@ || cmd == "pl"@ {
        match args {
            Some(a) => playlist_sub_spec(a),
            None => missing("subcommand (list|save|load|delete)"@),
        }
    } else if cmd == "queue"@ || cmd == "q"@ {
        match args {
            Some(a) => queue_sub_spec(a),
            None => if cmd == "q"@ {
                Ok(CommandModel::Dedup)
            } else {
                missing("subcommand (add|remove|clear|dedup)"@)
            },
        }
    } else if cmd == "dirplaylist"@ || cmd == "dirpl"@ || cmd == "dpl"@ {
        match args {
            Some(a) => dirpl_sub_spec(a),
            None => missing("subcommand (save|load|list|delete)"@),
        }
    } else if cmd == "shuffle"@ || cmd == "sh"@ {
        Ok(CommandModel::Shuffle)
    } else if cmd == "repeat"@ || cmd == "rep"@ {
        match args {
            Some(a) => match repeat_mode_spec(a) {
                Ok(m) => Ok(CommandModel::Repeat { mode: Some(m) }),
                Err(e) => Err(e),
            },
            None => Ok(CommandModel::Repeat { mode: None }),
        }
    } else if cmd == "goto"@ || cmd == "go"@ || cmd == "cd"@ {
        match args {
            Some(p) => Ok(CommandModel::Goto { path: p }),
            None => missing("path"@),
        }
    } else if cmd == "search"@ || cmd == "find"@ || cmd == "?"@ {
        match args {
            Some(t) => Ok(CommandModel::Search { term: t }),
            None => missing("search term"@),
        }
    } else if cmd == "home"@ || cmd == "~"@ {
        Ok(CommandModel::Home)
    } else if cmd == "reload"@ || cmd == "rl"@ {
        Ok(CommandModel::Reload)
    } else if cmd == "play"@ || cmd == "p"@ {
        Ok(CommandModel::Play)
    } else if cmd == "pause"@ || cmd == "pa"@ {
        Ok(CommandModel::Pause)
    } else if cmd == "stop"@ || cmd == "st"@ {
        Ok(CommandModel::Stop)
    } else if cmd == "next"@ || cmd == "n"@ {
        Ok(CommandModel::Next)
    } else if cmd == "prev"@ || cmd == "previous"@ || cmd == "pr"@ {
        Ok(CommandModel::Prev)
    } else if cmd == "seek"@ || cmd == "sk"@ {
        match args {
            Some(a) => match parse_time_spec(a) {
                Ok(p) => Ok(CommandModel::Seek { position: p }),
                Err(e) => Err(e),
            },
            None => missing("time position"@),
        }
    } else if cmd == "vis"@ || cmd == "visualizer"@ {
        Ok(CommandModel::Vis)
    } else if cmd == "vol"@ || cmd == "volume"@ {
        match args {
            Some(a) => match parse_unsigned(a, u32::MAX as nat) {
                Some(v) => Ok(CommandModel::Volume { level: Some(v as u32) }),
                None => Ok(CommandModel::Volume { level: None }),
            },
            None => Ok(CommandModel::Volume { level: None }),
        }
    } else if cmd == "help"@ || cmd == "h"@ {
        Ok(CommandModel::Help)
    } else if cmd == "quit"@ || cmd == "exit"@ {
        Ok(CommandModel::Quit)
    } else if cmd.len() == 0 {
        Err(CommandErrorModel::Unknown("empty command"@))
    } else {
        Err(CommandErrorModel::Unknown(cmd))
    }
}

/// Parsing ignores the whitespace around a command: a line parses as the
/// same line trimmed.
pub proof fn law_parse_ignores_surrounding_space(input: Seq<char>)
    ensures
        parse_spec(input) == parse_spec(trim(input)),
{
    lemma_trim_idempotent(input);
}

/// The command word counts only by its lowercase form, and the arguments
/// count as typed: two lines whose first words lowercase alike and whose
/// arguments are the same parse alike.
pub proof fn law_parse_command_word_case(a: Seq<char>, b: Seq<char>)
    requires
        lowercase_spec(split_once(trim(a), ' ').0) == lowercase_spec(split_once(trim(b), ' ').0),
        split_once(trim(a), ' ').1 == split_once(trim(b), ' ').1,
    ensures
        parse_spec(a) == parse_spec(b),
{
}

/// An ASCII command word counts as its lowercase: a line parses as the
/// same line trimmed with its first word in ASCII lowercase, the rest as
/// typed.
pub proof fn law_parse_lowercases_ascii_word(input: Seq<char>)
    requires
        is_ascii_text(split_once(trim(input), ' ').0),
    ensures
        ({
            let t = trim(input);
            let w = split_once(t, ' ').0;
            parse_spec(input) == parse_spec(ascii_lowercase(w) + t.skip(w.len() as int))
        }),
{
    let t = trim(input);
    let w = split_once(t, ' ').0;
    let lw = ascii_lowercase(w);
    let u = lw + t.skip(w.len() as int);
    lemma_trim_ends(input);
    lemma_find_char_bound(t, ' ');
    assert(w.len() <= t.len());
    assert(forall|i: int| 0 <= i < w.len() ==> #[trigger] w[i] == t[i]);
    assert forall|i: int| 0 <= i < w.len() implies (#[trigger] u[i]) == ascii_lower_char(t[i])
        && (u[i] == ' ') == (t[i] == ' ') && is_ws(u[i]) == is_ws(t[i]) by {
        assert(u[i] == lw[i]);
        lemma_ascii_lower_char(w[i]);
    }
    assert forall|i: int| w.len() <= i < t.len() implies #[trigger] u[i] == t[i] by {
        assert(u[i] == t.skip(w.len() as int)[i - w.len()]);
    }
    assert(u.len() == t.len());
    // The lowered line is its own trim.
    if u.len() > 0 {
        assert(!is_ws(u[0]));
        assert(!is_ws(u.last())) by {
            assert(u.last() == u[u.len() - 1]);
        }
    }
    lemma_trim_plain(u);
    // It splits at the same place.
    match find_char(t, ' ') {
        Some(k) => {
            lemma_find_char(u, ' ', k as int);
            assert(u.take(k as int) =~= lw);
            assert(u.skip(k + 1 as int) =~= t.skip(k + 1 as int));
        },
        None => {
            lemma_find_char(u, ' ', u.len() as int);
            assert(u =~= lw);
        },
    }
    // Lowercasing the lowered word changes nothing.
    assert(is_ascii_text(lw)) by {
        assert forall|i: int| 0 <= i < lw.len() implies (#[trigger] lw[i] as int) < 128 by {
            lemma_ascii_lower_char(w[i]);
        }
    }
    assert(ascii_lowercase(lw) =~= lw) by {
        assert forall|i: int| 0 <= i < lw.len() implies #[trigger] ascii_lowercase(lw)[i]
            == lw[i] by {
            lemma_ascii_lower_char(w[i]);
        }
    }
}

/// `/repeat` with an argument: the mode it names, or its error.
pub open spec fn repeat_arg_result(arg: Seq<char>) -> Result<CommandModel, CommandErrorModel> {
    match repeat_mode_spec(arg) {
        Ok(m) => ok((CommandModel::Repeat { mode: Some(m) })),
        Err(e) => Err(e),
    }
}

/// `/seek` with an argument: the position it names, in seconds, or its
/// error.
pub open spec fn seek_arg_result(arg: Seq<char>) -> Result<CommandModel, CommandErrorModel> {
    match parse_time_spec(arg) {
        Ok(p) => ok((CommandModel::Seek { position: p })),
        Err(e) => Err(e),
    }
}

/// `/vol` with an argument: the level it names when it is a number that
/// fits a `u32`, else none.
pub open spec fn volume_level(arg: Seq<char>) -> Option<u32> {
    match parse_unsigned(arg, u32::MAX as nat) {
        Some(v) => Some(v as u32),
        None => None,
    }
}

/// A successful parse.
pub open spec fn ok(m: CommandModel) -> Result<CommandModel, CommandErrorModel> {
    Ok(m)
}

/// An unknown-command error naming `what`.
pub open spec fn unknown_command(what: Seq<char>) -> Result<CommandModel, CommandErrorModel> {
    Err(CommandErrorModel::Unknown(what))
}

/// The lengths and telling characters of the command words.
proof fn lemma_command_word_literals()
    ensures
        "add"@.len() == 3 && "add"@[0] == 'a',
        "a"@.len() == 1 && "a"@[0] == 'a',
        "remove"@.len() == 6 && "remove"@[0] == 'r' && "remove"@[2] == 'm',
        "rm"@.len() == 2 && "rm"@[0] == 'r' && "rm"@[1] == 'm',
        "del"@.len() == 3 && "del"@[0] == 'd' && "del"@[1] == 'e',
        "clear"@.len() == 5 && "clear"@[0] == 'c',
        "cl"@.len() == 2 && "cl"@[0] == 'c' && "cl"@[1] == 'l',
        "dedup"@.len() == 5 && "dedup"@[0] == 'd' && "dedup"@[1] == 'e',
        "dedupe"@.len() == 6 && "dedupe"@[0] == 'd',
        "unique"@.len() == 6 && "unique"@[0] == 'u',
        "save"@.len() == 4 && "save"@[0] == 's' && "save"@[1] == 'a',
        "load"@.len() == 4 && "load"@[0] == 'l',
        "playlist"@.len() == 8 && "playlist"@[1] == 'l',
        "pl"@.len() == 2 && "pl"@[0] == 'p' && "pl"@[1] == 'l',
        "queue"@.len() == 5 && "queue"@[0] == 'q',
        "q"@.len() == 1 && "q"@[0] == 'q',
        "dirplaylist"@.len() == 11,
        "dirpl"@.len() == 5 && "dirpl"@[0] == 'd' && "dirpl"@[1] == 'i',
        "dpl"@.len() == 3 && "dpl"@[0] == 'd' && "dpl"@[1] == 'p',
        "shuffle"@.len() == 7,
        "sh"@.len() == 2 && "sh"@[0] == 's' && "sh"@[1] == 'h',
        "repeat"@.len() == 6 && "repeat"@[0] == 'r' && "repeat"@[2] == 'p',
        "rep"@.len() == 3 && "rep"@[0] == 'r',
        "goto"@.len() == 4 && "goto"@[0] == 'g',
        "go"@.len() == 2 && "go"@[0] == 'g',
        "cd"@.len() == 2 && "cd"@[0] == 'c' && "cd"@[1] == 'd',
        "search"@.len() == 6 && "search"@[0] == 's',
        "find"@.len() == 4 && "find"@[0] == 'f',
        "?"@.len() == 1 && "?"@[0] == '?',
        "home"@.len() == 4 && "home"@[0] == 'h' && "home"@[1] == 'o',
        "~"@.len() == 1 && "~"@[0] == '~',
        "reload"@.len() == 6 && "reload"@[0] == 'r' && "reload"@[2] == 'l',
        "rl"@.len() == 2 && "rl"@[0] == 'r' && "rl"@[1] == 'l',
        "play"@.len() == 4 && "play"@[0] == 'p' && "play"@[1] == 'l',
        "p"@.len() == 1 && "p"@[0] == 'p',
        "pause"@.len() == 5 && "pause"@[0] == 'p',
        "pa"@.len() == 2 && "pa"@[0] == 'p' && "pa"@[1] == 'a',
        "stop"@.len() == 4 && "stop"@[0] == 's' && "stop"@[1] == 't',
        "st"@.len() == 2 && "st"@[0] == 's' && "st"@[1] == 't',
        "next"@.len() == 4 && "next"@[0] == 'n',
        "n"@.len() == 1 && "n"@[0] == 'n',
        "prev"@.len() == 4 && "prev"@[0] == 'p' && "prev"@[1] == 'r',
        "previous"@.len() == 8 && "previous"@[1] == 'r',
        "pr"@.len() == 2 && "pr"@[0] == 'p' && "pr"@[1] == 'r',
        "seek"@.len() == 4 && "seek"@[0] == 's' && "seek"@[1] == 'e',
        "sk"@.len() == 2 && "sk"@[0] == 's' && "sk"@[1] == 'k',
        "vis"@.len() == 3 && "vis"@[0] == 'v' && "vis"@[1] == 'i',
        "visualizer"@.len() == 10,
        "vol"@.len() == 3 && "vol"@[0] == 'v' && "vol"@[1] == 'o',
        "volume"@.len() == 6 && "volume"@[0] == 'v',
        "help"@.len() == 4 && "help"@[0] == 'h' && "help"@[1] == 'e',
        "h"@.len() == 1 && "h"@[0] == 'h',
        "quit"@.len() == 4 && "quit"@[0] == 'q',
        "exit"@.len() == 4 && "exit"@[0] == 'e',
{
    reveal_strlit("add");
    reveal_strlit("a");
    reveal_strlit("remove");
    reveal_strlit("rm");
    reveal_strlit("del");
    reveal_strlit("clear");
    reveal_strlit("cl");
    reveal_strlit("dedup");
    reveal_strlit("dedupe");
    reveal_strlit("unique");
    reveal_strlit("save");
    reveal_strlit("load");
    reveal_strlit("playlist");
    reveal_strlit("pl");
    reveal_strlit("queue");
    reveal_strlit("q");
    reveal_strlit("dirplaylist");
    reveal_strlit("dirpl");
    reveal_strlit("dpl");
    reveal_strlit("shuffle");
    reveal_strlit("sh");
    reveal_strlit("repeat");
    reveal_strlit("rep");
    reveal_strlit("goto");
    reveal_strlit("go");
    reveal_strlit("cd");
    reveal_strlit("search");
    reveal_strlit("find");
    reveal_strlit("?");
    reveal_strlit("home");
    reveal_strlit("~");
    reveal_strlit("reload");
    reveal_strlit("rl");
    reveal_strlit("play");
    reveal_strlit("p");
    reveal_strlit("pause");
    reveal_strlit("pa");
    reveal_strlit("stop");
    reveal_strlit("st");
    reveal_strlit("next");
    reveal_strlit("n");
    reveal_strlit("prev");
    reveal_strlit("previous");
    reveal_strlit("pr");
    reveal_strlit("seek");
    reveal_strlit("sk");
    reveal_strlit("vis");
    reveal_strlit("visualizer");
    reveal_strlit("vol");
    reveal_strlit("volume");
    reveal_strlit("help");
    reveal_strlit("h");
    reveal_strlit("quit");
    reveal_strlit("exit");
}

/// What each command word means: the word (lowercased) and its aliases
/// name the command, and the text after it is its argument; a command
/// that needs an argument and has none reports which one is missing.
pub proof fn law_command_words(c: Seq<char>, a: Option<Seq<char>>)
    ensures
        (c == "next"@ || c == "n"@) ==> parse_words_spec(c, a) == ok(CommandModel::Next),
        (c == "prev"@ || c == "previous"@ || c == "pr"@) ==> parse_words_spec(c, a) == ok(CommandModel::Prev),
        (c == "play"@ || c == "p"@) ==> parse_words_spec(c, a) == ok(CommandModel::Play),
        (c == "pause"@ || c == "pa"@) ==> parse_words_spec(c, a) == ok(CommandModel::Pause),
        (c == "stop"@ || c == "st"@) ==> parse_words_spec(c, a) == ok(CommandModel::Stop),
        (c == "remove"@ || c == "rm"@ || c == "del"@) ==> parse_words_spec(c, a) == ok(CommandModel::Remove),
        (c == "clear"@ || c == "cl"@) ==> parse_words_spec(c, a) == ok(CommandModel::Clear),
        (c == "dedup"@ || c == "dedupe"@ || c == "unique"@) ==> parse_words_spec(c, a) == ok(CommandModel::Dedup),
        (c == "shuffle"@ || c == "sh"@) ==> parse_words_spec(c, a) == ok(CommandModel::Shuffle),
        (c == "home"@ || c == "~"@) ==> parse_words_spec(c, a) == ok(CommandModel::Home),
        (c == "reload"@ || c == "rl"@) ==> parse_words_spec(c, a) == ok(CommandModel::Reload),
        (c == "vis"@ || c == "visualizer"@) ==> parse_words_spec(c, a) == ok(CommandModel::Vis),
        (c == "help"@ || c == "h"@) ==> parse_words_spec(c, a) == ok(CommandModel::Help),
        (c == "quit"@ || c == "exit"@) ==> parse_words_spec(c, a) == ok(CommandModel::Quit),
        (c == "add"@ || c == "a"@) && a is Some ==> parse_words_spec(c, a) == ok((CommandModel::Add { path: a->0 })),
        (c == "add"@ || c == "a"@) && a is None ==> parse_words_spec(c, a) == missing::<CommandModel>("path"@),
        (c == "save"@) && a is Some ==> parse_words_spec(c, a) == ok((CommandModel::Save { name: a->0 })),
        (c == "save"@) && a is None ==> parse_words_spec(c, a) == missing::<CommandModel>("playlist name"@),
        (c == "load"@) && a is Some ==> parse_words_spec(c, a) == ok((CommandModel::Load { name: a->0 })),
        (c == "load"@) && a is None ==> parse_words_spec(c, a) == missing::<CommandModel>("playlist name"@),
        (c == "goto"@ || c == "go"@ || c == "cd"@) && a is Some ==> parse_words_spec(c, a) == ok((CommandModel::Goto { path: a->0 })),
        (c == "goto"@ || c == "go"@ || c == "cd"@) && a is None ==> parse_words_spec(c, a) == missing::<CommandModel>("path"@),
        (c == "search"@ || c == "find"@ || c == "?"@) && a is Some ==> parse_words_spec(c, a) == ok((CommandModel::Search { term: a->0 })),
        (c == "search"@ || c == "find"@ || c == "?"@) && a is None ==> parse_words_spec(c, a) == missing::<CommandModel>("search term"@),
        (c == "repeat"@ || c == "rep"@) && a is None ==> parse_words_spec(c, a) == ok((CommandModel::Repeat { mode: None })),
        (c == "vol"@ || c == "volume"@) && a is None ==> parse_words_spec(c, a) == ok((CommandModel::Volume { level: None })),
        (c == "seek"@ || c == "sk"@) && a is None ==> parse_words_spec(c, a) == missing::<CommandModel>("time position"@),
        c == "q"@ && a is None ==> parse_words_spec(c, a) == ok(CommandModel::Dedup),
        c == "queue"@ && a is None ==> parse_words_spec(c, a) == missing::<CommandModel>("subcommand (add|remove|clear|dedup)"@),
        (c == "queue"@ || c == "q"@) && a is Some ==> parse_words_spec(c, a) == queue_sub_spec(a->0),
        (c == "playlist"@ || c == "pl"@) && a is Some ==> parse_words_spec(c, a) == playlist_sub_spec(a->0),
        (c == "dirplaylist"@ || c == "dirpl"@ || c == "dpl"@) && a is Some ==> parse_words_spec(c, a) == dirpl_sub_spec(a->0),
        c.len() == 0 ==> parse_words_spec(c, a) == unknown_command("empty command"@),
        (c == "repeat"@ || c == "rep"@) && a is Some ==> parse_words_spec(c, a) == repeat_arg_result(a->0),
        (c == "seek"@ || c == "sk"@) && a is Some ==> parse_words_spec(c, a) == seek_arg_result(a->0),
        (c == "vol"@ || c == "volume"@) && a is Some ==> parse_words_spec(c, a) == ok((CommandModel::Volume { level: volume_level(a->0) })),
{
    lemma_command_word_literals();
    if (c == "next"@ || c == "n"@) {
        assert(parse_words_spec(c, a) == ok(CommandModel::Next));
    }
    if (c == "prev"@ || c == "previous"@ || c == "pr"@) {
        assert(parse_words_spec(c, a) == ok(CommandModel::Prev));
    }
    if (c == "play"@ || c == "p"@) {
        assert(parse_words_spec(c, a) == ok(CommandModel::Play));
    }
    if (c == "pause"@ || c == "pa"@) {
        assert(parse_words_spec(c, a) == ok(CommandModel::Pause));
    }
    if (c == "stop"@ || c == "st"@) {
        assert(parse_words_spec(c, a) == ok(CommandModel::Stop));
    }
    if (c == "remove"@ || c == "rm"@ || c == "del"@) {
        assert(parse_words_spec(c, a) == ok(CommandModel::Remove));
    }
    if (c == "clear"@ || c == "cl"@) {
        assert(parse_words_spec(c, a) == ok(CommandModel::Clear));
    }
    if (c == "dedup"@ || c == "dedupe"@ || c == "unique"@) {
        assert(parse_words_spec(c, a) == ok(CommandModel::Dedup));
    }
    if (c == "shuffle"@ || c == "sh"@) {
        assert(parse_words_spec(c, a) == ok(CommandModel::Shuffle));
    }
    if (c == "home"@ || c == "~"@) {
        assert(parse_words_spec(c, a) == ok(CommandModel::Home));
    }
    if (c == "reload"@ || c == "rl"@) {
        assert(parse_words_spec(c, a) == ok(CommandModel::Reload));
    }
    if (c == "vis"@ || c == "visualizer"@) {
        assert(parse_words_spec(c, a) == ok(CommandModel::Vis));
    }
    if (c == "help"@ || c == "h"@) {
        assert(parse_words_spec(c, a) == ok(CommandModel::Help));
    }
    if (c == "quit"@ || c == "exit"@) {
        assert(parse_words_spec(c, a) == ok(CommandModel::Quit));
    }
    if (c == "add"@ || c == "a"@) && a is Some {
        assert(parse_words_spec(c, a) == ok((CommandModel::Add { path: a->0 })));
    }
    if (c == "add"@ || c == "a"@) && a is None {
        assert(parse_words_spec(c, a) == missing::<CommandModel>("path"@));
    }
    if (c == "save"@) && a is Some {
        assert(parse_words_spec(c, a) == ok((CommandModel::Save { name: a->0 })));
    }
    if (c == "save"@) && a is None {
        assert(parse_words_spec(c, a) == missing::<CommandModel>("playlist name"@));
    }
    if (c == "load"@) && a is Some {
        assert(parse_words_spec(c, a) == ok((CommandModel::Load { name: a->0 })));
    }
    if (c == "load"@) && a is None {
        assert(parse_words_spec(c, a) == missing::<CommandModel>("playlist name"@));
    }
    if (c == "goto"@ || c == "go"@ || c == "cd"@) && a is Some {
        assert(parse_words_spec(c, a) == ok((CommandModel::Goto { path: a->0 })));
    }
    if (c == "goto"@ || c == "go"@ || c == "cd"@) && a is None {
        assert(parse_words_spec(c, a) == missing::<CommandModel>("path"@));
    }
    if (c == "search"@ || c == "find"@ || c == "?"@) && a is Some {
        assert(parse_words_spec(c, a) == ok((CommandModel::Search { term: a->0 })));
    }
    if (c == "search"@ || c == "find"@ || c == "?"@) && a is None {
        assert(parse_words_spec(c, a) == missing::<CommandModel>("search term"@));
    }
    if (c == "repeat"@ || c == "rep"@) && a is None {
        assert(parse_words_spec(c, a) == ok((CommandModel::Repeat { mode: None })));
    }
    if (c == "vol"@ || c == "volume"@) && a is None {
        assert(parse_words_spec(c, a) == ok((CommandModel::Volume { level: None })));
    }
    if (c == "seek"@ || c == "sk"@) && a is None {
        assert(parse_words_spec(c, a) == missing::<CommandModel>("time position"@));
    }
    if c == "q"@ && a is None {
        assert(parse_words_spec(c, a) == ok(CommandModel::Dedup));
    }
    if c == "queue"@ && a is None {
        assert(parse_words_spec(c, a) == missing::<CommandModel>("subcommand (add|remove|clear|dedup)"@));
    }
    if (c == "queue"@ || c == "q"@) && a is Some {
        assert(parse_words_spec(c, a) == queue_sub_spec(a->0));
    }
    if (c == "playlist"@ || c == "pl"@) && a is Some {
        assert(parse_words_spec(c, a) == playlist_sub_spec(a->0));
    }
    if (c == "dirplaylist"@ || c == "dirpl"@ || c == "dpl"@) && a is Some {
        assert(parse_words_spec(c, a) == dirpl_sub_spec(a->0));
    }
    if c.len() == 0 {
        assert(parse_words_spec(c, a) == unknown_command("empty command"@));
    }
    if (c == "repeat"@ || c == "rep"@) && a is Some {
        assert(parse_words_spec(c, a) == repeat_arg_result(a->0));
    }
    if (c == "seek"@ || c == "sk"@) && a is Some {
        assert(parse_words_spec(c, a) == seek_arg_result(a->0));
    }
}

/// The lengths and telling characters of the subcommand and repeat-mode
/// words.
proof fn lemma_sub_word_literals()
    ensures
        "add"@.len() == 3 && "add"@[0] == 'a' && "add"@[1] == 'd',
        "a"@.len() == 1 && "a"@[0] == 'a',
        "remove"@.len() == 6 && "remove"@[0] == 'r',
        "rm"@.len() == 2 && "rm"@[0] == 'r',
        "del"@.len() == 3 && "del"@[0] == 'd',
        "clear"@.len() == 5 && "clear"@[0] == 'c',
        "cl"@.len() == 2 && "cl"@[0] == 'c',
        "dedup"@.len() == 5 && "dedup"@[0] == 'd',
        "dedupe"@.len() == 6 && "dedupe"@[0] == 'd' && "dedupe"@[2] == 'd',
        "unique"@.len() == 6 && "unique"@[0] == 'u',
        "list"@.len() == 4 && "list"@[0] == 'l' && "list"@[1] == 'i',
        "ls"@.len() == 2 && "ls"@[0] == 'l',
        "save"@.len() == 4 && "save"@[0] == 's',
        "load"@.len() == 4 && "load"@[0] == 'l' && "load"@[1] == 'o',
        "delete"@.len() == 6 && "delete"@[0] == 'd' && "delete"@[2] == 'l',
        "off"@.len() == 3 && "off"@[0] == 'o' && "off"@[1] == 'f',
        "0"@.len() == 1 && "0"@[0] == '0',
        "one"@.len() == 3 && "one"@[0] == 'o' && "one"@[1] == 'n',
        "1"@.len() == 1 && "1"@[0] == '1',
        "all"@.len() == 3 && "all"@[0] == 'a' && "all"@[1] == 'l',
        "2"@.len() == 1 && "2"@[0] == '2',
{
    reveal_strlit("add");
    reveal_strlit("a");
    reveal_strlit("remove");
    reveal_strlit("rm");
    reveal_strlit("del");
    reveal_strlit("clear");
    reveal_strlit("cl");
    reveal_strlit("dedup");
    reveal_strlit("dedupe");
    reveal_strlit("unique");
    reveal_strlit("list");
    reveal_strlit("ls");
    reveal_strlit("save");
    reveal_strlit("load");
    reveal_strlit("delete");
    reveal_strlit("off");
    reveal_strlit("0");
    reveal_strlit("one");
    reveal_strlit("1");
    reveal_strlit("all");
    reveal_strlit("2");
}

/// The `/queue` subcommands: `add`/`a` with a path adds it, `remove`/`rm`/`del` removes
/// the selected track, `clear`/`cl` empties the queue, and `dedup`/`dedupe`/`unique`
/// removes duplicates.
pub proof fn law_queue_subcommands(args: Seq<char>)
    ensures
        (sub_parts(args).0 == "add"@ || sub_parts(args).0 == "a"@) && sub_parts(args).1 is Some ==> queue_sub_spec(args) == ok((CommandModel::Add { path: sub_parts(args).1->0 })),
        (sub_parts(args).0 == "add"@ || sub_parts(args).0 == "a"@) && sub_parts(args).1 is None ==> queue_sub_spec(args) == missing::<CommandModel>("path"@),
        (sub_parts(args).0 == "remove"@ || sub_parts(args).0 == "rm"@ || sub_parts(args).0 == "del"@) && sub_parts(args).1 is Some ==> queue_sub_spec(args) == ok(CommandModel::Remove),
        (sub_parts(args).0 == "remove"@ || sub_parts(args).0 == "rm"@ || sub_parts(args).0 == "del"@) && sub_parts(args).1 is None ==> queue_sub_spec(args) == ok(CommandModel::Remove),
        (sub_parts(args).0 == "clear"@ || sub_parts(args).0 == "cl"@) && sub_parts(args).1 is Some ==> queue_sub_spec(args) == ok(CommandModel::Clear),
        (sub_parts(args).0 == "clear"@ || sub_parts(args).0 == "cl"@) && sub_parts(args).1 is None ==> queue_sub_spec(args) == ok(CommandModel::Clear),
        (sub_parts(args).0 == "dedup"@ || sub_parts(args).0 == "dedupe"@ || sub_parts(args).0 == "unique"@) && sub_parts(args).1 is Some ==> queue_sub_spec(args) == ok(CommandModel::Dedup),
        (sub_parts(args).0 == "dedup"@ || sub_parts(args).0 == "dedupe"@ || sub_parts(args).0 == "unique"@) && sub_parts(args).1 is None ==> queue_sub_spec(args) == ok(CommandModel::Dedup),
{
    lemma_sub_word_literals();
}

/// The `/playlist` subcommands: `list`/`ls` lists the saved playlists, and `save`,
/// `load` and `delete`/`del`/`rm` take the playlist's name.
pub proof fn law_playlist_subcommands(args: Seq<char>)
    ensures
        (sub_parts(args).0 == "list"@ || sub_parts(args).0 == "ls"@) && sub_parts(args).1 is Some ==> playlist_sub_spec(args) == ok(CommandModel::ListPlaylists),
        (sub_parts(args).0 == "list"@ || sub_parts(args).0 == "ls"@) && sub_parts(args).1 is None ==> playlist_sub_spec(args) == ok(CommandModel::ListPlaylists),
        (sub_parts(args).0 == "save"@) && sub_parts(args).1 is Some ==> playlist_sub_spec(args) == ok((CommandModel::Save { name: sub_parts(args).1->0 })),
        (sub_parts(args).0 == "save"@) && sub_parts(args).1 is None ==> playlist_sub_spec(args) == missing::<CommandModel>("playlist name"@),
        (sub_parts(args).0 == "load"@) && sub_parts(args).1 is Some ==> playlist_sub_spec(args) == ok((CommandModel::Load { name: sub_parts(args).1->0 })),
        (sub_parts(args).0 == "load"@) && sub_parts(args).1 is None ==> playlist_sub_spec(args) == missing::<CommandModel>("playlist name"@),
        (sub_parts(args).0 == "delete"@ || sub_parts(args).0 == "del"@ || sub_parts(args).0 == "rm"@) && sub_parts(args).1 is Some ==> playlist_sub_spec(args) == ok((CommandModel::DeletePlaylist { name: sub_parts(args).1->0 })),
        (sub_parts(args).0 == "delete"@ || sub_parts(args).0 == "del"@ || sub_parts(args).0 == "rm"@) && sub_parts(args).1 is None ==> playlist_sub_spec(args) == missing::<CommandModel>("playlist name"@),
{
    lemma_sub_word_literals();
}

/// The `/dirpl` subcommands: `list`/`ls` lists the directory playlists, and `load`
/// and `delete`/`del`/`rm` take the playlist's name.
pub proof fn law_dirpl_subcommands(args: Seq<char>)
    ensures
        (sub_parts(args).0 == "list"@ || sub_parts(args).0 == "ls"@) && sub_parts(args).1 is Some ==> dirpl_sub_spec(args) == ok((CommandModel::DirPl { sub: DirPlModel::List })),
        (sub_parts(args).0 == "list"@ || sub_parts(args).0 == "ls"@) && sub_parts(args).1 is None ==> dirpl_sub_spec(args) == ok((CommandModel::DirPl { sub: DirPlModel::List })),
        (sub_parts(args).0 == "load"@) && sub_parts(args).1 is Some ==> dirpl_sub_spec(args) == ok((CommandModel::DirPl { sub: DirPlModel::Load { name: sub_parts(args).1->0 } })),
        (sub_parts(args).0 == "load"@) && sub_parts(args).1 is None ==> dirpl_sub_spec(args) == missing::<CommandModel>("playlist name"@),
        (sub_parts(args).0 == "delete"@ || sub_parts(args).0 == "del"@ || sub_parts(args).0 == "rm"@) && sub_parts(args).1 is Some ==> dirpl_sub_spec(args) == ok((CommandModel::DirPl { sub: DirPlModel::Delete { name: sub_parts(args).1->0 } })),
        (sub_parts(args).0 == "delete"@ || sub_parts(args).0 == "del"@ || sub_parts(args).0 == "rm"@) && sub_parts(args).1 is None ==> dirpl_sub_spec(args) == missing::<CommandModel>("playlist name"@),
{
    lemma_sub_word_literals();
}

/// The repeat modes: `off`/`0`, `one`/`1` and `all`/`2`, in any case.
pub proof fn law_repeat_mode_words(s: Seq<char>)
    ensures
        (lowercase_spec(s) == "off"@ || lowercase_spec(s) == "0"@) ==> repeat_mode_spec(s) == Ok::<RepeatModeArg, CommandErrorModel>(RepeatModeArg::Off),
        (lowercase_spec(s) == "one"@ || lowercase_spec(s) == "1"@) ==> repeat_mode_spec(s) == Ok::<RepeatModeArg, CommandErrorModel>(RepeatModeArg::One),
        (lowercase_spec(s) == "all"@ || lowercase_spec(s) == "2"@) ==> repeat_mode_spec(s) == Ok::<RepeatModeArg, CommandErrorModel>(RepeatModeArg::All),
{
    lemma_sub_word_literals();
}

/// A decimal digit is neither whitespace nor a colon.
proof fn lemma_digit_plain(c: char)
    requires
        is_digit(c),
    ensures
        !is_ws(c),
        c != ':',
{
    assert((c as u32) == (c as int));
    assert(('0' as int) == 48 && ('9' as int) == 57);
}

/// Times read back: `m:s` written in decimal is `m` minutes and `s`
/// seconds, and a plain decimal number is that many seconds.
pub proof fn law_parse_time_decimal(m: nat, sec: nat)
    requires
        m <= u64::MAX,
        sec <= u64::MAX,
    ensures
        parse_time_spec(decimal(m) + ":"@ + decimal(sec)) == Ok::<nat, CommandErrorModel>(m * 60 + sec),
        parse_time_spec(decimal(sec)) == Ok::<nat, CommandErrorModel>(sec),
{
    reveal_strlit(":");
    let dm = decimal(m);
    let ds = decimal(sec);
    lemma_decimal_roundtrip(m);
    lemma_decimal_roundtrip(sec);
    lemma_parse_decimal(m, u64::MAX as nat);
    lemma_parse_decimal(sec, u64::MAX as nat);
    // `m:s`
    let t = dm + ":"@ + ds;
    let k = dm.len() as int;
    assert(t[k] == ':');
    assert forall|i: int| 0 <= i < t.len() && i != k implies is_digit(#[trigger] t[i]) by {
        if i < k {
            assert(t[i] == dm[i]);
        } else {
            assert(t[i] == ds[i - k - 1]);
        }
    }
    assert forall|i: int| 0 <= i < k implies #[trigger] t[i] != ':' by {
        lemma_digit_plain(t[i]);
    }
    lemma_digit_plain(t[0]);
    lemma_digit_plain(t[t.len() - 1]);
    assert(t.last() == t[t.len() - 1]);
    lemma_trim_plain(t);
    lemma_find_char(t, ':', k);
    assert(t.take(k) =~= dm);
    assert(t.skip(k + 1) =~= ds);
    // plain seconds
    assert forall|i: int| 0 <= i < ds.len() implies #[trigger] ds[i] != ':' by {
        lemma_digit_plain(ds[i]);
    }
    lemma_digit_plain(ds[0]);
    lemma_digit_plain(ds[ds.len() - 1]);
    assert(ds.last() == ds[ds.len() - 1]);
    lemma_trim_plain(ds);
    lemma_find_char(ds, ':', ds.len() as int);
}

/// A line's command is what its first word, lowercased, and the trimmed
/// text after it name (see [`law_command_words`]): e.g. a line whose first
/// word is `next` or `N` gives the next-track command, `prev` the previous
/// one.
pub proof fn law_parse_uses_first_word(input: Seq<char>)
    ensures
        ({
            let (w, rest) = split_once(trim(input), ' ');
            let c = lowercase_spec(w);
            let a = trimmed_rest(rest);
            &&& parse_spec(input) == parse_words_spec(c, a)
            &&& (c == "next"@ || c == "n"@) ==> parse_spec(input) == ok(CommandModel::Next)
            &&& (c == "prev"@ || c == "previous"@ || c == "pr"@) ==> parse_spec(input) == ok(
                CommandModel::Prev,
            )
        }),
{
    let (w, rest) = split_once(trim(input), ' ');
    law_command_words(lowercase_spec(w), trimmed_rest(rest));
}

/// Whether parsing ended in an unknown-command error.
pub open spec fn is_unknown_command(r: Result<CommandModel, CommandErrorModel>) -> bool {
    r matches Err(CommandErrorModel::Unknown(_))
}

/// Every command that the help screen lists is one the parser knows: its
/// word, as the parser sees it after lowercasing, never gives an
/// unknown-command error.
pub proof fn law_help_commands_are_known()
    ensures
        !is_unknown_command(parse_words_spec("queue"@, None)),
        !is_unknown_command(parse_words_spec("playlist"@, None)),
        !is_unknown_command(parse_words_spec("dirpl"@, None)),
        !is_unknown_command(parse_words_spec("shuffle"@, None)),
        !is_unknown_command(parse_words_spec("repeat"@, None)),
        !is_unknown_command(parse_words_spec("goto"@, None)),
        !is_unknown_command(parse_words_spec("search"@, None)),
        !is_unknown_command(parse_words_spec("home"@, None)),
        !is_unknown_command(parse_words_spec("play"@, None)),
        !is_unknown_command(parse_words_spec("pause"@, None)),
        !is_unknown_command(parse_words_spec("stop"@, None)),
        !is_unknown_command(parse_words_spec("next"@, None)),
        !is_unknown_command(parse_words_spec("prev"@, None)),
        !is_unknown_command(parse_words_spec("seek"@, None)),
        !is_unknown_command(parse_words_spec("vis"@, None)),
        !is_unknown_command(parse_words_spec("vol"@, None)),
        !is_unknown_command(parse_words_spec("reload"@, None)),
        !is_unknown_command(parse_words_spec("help"@, None)),
        !is_unknown_command(parse_words_spec("quit"@, None)),
{
    reveal_strlit("add");
    reveal_strlit("a");
    reveal_strlit("remove");
    reveal_strlit("rm");
    reveal_strlit("del");
    reveal_strlit("clear");
    reveal_strlit("cl");
    reveal_strlit("dedup");
    reveal_strlit("dedupe");
    reveal_strlit("unique");
    reveal_strlit("save");
    reveal_strlit("load");
    reveal_strlit("playlist");
    reveal_strlit("pl");
    reveal_strlit("queue");
    reveal_strlit("q");
    reveal_strlit("dirplaylist");
    reveal_strlit("dirpl");
    reveal_strlit("dpl");
    reveal_strlit("shuffle");
    reveal_strlit("sh");
    reveal_strlit("repeat");
    reveal_strlit("rep");
    reveal_strlit("goto");
    reveal_strlit("go");
    reveal_strlit("cd");
    reveal_strlit("search");
    reveal_strlit("find");
    reveal_strlit("?");
    reveal_strlit("home");
    reveal_strlit("~");
    reveal_strlit("reload");
    reveal_strlit("rl");
    reveal_strlit("play");
    reveal_strlit("p");
    reveal_strlit("pause");
    reveal_strlit("pa");
    reveal_strlit("stop");
    reveal_strlit("st");
    reveal_strlit("next");
    reveal_strlit("n");
    reveal_strlit("prev");
    reveal_strlit("previous");
    reveal_strlit("pr");
    reveal_strlit("seek");
    reveal_strlit("sk");
    reveal_strlit("vis");
    reveal_strlit("visualizer");
    reveal_strlit("vol");
    reveal_strlit("volume");
    reveal_strlit("help");
    reveal_strlit("h");
    reveal_strlit("quit");
    reveal_strlit("exit");
}

/// Whether a seek position in `input` fits in a `u64` (parsing panics
/// on an overflowing `M:S` time).
pub open spec fn parse_fits(input: Seq<char>) -> bool {
    match parse_spec(input) {
        Ok(CommandModel::Seek { position }) => position <= u64::MAX,
        _ => true,
    }
}

// ---------------------------------------------------------------------
// Parsing
// ---------------------------------------------------------------------

/// `a + b` as a `String`.
fn join_str(a: &str, b: &Vec<char>) -> (r: String)
    ensures
        r@ == a@ + b@,
{
    let mut r = a.to_string();
    let n = b.len();
    let mut i: usize = 0;
    while i < n
        invariant
            i <= n,
            n == b@.len(),
            r@ == a@ + b@.take(i as int),
        decreases n - i,
    {
        string_push(&mut r, b[i]);
        proof {
            assert(r@ =~= a@ + b@.take(i + 1));
        }
        i = i + 1;
    }
    proof {
        assert(b@.take(n as int) =~= b@);
    }
    r
}

/// `a + b + c` as a `String`.
fn join3(a: &str, b: &Vec<char>, c: &str) -> (r: String)
    ensures
        r@ == a@ + b@ + c@,
{
    let mut r = join_str(a, b);
    r.append(c);
    r
}

fn missing_arg<T>(what: &str) -> (r: Result<T, CommandError>)
    ensures
        r matches Err(e) && e@ == CommandErrorModel::MissingArgument(what@),
{
    Err(CommandError::MissingArgument(what.to_string()))
}

/// Splits off the first word at a space and lowercases it; the rest is
/// trimmed.
fn split_parts(v: &Vec<char>) -> (r: (Vec<char>, Option<Vec<char>>))
    ensures
        r.0@ == lowercase_spec(split_once(v@, ' ').0),
        opt_chars_view(r.1) == trimmed_rest(split_once(v@, ' ').1),
{
    let (w, rest) = split_once_chars(v, ' ');
    let l = lowercase_chars(&w);
    let args = match rest {
        Some(a) => Some(trim_chars(&a)),
        None => None,
    };
    (l, args)
}

/// The view of an optional character vector.
pub open spec fn opt_chars_view(o: Option<Vec<char>>) -> Option<Seq<char>> {
    match o {
        Some(v) => Some(v@),
        None => None,
    }
}

/// Parses a repeat mode (`off`/`0`, `one`/`1`, `all`/`2`, in any case).
pub fn parse_repeat_mode(s: &str) -> (r: Result<RepeatModeArg, CommandError>)
    ensures
        match (r, repeat_mode_spec(s@)) {
            (Ok(a), Ok(b)) => a == b,
            (Err(a), Err(b)) => a@ == b,
            _ => false,
        },
{
    let v = str_chars(s);
    repeat_mode_chars(&v)
}

fn repeat_mode_chars(v: &Vec<char>) -> (r: Result<RepeatModeArg, CommandError>)
    ensures
        match (r, repeat_mode_spec(v@)) {
            (Ok(a), Ok(b)) => a == b,
            (Err(a), Err(b)) => a@ == b,
            _ => false,
        },
{
    let l = lowercase_chars(v);
    if eq_str(&l, "off") || eq_str(&l, "0") {
        Ok(RepeatModeArg::Off)
    } else if eq_str(&l, "one") || eq_str(&l, "1") {
        Ok(RepeatModeArg::One)
    } else if eq_str(&l, "all") || eq_str(&l, "2") {
        Ok(RepeatModeArg::All)
    } else {
        Err(CommandError::InvalidArgument(join3("Invalid repeat mode: '", v, "'. Use 'off', 'one', or 'all'")))
    }
}

/// Parses a time string like `"1:30"` or `"90"` into whole seconds.
pub fn parse_time(s: &str) -> (r: Result<u64, CommandError>)
    requires
        parse_time_spec(s@) matches Ok(p) ==> p <= u64::MAX,
    ensures
        match (r, parse_time_spec(s@)) {
            (Ok(a), Ok(b)) => a as nat == b,
            (Err(a), Err(b)) => a@ == b,
            _ => false,
        },
{
    let v = str_chars(s);
    parse_time_chars(&v)
}

fn parse_time_chars(v: &Vec<char>) -> (r: Result<u64, CommandError>)
    requires
        parse_time_spec(v@) matches Ok(p) ==> p <= u64::MAX,
    ensures
        match (r, parse_time_spec(v@)) {
            (Ok(a), Ok(b)) => a as nat == b,
            (Err(a), Err(b)) => a@ == b,
            _ => false,
        },
{
    let t = trim_chars(v);
    let (min, sec) = split_once_chars(&t, ':');
    match sec {
        Some(sec) => {
            let minutes = match parse_u64_chars(&min) {
                Some(m) => m,
                None => {
                    return Err(CommandError::InvalidArgument(join_str("Invalid minutes: ", &min)));
                },
            };
            let seconds = match parse_u64_chars(&sec) {
                Some(x) => x,
                None => {
                    return Err(CommandError::InvalidArgument(join_str("Invalid seconds: ", &sec)));
                },
            };
            Ok(minutes * 60 + seconds)
        },
        None => match parse_u64_chars(&t) {
            Some(x) => Ok(x),
            None => Err(CommandError::InvalidArgument(join_str("Invalid time: ", &t))),
        },
    }
}

/// Word and argument of a subcommand.
fn sub_split(sub_args: &Vec<char>) -> (r: (Vec<char>, Option<Vec<char>>))
    ensures
        r.0@ == sub_parts(sub_args@).0,
        opt_chars_view(r.1) == sub_parts(sub_args@).1,
{
    split_parts(sub_args)
}

fn playlist_sub(sub_args: &Vec<char>) -> (r: Result<Command, CommandError>)
    ensures
        result_view(r) == playlist_sub_spec(sub_args@),
{
    let (sub, arg) = sub_split(sub_args);
    if eq_str(&sub, "list") || eq_str(&sub, "ls") {
        Ok(Command::ListPlaylists)
    } else if eq_str(&sub, "save") {
        match arg {
            Some(n) => Ok(Command::Save { name: chars_to_string(&n) }),
            None => missing_arg("playlist name"),
        }
    } else if eq_str(&sub, "load") {
        match arg {
            Some(n) => Ok(Command::Load { name: chars_to_string(&n) }),
            None => missing_arg("playlist name"),
        }
    } else if eq_str(&sub, "delete") || eq_str(&sub, "del") || eq_str(&sub, "rm") {
        match arg {
            Some(n) => Ok(Command::DeletePlaylist { name: chars_to_string(&n) }),
            None => missing_arg("playlist name"),
        }
    } else if sub.len() == 0 {
        missing_arg("subcommand (list|save|load|delete)")
    } else {
        Err(CommandError::Unknown(join_str("playlist ", &sub)))
    }
}

fn queue_sub(sub_args: &Vec<char>) -> (r: Result<Command, CommandError>)
    ensures
        result_view(r) == queue_sub_spec(sub_args@),
{
    let (sub, arg) = sub_split(sub_args);
    if eq_str(&sub, "add") || eq_str(&sub, "a") {
        match arg {
            Some(p) => Ok(Command::Add { path: chars_to_string(&p) }),
            None => missing_arg("path"),
        }
    } else if eq_str(&sub, "remove") || eq_str(&sub, "rm") || eq_str(&sub, "del") {
        Ok(Command::Remove)
    } else if eq_str(&sub, "clear") || eq_str(&sub, "cl") {
        Ok(Command::Clear)
    } else if eq_str(&sub, "dedup") || eq_str(&sub, "dedupe") || eq_str(&sub, "unique") {
        Ok(Command::Dedup)
    } else if sub.len() == 0 {
        missing_arg("subcommand (add|remove|clear|dedup)")
    } else {
        Err(CommandError::Unknown(join_str("queue ", &sub)))
    }
}

fn dirpl_sub(sub_args: &Vec<char>) -> (r: Result<Command, CommandError>)
    ensures
        result_view(r) == dirpl_sub_spec(sub_args@),
{
    let (sub, arg) = sub_split(sub_args);
    if eq_str(&sub, "list") || eq_str(&sub, "ls") {
        Ok(Command::DirPl { sub: DirPlCmd::List })
    } else if eq_str(&sub, "save") {
        match arg {
            Some(n) => {
                let (name, d) = split_once_chars(&n, ' ');
                match d {
                    Some(d) => {
                        let dir = trim_chars(&d);
                        Ok(
                            Command::DirPl {
                                sub: DirPlCmd::Save {
                                    name: chars_to_string(&name),
                                    directory: Some(chars_to_string(&dir)),
                                },
                            },
                        )
                    },
                    None => Ok(
                        Command::DirPl {
                            sub: DirPlCmd::Save { name: chars_to_string(&name), directory: None },
                        },
                    ),
                }
            },
            None => missing_arg("playlist name"),
        }
    } else if eq_str(&sub, "load") {
        match arg {
            Some(n) => Ok(Command::DirPl { sub: DirPlCmd::Load { name: chars_to_string(&n) } }),
            None => missing_arg("playlist name"),
        }
    } else if eq_str(&sub, "delete") || eq_str(&sub, "del") || eq_str(&sub, "rm") {
        match arg {
            Some(n) => Ok(Command::DirPl { sub: DirPlCmd::Delete { name: chars_to_string(&n) } }),
            None => missing_arg("playlist name"),
        }
    } else if sub.len() == 0 {
        missing_arg("subcommand (save|load|list|delete)")
    } else {
        Err(CommandError::Unknown(join_str("dirplaylist ", &sub)))
    }
}

/// The words `seek` and `sk` differ from the command words before them.
proof fn lemma_seek_words()
    ensures
        "seek"@ != "save"@,
        "seek"@ != "load"@,
        "seek"@ != "home"@,
        "seek"@ != "goto"@,
        "seek"@ != "play"@,
        "seek"@ != "stop"@,
        "seek"@ != "next"@,
        "seek"@ != "prev"@,
        "seek"@ != "find"@,
        "sk"@ != "rm"@,
        "sk"@ != "cl"@,
        "sk"@ != "pl"@,
        "sk"@ != "sh"@,
        "sk"@ != "go"@,
        "sk"@ != "cd"@,
        "sk"@ != "rl"@,
        "sk"@ != "pa"@,
        "sk"@ != "st"@,
        "sk"@ != "pr"@,
{
    reveal_strlit("seek");
    reveal_strlit("sk");
    reveal_strlit("save");
    reveal_strlit("load");
    reveal_strlit("home");
    reveal_strlit("goto");
    reveal_strlit("play");
    reveal_strlit("stop");
    reveal_strlit("next");
    reveal_strlit("prev");
    reveal_strlit("find");
    reveal_strlit("rm");
    reveal_strlit("cl");
    reveal_strlit("pl");
    reveal_strlit("sh");
    reveal_strlit("go");
    reveal_strlit("cd");
    reveal_strlit("rl");
    reveal_strlit("pa");
    reveal_strlit("st");
    reveal_strlit("pr");
    assert("seek"@[1] != "save"@[1]);
    assert("seek"@[0] != "load"@[0]);
    assert("seek"@[0] != "home"@[0]);
    assert("seek"@[0] != "goto"@[0]);
    assert("seek"@[0] != "play"@[0]);
    assert("seek"@[1] != "stop"@[1]);
    assert("seek"@[0] != "next"@[0]);
    assert("seek"@[0] != "prev"@[0]);
    assert("seek"@[0] != "find"@[0]);
    assert("sk"@[0] != "rm"@[0]);
    assert("sk"@[0] != "cl"@[0]);
    assert("sk"@[0] != "pl"@[0]);
    assert("sk"@[1] != "sh"@[1]);
    assert("sk"@[0] != "go"@[0]);
    assert("sk"@[0] != "cd"@[0]);
    assert("sk"@[0] != "rl"@[0]);
    assert("sk"@[0] != "pa"@[0]);
    assert("sk"@[1] != "st"@[1]);
    assert("sk"@[0] != "pr"@[0]);
}

/// Whether the time `v` parses to a position that fits in a `u64`
/// (always, when it does not parse).
fn time_fits(v: &Vec<char>) -> (r: bool)
    ensures
        r == (parse_time_spec(v@) matches Ok(p) ==> p <= u64::MAX),
{
    let t = trim_chars(v);
    let (min, sec) = split_once_chars(&t, ':');
    match sec {
        Some(sec) => match (parse_u64_chars(&min), parse_u64_chars(&sec)) {
            (Some(m), Some(x)) => (m as u128) * 60 + (x as u128) <= u64::MAX as u128,
            _ => true,
        },
        None => true,
    }
}

/// Whether [`Command::parse`] can take `input`: a seek position written
/// as `M:S` must come to at most `u64::MAX` seconds.
pub fn seek_fits(input: &str) -> (r: bool)
    ensures
        r == parse_fits(input@),
{
    let v = str_chars(input);
    let t = trim_chars(&v);
    let (cmd, args) = split_parts(&t);
    proof {
        reveal_strlit("seek");
        reveal_strlit("sk");
        reveal_strlit("add");
        reveal_strlit("a");
        reveal_strlit("remove");
        reveal_strlit("rm");
        reveal_strlit("del");
        reveal_strlit("clear");
        reveal_strlit("cl");
        reveal_strlit("dedup");
        reveal_strlit("dedupe");
        reveal_strlit("unique");
        reveal_strlit("save");
        reveal_strlit("load");
        reveal_strlit("playlist");
        reveal_strlit("pl");
        reveal_strlit("queue");
        reveal_strlit("q");
        reveal_strlit("dirplaylist");
        reveal_strlit("dirpl");
        reveal_strlit("dpl");
        reveal_strlit("shuffle");
        reveal_strlit("sh");
        reveal_strlit("repeat");
        reveal_strlit("rep");
        reveal_strlit("goto");
        reveal_strlit("go");
        reveal_strlit("cd");
        reveal_strlit("search");
        reveal_strlit("find");
        reveal_strlit("?");
        reveal_strlit("home");
        reveal_strlit("~");
        reveal_strlit("reload");
        reveal_strlit("rl");
        reveal_strlit("play");
        reveal_strlit("p");
        reveal_strlit("pause");
        reveal_strlit("pa");
        reveal_strlit("stop");
        reveal_strlit("st");
        reveal_strlit("next");
        reveal_strlit("n");
        reveal_strlit("prev");
        reveal_strlit("previous");
        reveal_strlit("pr");
    }
    let ghost args_view = trimmed_rest(split_once(trim(input@), ' ').1);
    assert(cmd@ == lowercase_spec(split_once(trim(input@), ' ').0));
    if eq_str(&cmd, "seek") || eq_str(&cmd, "sk") {
        match args {
            Some(a) => {
                assert(args_view == Some(a@));
                proof {
                    lemma_seek_words();
                }
                assert(parse_spec(input@) == match parse_time_spec(a@) {
                    Ok(p) => Ok(CommandModel::Seek { position: p }),
                    Err(e) => Err::<CommandModel, CommandErrorModel>(e),
                });
                time_fits(&a)
            },
            None => true,
        }
    } else {
        assert(!(parse_spec(input@) is Ok && parse_spec(input@)->Ok_0 is Seek));
        true
    }
}

impl Command {
    /// Parses a command string, as [`Command::parse`] does, when a seek
    /// position in it fits in a `u64` ([`seek_fits`]); `None` otherwise.
    pub fn try_parse(input: &str) -> (r: Option<Result<Command, CommandError>>)
        ensures
            match r {
                Some(res) => parse_fits(input@) && result_view(res) == parse_spec(input@),
                None => !parse_fits(input@),
            },
    {
        if seek_fits(input) {
            Some(Command::parse(input))
        } else {
            None
        }
    }

    /// Parses a command string (without the leading `/`).
    pub fn parse(input: &str) -> (r: Result<Command, CommandError>)
        requires
            parse_fits(input@),
        ensures
            result_view(r) == parse_spec(input@),
    {
        let v = str_chars(input);
        let t = trim_chars(&v);
        let (cmd, args) = split_parts(&t);
        Command::parse_words(&cmd, args)
    }

    /// Parses a command given its first word, lowercased, and the
    /// trimmed text after it, if any.
    pub fn parse_words(cmd: &Vec<char>, args: Option<Vec<char>>) -> (r: Result<Command, CommandError>)
        requires
            parse_words_spec(cmd@, opt_chars_view(args)) matches Ok(CommandModel::Seek { position })
                ==> position <= u64::MAX,
        ensures
            result_view(r) == parse_words_spec(cmd@, opt_chars_view(args)),
    {
        if eq_str(&cmd, "add") || eq_str(&cmd, "a") {
            match args {
                Some(p) => Ok(Command::Add { path: chars_to_string(&p) }),
                None => missing_arg("path"),
            }
        } else if eq_str(&cmd, "remove") || eq_str(&cmd, "rm") || eq_str(&cmd, "del") {
            Ok(Command::Remove)
        } else if eq_str(&cmd, "clear") || eq_str(&cmd, "cl") {
            Ok(Command::Clear)
        } else if eq_str(&cmd, "dedup") || eq_str(&cmd, "dedupe") || eq_str(&cmd, "unique") {
            Ok(Command::Dedup)
        } else if eq_str(&cmd, "save") {
            match args {
                Some(n) => Ok(Command::Save { name: chars_to_string(&n) }),
                None => missing_arg("playlist name"),
            }
        } else if eq_str(&cmd, "load") {
            match args {
                Some(n) => Ok(Command::Load { name: chars_to_string(&n) }),
                None => missing_arg("playlist name"),
            }
        } else if eq_str(&cmd, "playlist") || eq_str(&cmd, "pl") {
            match args {
                Some(a) => playlist_sub(&a),
                None => missing_arg("subcommand (list|save|load|delete)"),
            }
        } else if eq_str(&cmd, "queue") || eq_str(&cmd, "q") {
            match args {
                Some(a) => queue_sub(&a),
                None => if eq_str(&cmd, "q") {
                    Ok(Command::Dedup)
                } else {
                    missing_arg("subcommand (add|remove|clear|dedup)")
                },
            }
        } else if eq_str(&cmd, "dirplaylist") || eq_str(&cmd, "dirpl") || eq_str(&cmd, "dpl") {
            match args {
                Some(a) => dirpl_sub(&a),
                None => missing_arg("subcommand (save|load|list|delete)"),
            }
        } else if eq_str(&cmd, "shuffle") || eq_str(&cmd, "sh") {
            Ok(Command::Shuffle)
        } else if eq_str(&cmd, "repeat") || eq_str(&cmd, "rep") {
            match args {
                Some(a) => match repeat_mode_chars(&a) {
                    Ok(m) => Ok(Command::Repeat { mode: Some(m) }),
                    Err(e) => Err(e),
                },
                None => Ok(Command::Repeat { mode: None }),
            }
        } else if eq_str(&cmd, "goto") || eq_str(&cmd, "go") || eq_str(&cmd, "cd") {
            match args {
                Some(p) => Ok(Command::Goto { path: chars_to_string(&p) }),
                None => missing_arg("path"),
            }
        } else if eq_str(&cmd, "search") || eq_str(&cmd, "find") || eq_str(&cmd, "?") {
            match args {
                Some(t) => Ok(Command::Search { term: chars_to_string(&t) }),
                None => missing_arg("search term"),
            }
        } else if eq_str(&cmd, "home") || eq_str(&cmd, "~") {
            Ok(Command::Home)
        } else if eq_str(&cmd, "reload") || eq_str(&cmd, "rl") {
            Ok(Command::Reload)
        } else if eq_str(&cmd, "play") || eq_str(&cmd, "p") {
            Ok(Command::Play)
        } else if eq_str(&cmd, "pause") || eq_str(&cmd, "pa") {
            Ok(Command::Pause)
        } else if eq_str(&cmd, "stop") || eq_str(&cmd, "st") {
            Ok(Command::Stop)
        } else if eq_str(&cmd, "next") || eq_str(&cmd, "n") {
            Ok(Command::Next)
        } else if eq_str(&cmd, "prev") || eq_str(&cmd, "previous") || eq_str(&cmd, "pr") {
            Ok(Command::Prev)
        } else if eq_str(&cmd, "seek") || eq_str(&cmd, "sk") {
            match args {
                Some(a) => match parse_time_chars(&a) {
                    Ok(p) => Ok(Command::Seek { position: p }),
                    Err(e) => Err(e),
                },
                None => missing_arg("time position"),
            }
        } else if eq_str(&cmd, "vis") || eq_str(&cmd, "visualizer") {
            Ok(Command::Vis)
        } else if eq_str(&cmd, "vol") || eq_str(&cmd, "volume") {
            match args {
                Some(a) => Ok(Command::Volume { level: parse_u32_chars(&a) }),
                None => Ok(Command::Volume { level: None }),
            }
        } else if eq_str(&cmd, "help") || eq_str(&cmd, "h") {
            Ok(Command::Help)
        } else if eq_str(&cmd, "quit") || eq_str(&cmd, "exit") {
            Ok(Command::Quit)
        } else if cmd.len() == 0 {
            Err(CommandError::Unknown("empty command".to_string()))
        } else {
            Err(CommandError::Unknown(chars_to_string(&cmd)))
        }
    }
}

impl std::str::FromStr for RepeatModeArg {
    type Err = CommandError;

    fn from_str(s: &str) -> (r: Result<Self, Self::Err>)
        ensures
            match (r, repeat_mode_spec(s@)) {
                (Ok(a), Ok(b)) => a == b,
                (Err(a), Err(b)) => a@ == b,
                _ => false,
            },
    {
        parse_repeat_mode(s)
    }
}

// ---------------------------------------------------------------------
// Descriptions and help
// ---------------------------------------------------------------------

/// The one-line description of each command.
pub open spec fn description_text(c: CommandModel) -> &'static str {
    match c {
        CommandModel::Add { .. } => "Add file/folder to playlist",
        CommandModel::Remove => "Remove selected track",
        CommandModel::Clear => "Clear playlist",
        CommandModel::Dedup => "Remove duplicate tracks",
        CommandModel::Save { .. } => "Save playlist",
        CommandModel::Load { .. } => "Load playlist",
        CommandModel::ListPlaylists => "List saved playlists",
        CommandModel::DeletePlaylist { .. } => "Delete saved playlist",
        CommandModel::DirPl { .. } => "Directory playlist",
        CommandModel::Shuffle => "Toggle shuffle",
        CommandModel::Repeat { .. } => "Set repeat mode",
        CommandModel::Goto { .. } => "Navigate to path",
        CommandModel::Search { .. } => "Search/filter",
        CommandModel::Home => "Go to home directory",
        CommandModel::Play => "Play selected track",
        CommandModel::Pause => "Pause playback",
        CommandModel::Stop => "Stop playback",
        CommandModel::Next => "Next track",
        CommandModel::Prev => "Previous track",
        CommandModel::Seek { .. } => "Seek to position",
        CommandModel::Reload => "Reload last loaded playlist",
        CommandModel::Vis => "Toggle visualizer",
        CommandModel::Volume { .. } => "Set volume (0-100)",
        CommandModel::Help => "Show help",
        CommandModel::Quit => "Quit application",
    }
}

impl Command {
    /// Returns a brief description of the command for help text.
    pub fn description(&self) -> (r: &'static str)
        ensures
            r == description_text(self@),
    {
        match self {
            Command::Add { .. } => "Add file/folder to playlist",
            Command::Remove => "Remove selected track",
            Command::Clear => "Clear playlist",
            Command::Dedup => "Remove duplicate tracks",
            Command::Save { .. } => "Save playlist",
            Command::Load { .. } => "Load playlist",
            Command::ListPlaylists => "List saved playlists",
            Command::DeletePlaylist { .. } => "Delete saved playlist",
            Command::DirPl { .. } => "Directory playlist",
            Command::Shuffle => "Toggle shuffle",
            Command::Repeat { .. } => "Set repeat mode",
            Command::Goto { .. } => "Navigate to path",
            Command::Search { .. } => "Search/filter",
            Command::Home => "Go to home directory",
            Command::Play => "Play selected track",
            Command::Pause => "Pause playback",
            Command::Stop => "Stop playback",
            Command::Next => "Next track",
            Command::Prev => "Previous track",
            Command::Seek { .. } => "Seek to position",
            Command::Reload => "Reload last loaded playlist",
            Command::Vis => "Toggle visualizer",
            Command::Volume { .. } => "Set volume (0-100)",
            Command::Help => "Show help",
            Command::Quit => "Quit application",
        }
    }
}

/// The help screen listing all commands.
pub const HELP_TEXT: &'static str = r#"Queue Commands:
  /queue add <path>   Add file/folder to queue
  /queue remove       Remove selected track
  /queue clear        Clear queue
  /queue dedup        Remove duplicate tracks

Playlist Commands:
  /playlist list      List saved playlists
  /playlist save <n>  Save playlist
  /playlist load <n>  Load playlist
  /playlist delete <n>  Delete saved playlist
  /shuffle            Toggle shuffle mode
  /repeat [mode]      Set repeat (off/one/all)

Directory Playlist Commands:
  /dirpl save <name> [dir]  Save directory as playlist
  /dirpl load <name>        Load a directory playlist
  /dirpl list               List saved dir playlists
  /dirpl delete <name>      Delete a directory playlist

Navigation Commands:
  /goto <path>    Navigate browser to path
  /search <term>  Filter current view
  /home           Go to home directory

Playback Commands:
  /play           Play selected track
  /pause          Pause playback
  /stop           Stop playback
  /next           Next track
  /prev           Previous track
  /seek <time>    Seek to position (e.g., 1:30)

Other Commands:
  /vis            Toggle visualizer      [v]
  /vol [0-100]    Set volume             [+/-]
  /reload         Reload last playlist   [R]
  /help           Show this help         [?]
  /quit           Exit oxidio            [q]"#;

/// Returns help text listing all available commands.
pub fn help_text() -> (r: &'static str)
    ensures
        r == HELP_TEXT,
{
    HELP_TEXT
}

// ---------------------------------------------------------------------
// Suggestions
// ---------------------------------------------------------------------

/// A subcommand for the suggestion engine.
pub struct SubDef {
    /// The canonical subcommand name.
    pub name: &'static str,
    /// Argument hint; empty if it takes no argument.
    pub hint: &'static str,
}

/// A top-level command for the suggestion engine.
pub struct CommandDef {
    /// The canonical command name.
    pub name: &'static str,
    /// Argument hint (e.g. `<path>`); empty if there is none.
    pub hint: &'static str,
    /// Subcommands, if any.
    pub subs: Vec<SubDef>,
}

/// The abstract value of a [`SubDef`].
pub struct SubDefModel {
    pub name: Seq<char>,
    pub hint: Seq<char>,
}

/// The abstract value of a [`CommandDef`].
pub struct DefModel {
    pub name: Seq<char>,
    pub hint: Seq<char>,
    pub subs: Seq<SubDefModel>,
}

impl View for SubDef {
    type V = SubDefModel;

    open spec fn view(&self) -> SubDefModel {
        SubDefModel { name: self.name@, hint: self.hint@ }
    }
}

impl View for CommandDef {
    type V = DefModel;

    open spec fn view(&self) -> DefModel {
        DefModel {
            name: self.name@,
            hint: self.hint@,
            subs: self.subs@.map_values(|s: SubDef| s@),
        }
    }
}

/// A subcommand model from two literals.
pub open spec fn sub_model(name: &str, hint: &str) -> SubDefModel {
    SubDefModel { name: name@, hint: hint@ }
}

/// Subcommands of `/playlist`.
pub open spec fn playlist_subs_spec() -> Seq<SubDefModel> {
    seq![
        sub_model("delete", "<name>"),
        sub_model("list", ""),
        sub_model("load", "<name>"),
        sub_model("save", "<name>"),
    ]
}

/// Subcommands of `/queue`.
pub open spec fn queue_subs_spec() -> Seq<SubDefModel> {
    seq![
        sub_model("add", "<path>"),
        sub_model("clear", ""),
        sub_model("dedup", ""),
        sub_model("remove", ""),
    ]
}

/// Subcommands of `/dirplaylist`.
pub open spec fn dirpl_subs_spec() -> Seq<SubDefModel> {
    seq![
        sub_model("delete", "<name>"),
        sub_model("list", ""),
        sub_model("load", "<name>"),
        sub_model("save", "<name> [dir]"),
    ]
}

/// A command model from two literals and its subcommands.
pub open spec fn def_model(name: &str, hint: &str, subs: Seq<SubDefModel>) -> DefModel {
    DefModel { name: name@, hint: hint@, subs }
}

/// All top-level commands, in alphabetical order.
pub open spec fn command_defs_spec() -> Seq<DefModel> {
    seq![
        def_model("dirplaylist", "", dirpl_subs_spec()),
        def_model("goto", "<path>", Seq::empty()),
        def_model("help", "", Seq::empty()),
        def_model("home", "", Seq::empty()),
        def_model("next", "", Seq::empty()),
        def_model("pause", "", Seq::empty()),
        def_model("play", "", Seq::empty()),
        def_model("playlist", "", playlist_subs_spec()),
        def_model("prev", "", Seq::empty()),
        def_model("queue", "", queue_subs_spec()),
        def_model("quit", "", Seq::empty()),
        def_model("reload", "", Seq::empty()),
        def_model("repeat", "[off|one|all]", Seq::empty()),
        def_model("search", "<term>", Seq::empty()),
        def_model("seek", "<time>", Seq::empty()),
        def_model("shuffle", "", Seq::empty()),
        def_model("stop", "", Seq::empty()),
        def_model("vis", "", Seq::empty()),
        def_model("vol", "[0-100]", Seq::empty()),
    ]
}

fn sub_def(name: &'static str, hint: &'static str) -> (r: SubDef)
    ensures
        r@ == sub_model(name, hint),
{
    SubDef { name, hint }
}

fn playlist_subs() -> (r: Vec<SubDef>)
    ensures
        r@.map_values(|s: SubDef| s@) == playlist_subs_spec(),
{
    let r = vec![sub_def("delete", "<name>"), sub_def("list", ""), sub_def("load", "<name>"), sub_def("save", "<name>")];
    assert(r@.map_values(|s: SubDef| s@) =~= playlist_subs_spec());
    r
}

fn queue_subs() -> (r: Vec<SubDef>)
    ensures
        r@.map_values(|s: SubDef| s@) == queue_subs_spec(),
{
    let r = vec![sub_def("add", "<path>"), sub_def("clear", ""), sub_def("dedup", ""), sub_def("remove", "")];
    assert(r@.map_values(|s: SubDef| s@) =~= queue_subs_spec());
    r
}

fn dirpl_subs() -> (r: Vec<SubDef>)
    ensures
        r@.map_values(|s: SubDef| s@) == dirpl_subs_spec(),
{
    let r = vec![
        sub_def("delete", "<name>"),
        sub_def("list", ""),
        sub_def("load", "<name>"),
        sub_def("save", "<name> [dir]"),
    ];
    assert(r@.map_values(|s: SubDef| s@) =~= dirpl_subs_spec());
    r
}

fn def(name: &'static str, hint: &'static str, subs: Vec<SubDef>) -> (r: CommandDef)
    ensures
        r@ == def_model(name, hint, subs@.map_values(|s: SubDef| s@)),
{
    CommandDef { name, hint, subs }
}

/// The command definitions, as [`command_defs_spec`] lists them.
pub fn command_defs() -> (r: Vec<CommandDef>)
    ensures
        r@.map_values(|d: CommandDef| d@) == command_defs_spec(),
{
    let none: Vec<SubDef> = Vec::new();
    proof {
        assert(none@.map_values(|s: SubDef| s@) =~= Seq::<SubDefModel>::empty());
    }
    let r = vec![
        def("dirplaylist", "", dirpl_subs()),
        def("goto", "<path>", Vec::new()),
        def("help", "", Vec::new()),
        def("home", "", Vec::new()),
        def("next", "", Vec::new()),
        def("pause", "", Vec::new()),
        def("play", "", Vec::new()),
        def("playlist", "", playlist_subs()),
        def("prev", "", Vec::new()),
        def("queue", "", queue_subs()),
        def("quit", "", Vec::new()),
        def("reload", "", Vec::new()),
        def("repeat", "[off|one|all]", Vec::new()),
        def("search", "<term>", Vec::new()),
        def("seek", "<time>", Vec::new()),
        def("shuffle", "", Vec::new()),
        def("stop", "", Vec::new()),
        def("vis", "", Vec::new()),
        def("vol", "[0-100]", Vec::new()),
    ];
    proof {
        assert(Seq::<SubDef>::empty().map_values(|s: SubDef| s@) =~= Seq::<SubDefModel>::empty());
    }
    assert(r@.map_values(|d: CommandDef| d@) =~= command_defs_spec());
    r
}

/// Index of the first name that `w` is a prefix of.
pub open spec fn first_with_prefix(names: Seq<Seq<char>>, w: Seq<char>) -> Option<nat>
    decreases names.len(),
{
    if names.len() == 0 {
        None
    } else if w.is_prefix_of(names[0]) {
        Some(0)
    } else {
        match first_with_prefix(names.drop_first(), w) {
            Some(k) => Some(k + 1),
            None => None,
        }
    }
}

/// Index of the first name equal to `w`.
pub open spec fn first_equal(names: Seq<Seq<char>>, w: Seq<char>) -> Option<nat>
    decreases names.len(),
{
    if names.len() == 0 {
        None
    } else if names[0] == w {
        Some(0)
    } else {
        match first_equal(names.drop_first(), w) {
            Some(k) => Some(k + 1),
            None => None,
        }
    }
}

proof fn lemma_first_with_prefix(names: Seq<Seq<char>>, w: Seq<char>, i: int)
    requires
        0 <= i <= names.len(),
        forall|j: int| 0 <= j < i ==> !w.is_prefix_of(#[trigger] names[j]),
    ensures
        i < names.len() && w.is_prefix_of(names[i]) ==> first_with_prefix(names, w) == Some(
            i as nat,
        ),
        i == names.len() ==> first_with_prefix(names, w) is None,
    decreases i,
{
    if i > 0 {
        assert forall|j: int| 0 <= j < i - 1 implies !w.is_prefix_of(
            #[trigger] names.drop_first()[j],
        ) by {
            assert(names.drop_first()[j] == names[j + 1]);
        }
        lemma_first_with_prefix(names.drop_first(), w, i - 1);
    }
}

proof fn lemma_first_equal(names: Seq<Seq<char>>, w: Seq<char>, i: int)
    requires
        0 <= i <= names.len(),
        forall|j: int| 0 <= j < i ==> #[trigger] names[j] != w,
    ensures
        i < names.len() && names[i] == w ==> first_equal(names, w) == Some(i as nat),
        i == names.len() ==> first_equal(names, w) is None,
    decreases i,
{
    if i > 0 {
        assert forall|j: int| 0 <= j < i - 1 implies #[trigger] names.drop_first()[j] != w by {
            assert(names.drop_first()[j] == names[j + 1]);
        }
        lemma_first_equal(names.drop_first(), w, i - 1);
    }
}

/// What `first_with_prefix` finds is a match.
proof fn lemma_first_with_prefix_found(names: Seq<Seq<char>>, w: Seq<char>)
    ensures
        first_with_prefix(names, w) matches Some(i) ==> i < names.len() && w.is_prefix_of(
            names[i as int],
        ),
    decreases names.len(),
{
    if names.len() > 0 && !w.is_prefix_of(names[0]) {
        lemma_first_with_prefix_found(names.drop_first(), w);
        if let Some(k) = first_with_prefix(names.drop_first(), w) {
            assert(names.drop_first()[k as int] == names[k + 1 as int]);
        }
    }
}

/// What `first_equal` finds is a match.
proof fn lemma_first_equal_found(names: Seq<Seq<char>>, w: Seq<char>)
    ensures
        first_equal(names, w) matches Some(i) ==> i < names.len() && names[i as int] == w,
    decreases names.len(),
{
    if names.len() > 0 && names[0] != w {
        lemma_first_equal_found(names.drop_first(), w);
        if let Some(k) = first_equal(names.drop_first(), w) {
            assert(names.drop_first()[k as int] == names[k + 1 as int]);
        }
    }
}

/// The names of the command definitions.
pub open spec fn def_names(defs: Seq<DefModel>) -> Seq<Seq<char>> {
    defs.map_values(|d: DefModel| d.name)
}

/// The names of subcommand definitions.
pub open spec fn sub_names(subs: Seq<SubDefModel>) -> Seq<Seq<char>> {
    subs.map_values(|s: SubDefModel| s.name)
}

/// `a + " " + b`.
pub open spec fn spaced(a: Seq<char>, b: Seq<char>) -> Seq<char> {
    a + seq![' '] + b
}

/// A subcommand with its hint: `name hint`, or just the name.
pub open spec fn sub_with_hint(s: SubDefModel) -> Seq<char> {
    if s.hint.len() == 0 {
        s.name
    } else {
        spaced(s.name, s.hint)
    }
}

/// The hint shown after a complete command name: its first subcommand
/// (with that one's hint), or its own hint.
pub open spec fn def_hint_spec(d: DefModel) -> Seq<char> {
    if d.subs.len() > 0 {
        sub_with_hint(d.subs[0])
    } else {
        d.hint
    }
}

/// Ghost text for a word being typed that `name` starts with: the rest
/// of the name and the hint, or for a complete name the hint after a
/// space (nothing when there is no hint).
pub open spec fn complete_word(name: Seq<char>, typed: Seq<char>, hint: Seq<char>) -> Option<
    Seq<char>,
> {
    if name == typed {
        if hint.len() == 0 {
            None
        } else {
            Some(seq![' '] + hint)
        }
    } else {
        let rest = name.skip(typed.len() as int);
        if hint.len() == 0 {
            Some(rest)
        } else {
            Some(spaced(rest, hint))
        }
    }
}

/// The ghost-text suggestion for command input `input` (without the
/// leading `/`): the alphabetically first command (then subcommand)
/// that the word being typed begins, completed with its argument hint.
pub open spec fn suggestion_spec(input: Seq<char>) -> Option<Seq<char>> {
    let trailing = input.len() > 0 && input.last() == ' ';
    let ws = words(input);
    if input.len() == 0 || ws.len() == 0 {
        None
    } else {
        suggestion_from(
            ws.len(),
            trailing,
            lowercase_spec(ws[0]),
            if ws.len() > 1 {
                lowercase_spec(ws[1])
            } else {
                Seq::empty()
            },
        )
    }
}

/// The completion for input of `n_words` words, ending in a space when
/// `trailing` is set, whose first word lowercased is `first` and whose
/// second word lowercased, when there is one, is `second`.
pub open spec fn suggestion_from(n_words: nat, trailing: bool, first: Seq<char>, second: Seq<char>) -> Option<Seq<char>> {
    let defs = command_defs_spec();
    if n_words == 1 && !trailing {
        match first_with_prefix(def_names(defs), first) {
            Some(i) => complete_word(defs[i as int].name, first, def_hint_spec(defs[i as int])),
            None => None,
        }
    } else {
        match first_equal(def_names(defs), first) {
            None => None,
            Some(i) => {
                let d = defs[i as int];
                if d.subs.len() > 0 && n_words == 1 {
                    Some(sub_with_hint(d.subs[0]))
                } else if d.subs.len() > 0 {
                    let space_after = n_words > 2 || trailing;
                    if !space_after {
                        match first_with_prefix(sub_names(d.subs), second) {
                            Some(j) => complete_word(
                                d.subs[j as int].name,
                                second,
                                d.subs[j as int].hint,
                            ),
                            None => None,
                        }
                    } else {
                        match first_equal(sub_names(d.subs), second) {
                            Some(j) => if n_words == 2 && d.subs[j as int].hint.len() > 0 {
                                Some(d.subs[j as int].hint)
                            } else {
                                None
                            },
                            None => None,
                        }
                    }
                } else if d.hint.len() > 0 && n_words == 1 {
                    Some(d.hint)
                } else {
                    None
                }
            },
        }
    }
}

/// Finds the first name that `w` is a prefix of.
fn find_prefix(names: &Vec<Vec<char>>, w: &Vec<char>) -> (r: Option<usize>)
    ensures
        match r {
            Some(i) => first_with_prefix(names@.map_values(|v: Vec<char>| v@), w@) == Some(
                i as nat,
            ),
            None => first_with_prefix(names@.map_values(|v: Vec<char>| v@), w@) is None,
        },
{
    let ghost ns = names@.map_values(|v: Vec<char>| v@);
    let n = names.len();
    let mut i: usize = 0;
    while i < n
        invariant
            i <= n,
            n == names@.len(),
            ns == names@.map_values(|v: Vec<char>| v@),
            forall|j: int| 0 <= j < i ==> !w@.is_prefix_of(#[trigger] ns[j]),
        decreases n - i,
    {
        if starts_with_chars(&names[i], w) {
            proof {
                lemma_first_with_prefix(ns, w@, i as int);
            }
            return Some(i);
        }
        i = i + 1;
    }
    proof {
        lemma_first_with_prefix(ns, w@, i as int);
    }
    None
}

/// Finds the first name equal to `w`.
fn find_equal(names: &Vec<Vec<char>>, w: &Vec<char>) -> (r: Option<usize>)
    ensures
        match r {
            Some(i) => first_equal(names@.map_values(|v: Vec<char>| v@), w@) == Some(i as nat),
            None => first_equal(names@.map_values(|v: Vec<char>| v@), w@) is None,
        },
{
    let ghost ns = names@.map_values(|v: Vec<char>| v@);
    let n = names.len();
    let mut i: usize = 0;
    while i < n
        invariant
            i <= n,
            n == names@.len(),
            ns == names@.map_values(|v: Vec<char>| v@),
            forall|j: int| 0 <= j < i ==> #[trigger] ns[j] != w@,
        decreases n - i,
    {
        if chars_eq(&names[i], w) {
            proof {
                lemma_first_equal(ns, w@, i as int);
            }
            return Some(i);
        }
        i = i + 1;
    }
    proof {
        lemma_first_equal(ns, w@, i as int);
    }
    None
}

/// The names of the command definitions, as character vectors.
fn def_name_chars(defs: &Vec<CommandDef>) -> (r: Vec<Vec<char>>)
    ensures
        r@.map_values(|v: Vec<char>| v@) == def_names(defs@.map_values(|d: CommandDef| d@)),
{
    let mut r: Vec<Vec<char>> = Vec::new();
    let n = defs.len();
    let mut i: usize = 0;
    while i < n
        invariant
            i <= n,
            n == defs@.len(),
            r@.len() == i,
            forall|j: int| 0 <= j < i ==> #[trigger] r@[j]@ == defs@[j].name@,
        decreases n - i,
    {
        r.push(str_chars(defs[i].name));
        i = i + 1;
    }
    assert(r@.map_values(|v: Vec<char>| v@) =~= def_names(defs@.map_values(|d: CommandDef| d@)));
    r
}

/// The names of subcommand definitions, as character vectors.
fn sub_name_chars(subs: &Vec<SubDef>) -> (r: Vec<Vec<char>>)
    ensures
        r@.map_values(|v: Vec<char>| v@) == sub_names(subs@.map_values(|s: SubDef| s@)),
{
    let mut r: Vec<Vec<char>> = Vec::new();
    let n = subs.len();
    let mut i: usize = 0;
    while i < n
        invariant
            i <= n,
            n == subs@.len(),
            r@.len() == i,
            forall|j: int| 0 <= j < i ==> #[trigger] r@[j]@ == subs@[j].name@,
        decreases n - i,
    {
        r.push(str_chars(subs[i].name));
        i = i + 1;
    }
    assert(r@.map_values(|v: Vec<char>| v@) =~= sub_names(subs@.map_values(|s: SubDef| s@)));
    r
}

/// `a + " " + b` as characters.
fn spaced_chars(a: &Vec<char>, b: &Vec<char>) -> (r: Vec<char>)
    ensures
        r@ == spaced(a@, b@),
{
    let mut sp: Vec<char> = Vec::new();
    sp.push(' ');
    let ab = concat_chars(a, &sp);
    let r = concat_chars(&ab, b);
    assert(sp@ =~= seq![' ']);
    r
}

/// A subcommand with its hint.
fn sub_hint_chars(s: &SubDef) -> (r: Vec<char>)
    ensures
        r@ == sub_with_hint(s@),
{
    let name = str_chars(s.name);
    let hint = str_chars(s.hint);
    if hint.len() == 0 {
        name
    } else {
        spaced_chars(&name, &hint)
    }
}

/// Builds a full hint string for a command definition: its first
/// subcommand with that one's hint, or its own hint.
pub fn build_def_hint(def: &CommandDef) -> (r: String)
    ensures
        r@ == def_hint_spec(def@),
{
    let v = def_hint_chars(def);
    chars_to_string(&v)
}

fn def_hint_chars(def: &CommandDef) -> (r: Vec<char>)
    ensures
        r@ == def_hint_spec(def@),
{
    if def.subs.len() > 0 {
        sub_hint_chars(&def.subs[0])
    } else {
        str_chars(def.hint)
    }
}

/// Ghost text for a word being typed that `name` starts with.
fn complete_word_chars(name: &Vec<char>, typed: &Vec<char>, hint: &Vec<char>) -> (r: Option<
    String,
>)
    requires
        typed@.is_prefix_of(name@),
    ensures
        opt_string_view(r) == complete_word(name@, typed@, hint@),
{
    if chars_eq(name, typed) {
        if hint.len() == 0 {
            None
        } else {
            let mut sp: Vec<char> = Vec::new();
            sp.push(' ');
            let v = concat_chars(&sp, hint);
            assert(sp@ =~= seq![' ']);
            Some(chars_to_string(&v))
        }
    } else {
        let rest = sub_chars(name, typed.len(), name.len());
        assert(rest@ =~= name@.skip(typed@.len() as int));
        if hint.len() == 0 {
            Some(chars_to_string(&rest))
        } else {
            let v = spaced_chars(&rest, hint);
            Some(chars_to_string(&v))
        }
    }
}

/// Returns ghost text suggestion for the given command input (without
/// the leading `/`): the text to show after the cursor, following the
/// best alphabetical match for the current prefix, including
/// subcommands and argument placeholders.
pub fn get_suggestion(input: &str) -> (r: Option<String>)
    ensures
        opt_string_view(r) == suggestion_spec(input@),
{
    let v = str_chars(input);
    if v.len() == 0 {
        return None;
    }
    let trailing = v[v.len() - 1] == ' ';
    let ws = split_words(&v);
    if ws.len() == 0 {
        return None;
    }
    let first = lowercase_chars(&ws[0]);
    let second = if ws.len() > 1 {
        lowercase_chars(&ws[1])
    } else {
        Vec::new()
    };
    suggestion_for(ws.len(), trailing, &first, &second)
}

/// The completion for input of `n_words` words, ending in a space when
/// `trailing` is set, with its first and second words lowercased
/// (`second` is empty when there is no second word).
pub fn suggestion_for(n_words: usize, trailing: bool, first: &Vec<char>, second: &Vec<char>) -> (r: Option<String>)
    ensures
        opt_string_view(r) == suggestion_from(n_words as nat, trailing, first@, second@),
{
    let defs = command_defs();
    let ghost dm = defs@.map_values(|d: CommandDef| d@);
    let names = def_name_chars(&defs);
    if n_words == 1 && !trailing {
        match find_prefix(&names, first) {
            Some(i) => {
                proof {
                    lemma_first_with_prefix_found(names@.map_values(|v: Vec<char>| v@), first@);
                    assert(names@.map_values(|v: Vec<char>| v@)[i as int] == names@[i as int]@);
                    assert(def_names(dm)[i as int] == dm[i as int].name);
                }
                let name = str_chars(defs[i].name);
                let hint = def_hint_chars(&defs[i]);
                complete_word_chars(&name, first, &hint)
            },
            None => None,
        }
    } else {
        match find_equal(&names, first) {
            None => None,
            Some(i) => {
                proof {
                    lemma_first_equal_found(names@.map_values(|v: Vec<char>| v@), first@);
                }
                let d = &defs[i];
                let ghost dv = dm[i as int];
                assert(d@ == dv);
                if d.subs.len() > 0 && n_words == 1 {
                    let sh = sub_hint_chars(&d.subs[0]);
                    Some(chars_to_string(&sh))
                } else if d.subs.len() > 0 {
                    let space_after = n_words > 2 || trailing;
                    let snames = sub_name_chars(&d.subs);
                    if !space_after {
                        match find_prefix(&snames, second) {
                            Some(j) => {
                                proof {
                                    lemma_first_with_prefix_found(
                                        snames@.map_values(|v: Vec<char>| v@),
                                        second@,
                                    );
                                    assert(snames@.map_values(|v: Vec<char>| v@)[j as int]
                                        == snames@[j as int]@);
                                    assert(sub_names(dv.subs)[j as int] == dv.subs[j as int].name);
                                }
                                let sname = str_chars(d.subs[j].name);
                                let shint = str_chars(d.subs[j].hint);
                                complete_word_chars(&sname, second, &shint)
                            },
                            None => None,
                        }
                    } else {
                        match find_equal(&snames, second) {
                            Some(j) => {
                                proof {
                                    lemma_first_equal_found(
                                        snames@.map_values(|v: Vec<char>| v@),
                                        second@,
                                    );
                                }
                                if n_words == 2 && !d.subs[j].hint.is_empty() {
                                    Some(d.subs[j].hint.to_string())
                                } else {
                                    None
                                }
                            },
                            None => None,
                        }
                    }
                } else if !d.hint.is_empty() && n_words == 1 {
                    Some(d.hint.to_string())
                } else {
                    None
                }
            },
        }
    }
}

/// Number of leading characters of `s` that are (`eq`) or are not
/// (`!eq`) the character `c`.
pub open spec fn run_len(s: Seq<char>, c: char, eq: bool) -> nat
    decreases s.len(),
{
    if s.len() > 0 && (s[0] == c) == eq {
        1 + run_len(s.drop_first(), c, eq)
    } else {
        0
    }
}

/// The next chunk of ghost text to accept: its leading spaces and the
/// word that follows them.
pub open spec fn next_word_chunk_spec(ghost: Seq<char>) -> Seq<char> {
    let k = run_len(ghost, ' ', true);
    ghost.take((k + run_len(ghost.skip(k as int), ' ', false)) as int)
}

proof fn lemma_run_len(s: Seq<char>, c: char, eq: bool, i: int)
    requires
        0 <= i <= s.len(),
        forall|j: int| 0 <= j < i ==> (#[trigger] s[j] == c) == eq,
        i == s.len() || (s[i] == c) != eq,
    ensures
        run_len(s, c, eq) == i,
    decreases i,
{
    if i > 0 {
        lemma_run_len(s.drop_first(), c, eq, i - 1);
    }
}

/// Extracts the next word chunk from ghost text: leading spaces and the
/// following non-space characters (what Right arrow accepts).
pub fn get_next_word_chunk(ghost: &str) -> (r: String)
    ensures
        r@ == next_word_chunk_spec(ghost@),
{
    let v = str_chars(ghost);
    let n = v.len();
    let mut i: usize = 0;
    while i < n && v[i] == ' '
        invariant
            i <= n,
            n == v@.len(),
            forall|j: int| 0 <= j < i ==> #[trigger] v@[j] == ' ',
        decreases n - i,
    {
        i = i + 1;
    }
    let k = i;
    while i < n && v[i] != ' '
        invariant
            k <= i <= n,
            n == v@.len(),
            forall|j: int| k <= j < i ==> #[trigger] v@[j] != ' ',
        decreases n - i,
    {
        i = i + 1;
    }
    proof {
        lemma_run_len(v@, ' ', true, k as int);
        let t = v@.skip(k as int);
        assert forall|j: int| 0 <= j < i - k implies (#[trigger] t[j] == ' ') == false by {
            assert(t[j] == v@[k + j]);
        }
        lemma_run_len(t, ' ', false, i - k);
    }
    let chunk = sub_chars(&v, 0, i);
    assert(chunk@ =~= v@.take(i as int));
    chars_to_string(&chunk)
}

} // verus!
