//! Typed commands, as parsed from request tokens.
use vstd::prelude::*;
use crate::text::{is_word, texts};

verus! {

/// A configuration key that `CONFIG GET` may ask for.
#[derive(PartialEq, Eq, Structural, Debug, Clone, Copy)]
pub enum ConfigKey {
    Dir,
    DbFilename,
}

/// The configuration key that `s` names, if any.
pub open spec fn config_key_of(s: Seq<char>) -> Option<ConfigKey> {
    if s == "dir"@ {
        Some(ConfigKey::Dir)
    } else if s == "dbfilename"@ {
        Some(ConfigKey::DbFilename)
    } else {
        None
    }
}

impl ConfigKey {
    /// Reads a configuration key; the match is exact.
    pub fn parse(value: &String) -> (r: Option<ConfigKey>)
        ensures
            r == config_key_of(value@),
    {
        if is_word(value, "dir") {
            Some(ConfigKey::Dir)
        } else if is_word(value, "dbfilename") {
            Some(ConfigKey::DbFilename)
        } else {
            None
        }
    }
}

/// A `CONFIG` sub-command.
#[derive(PartialEq, Eq, Structural, Debug, Clone, Copy)]
pub enum ConfigCmd {
    Get(ConfigKey),
}

/// The `CONFIG` sub-command that the arguments `args` give: `GET` or `get`,
/// then a known key; arguments after these are ignored.
pub open spec fn config_cmd_of(args: Seq<Seq<char>>) -> Option<ConfigCmd> {
    if args.len() < 2 {
        None
    } else if args[0] == "GET"@ || args[0] == "get"@ {
        match config_key_of(args[1]) {
            Some(k) => Some(ConfigCmd::Get(k)),
            None => None,
        }
    } else {
        None
    }
}

impl ConfigCmd {
    /// Reads a `CONFIG` sub-command from the arguments `value[from..]`.
    pub fn parse(value: &[String], from: usize) -> (r: Option<ConfigCmd>)
        requires
            from <= value@.len(),
        ensures
            r == config_cmd_of(texts(value@).subrange(from as int, value@.len() as int)),
    {
        let ghost args = texts(value@).subrange(from as int, value@.len() as int);
        if value.len() - from < 2 {
            return None;
        }
        assert(args[0] == value@[from as int]@ && args[1] == value@[from + 1]@);
        let cmd = &value[from];
        if is_word(cmd, "GET") || is_word(cmd, "get") {
            match ConfigKey::parse(&value[from + 1]) {
                Some(k) => Some(ConfigCmd::Get(k)),
                None => None,
            }
        } else {
            None
        }
    }
}

/// A request, parsed.
#[derive(PartialEq, Debug)]
pub enum Command {
    Ping,
    Echo(String),
    Get(String),
    /// `SET key value`, with an expiry in milliseconds after receipt when `PX` is given.
    SetKey(String, String, Option<u64>),
    Config(ConfigCmd),
    Keys(String),
    /// A command this server does not know: its name in upper case and its
    /// arguments joined by spaces.
    Unknown(String, String),
}

/// A command with its text as sequences of characters.
pub enum CommandView {
    Ping,
    Echo(Seq<char>),
    Get(Seq<char>),
    SetKey(Seq<char>, Seq<char>, Option<u64>),
    Config(ConfigCmd),
    Keys(Seq<char>),
    Unknown(Seq<char>, Seq<char>),
}

impl View for Command {
    type V = CommandView;

    open spec fn view(&self) -> CommandView {
        match self {
            Command::Ping => CommandView::Ping,
            Command::Echo(m) => CommandView::Echo(m@),
            Command::Get(k) => CommandView::Get(k@),
            Command::SetKey(k, v, t) => CommandView::SetKey(k@, v@, *t),
            Command::Config(c) => CommandView::Config(*c),
            Command::Keys(p) => CommandView::Keys(p@),
            Command::Unknown(n, a) => CommandView::Unknown(n@, a@),
        }
    }
}

} // verus!
