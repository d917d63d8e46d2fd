//! Turns a request buffer into commands, one per frame.
use vstd::prelude::*;
use crate::command::{config_cmd_of, Command, CommandView, ConfigCmd};
use crate::proto::{decode, request_frames};
use crate::text::{concat, concat_from, is_word, join, join_from, parse_decimal, parse_u64, texts, upper_of, uppercase};

verus! {

/// The command that frame `f` gives, with `name` the upper case of its first
/// token. Only the name is matched in any case; `PX` must be written so.
pub open spec fn parse_frame(f: Seq<Seq<char>>, name: Seq<char>) -> Option<CommandView> {
    let args = f.drop_first();
    if f.len() == 0 {
        None
    } else if name == "PING"@ {
        Some(CommandView::Ping)
    } else if name == "GET"@ {
        if args.len() >= 1 {
            Some(CommandView::Get(args[0]))
        } else {
            None
        }
    } else if name == "SET"@ {
        if args.len() < 2 {
            None
        } else if args.len() >= 3 && args[2] == "PX"@ {
            if args.len() < 4 {
                None
            } else {
                match parse_decimal(args[3]) {
                    Some(ms) => Some(CommandView::SetKey(args[0], args[1], Some(ms))),
                    None => None,
                }
            }
        } else {
            Some(CommandView::SetKey(args[0], args[1], None))
        }
    } else if name == "ECHO"@ {
        Some(CommandView::Echo(concat(args)))
    } else if name == "CONFIG"@ {
        match config_cmd_of(args) {
            Some(c) => Some(CommandView::Config(c)),
            None => None,
        }
    } else if name == "KEYS"@ {
        if args.len() >= 1 {
            Some(CommandView::Keys(args[0]))
        } else {
            None
        }
    } else {
        Some(CommandView::Unknown(name, join(args, " "@)))
    }
}

/// The command that frame `f` gives; the command name is matched in upper case.
pub open spec fn frame_command(f: Seq<Seq<char>>) -> Option<CommandView> {
    if f.len() == 0 {
        None
    } else {
        parse_frame(f, upper_of(f[0]))
    }
}

/// The commands of the frames `fs` that parse, in order.
pub open spec fn commands_of(fs: Seq<Seq<Seq<char>>>) -> Seq<CommandView>
    decreases fs.len(),
{
    if fs.len() == 0 {
        seq![]
    } else {
        match frame_command(fs.last()) {
            Some(c) => commands_of(fs.drop_last()).push(c),
            None => commands_of(fs.drop_last()),
        }
    }
}

/// The commands of a request buffer.
pub open spec fn commands(buffer: Seq<char>) -> Seq<CommandView> {
    commands_of(request_frames(buffer))
}

/// The view of an optional command.
pub open spec fn opt_view(c: Option<Command>) -> Option<CommandView> {
    match c {
        Some(c) => Some(c@),
        None => None,
    }
}

/// Builds the command of `frame`, given the upper case of its first token as
/// `name`.
pub fn command_from(frame: &[String], name: String) -> (r: Option<Command>)
    ensures
        opt_view(r) == parse_frame(texts(frame@), name@),
{
    let ghost f = texts(frame@);
    let ghost args = f.drop_first();
    if frame.len() == 0 {
        return None;
    }
    assert(forall|i: int| 0 <= i < args.len() ==> args[i] == #[trigger] frame@[i + 1]@);
    assert(args =~= f.subrange(1, f.len() as int));
    let n = frame.len();
    if is_word(&name, "PING") {
        Some(Command::Ping)
    } else if is_word(&name, "GET") {
        if n >= 2 {
            Some(Command::Get(frame[1].clone()))
        } else {
            None
        }
    } else if is_word(&name, "SET") {
        if n < 3 {
            return None;
        }
        if n >= 4 && is_word(&frame[3], "PX") {
            if n < 5 {
                return None;
            }
            match parse_u64(frame[4].as_str()) {
                Some(ms) => Some(Command::SetKey(frame[1].clone(), frame[2].clone(), Some(ms))),
                None => None,
            }
        } else {
            Some(Command::SetKey(frame[1].clone(), frame[2].clone(), None))
        }
    } else if is_word(&name, "ECHO") {
        Some(Command::Echo(concat_from(frame, 1)))
    } else if is_word(&name, "CONFIG") {
        match ConfigCmd::parse(frame, 1) {
            Some(c) => Some(Command::Config(c)),
            None => None,
        }
    } else if is_word(&name, "KEYS") {
        if n >= 2 {
            Some(Command::Keys(frame[1].clone()))
        } else {
            None
        }
    } else {
        let rest = join_from(frame, 1, " ");
        Some(Command::Unknown(name, rest))
    }
}

/// Parses one frame; the command name matches in any case.
pub fn scan_command(frame: &[String]) -> (r: Option<Command>)
    ensures
        opt_view(r) == frame_command(texts(frame@)),
{
    if frame.len() == 0 {
        return None;
    }
    let name = uppercase(frame[0].as_str());
    command_from(frame, name)
}

/// Parses every frame of a request buffer and keeps the commands of those that
/// parse, in arrival order; a frame that does not parse is skipped.
pub fn scan(buffer: &str) -> (r: Vec<Command>)
    ensures
        r@.map_values(|c: Command| c@) == commands(buffer@),
{
    let fs = decode::frames(buffer);
    let ghost fv = fs@.map_values(|f: Vec<String>| texts(f@));
    let mut cmds: Vec<Command> = Vec::new();
    for i in 0..fs.len()
        invariant
            fv == fs@.map_values(|f: Vec<String>| texts(f@)),
            fv == request_frames(buffer@),
            cmds@.map_values(|c: Command| c@) == commands_of(fv.take(i as int)),
    {
        assert(fv.take(i + 1).drop_last() =~= fv.take(i as int));
        assert(fv.take(i + 1).last() == texts(fs@[i as int]@));
        let c = scan_command(fs[i].as_slice());
        match c {
            Some(c) => {
                let ghost before = cmds@.map_values(|c: Command| c@);
                cmds.push(c);
                assert(cmds@.map_values(|c: Command| c@) =~= before.push(c@));
            },
            None => {},
        }
    }
    assert(fv.take(fs@.len() as int) =~= fv);
    cmds
}

} // verus!
