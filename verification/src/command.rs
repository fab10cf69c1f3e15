//! The command layer: which request a frame is, and what a shard answers.

use vstd::prelude::*;
use vstd::utf8::{decode_utf8, valid_utf8};
use crate::frame::RespFrame;
use crate::store::{hash, pick_shard, shard_index};

verus! {

/// A request that the store understands, or the mark of one that it does not.
#[derive(Debug, PartialEq, Eq)]
pub enum Command {
    Get { key: String },
    SetValue { key: String, value: Vec<u8> },
    Unrecognized,
}

/// A command as plain values.
pub enum CommandView {
    Get { key: Seq<char> },
    SetValue { key: Seq<char>, value: Seq<u8> },
    Unrecognized,
}

impl View for Command {
    type V = CommandView;

    open spec fn view(&self) -> CommandView {
        match *self {
            Command::Get { key } => CommandView::Get { key: key@ },
            Command::SetValue { key, value } => CommandView::SetValue { key: key@, value: value@ },
            Command::Unrecognized => CommandView::Unrecognized,
        }
    }
}

/// Why a frame is no command.
#[derive(Debug, Clone, Copy, PartialEq, Eq, Structural)]
pub enum CommandError {
    /// The frame is not an array.
    NotAnArray,
    /// The array is empty, or its first element is not a bulk string.
    NoName,
    /// The command has too few or too many arguments.
    WrongArgumentCount,
    /// An argument is not a bulk string, or a key is not UTF-8 text.
    BadArgument,
}

impl CommandError {
    /// A sentence for the log.
    pub fn message(&self) -> (text: String)
        ensures
            text@ == (match *self {
                CommandError::NotAnArray => "protocol error; expected array"@,
                CommandError::NoName => "protocol error; expected a command name"@,
                CommandError::WrongArgumentCount => "protocol error; wrong number of arguments"@,
                CommandError::BadArgument => "protocol error; invalid argument"@,
            }),
    {
        match self {
            CommandError::NotAnArray => "protocol error; expected array".to_string(),
            CommandError::NoName => "protocol error; expected a command name".to_string(),
            CommandError::WrongArgumentCount => "protocol error; wrong number of arguments".to_string(),
            CommandError::BadArgument => "protocol error; invalid argument".to_string(),
        }
    }
}

/// An ASCII letter in lower case; any other byte as it is.
pub open spec fn lower(b: u8) -> u8 {
    if 65 <= b <= 90 {
        (b + 32) as u8
    } else {
        b
    }
}

/// Whether `name` spells the three letters `a`, `b`, `c`, in either case.
pub open spec fn spells(name: Seq<u8>, a: u8, b: u8, c: u8) -> bool {
    name.len() == 3 && lower(name[0]) == a && lower(name[1]) == b && lower(name[2]) == c
}

/// Whether `name` is the verb GET.
pub open spec fn is_get(name: Seq<u8>) -> bool {
    spells(name, 103, 101, 116)
}

/// Whether `name` is the verb SET.
pub open spec fn is_set(name: Seq<u8>) -> bool {
    spells(name, 115, 101, 116)
}

/// The key that a frame gives: the text of a bulk string that is UTF-8.
pub open spec fn key_of(f: RespFrame) -> Option<Seq<char>> {
    match f {
        RespFrame::Bulk(b) => if valid_utf8(b@) {
            Some(decode_utf8(b@))
        } else {
            None
        },
        _ => None,
    }
}

/// The request that the elements of an array make up.
pub open spec fn command_of_parts(parts: Seq<RespFrame>) -> Result<CommandView, CommandError> {
    if parts.len() == 0 {
        Err(CommandError::NoName)
    } else {
        match parts[0] {
            RespFrame::Bulk(name) => {
                if is_get(name@) {
                    if parts.len() != 2 {
                        Err(CommandError::WrongArgumentCount)
                    } else {
                        match key_of(parts[1]) {
                            Some(key) => Ok(CommandView::Get { key }),
                            None => Err(CommandError::BadArgument),
                        }
                    }
                } else if is_set(name@) {
                    if parts.len() != 3 {
                        Err(CommandError::WrongArgumentCount)
                    } else {
                        match (key_of(parts[1]), parts[2]) {
                            (Some(key), RespFrame::Bulk(value)) => Ok(
                                CommandView::SetValue { key, value: value@ },
                            ),
                            _ => Err(CommandError::BadArgument),
                        }
                    }
                } else {
                    Ok(CommandView::Unrecognized)
                }
            },
            _ => Err(CommandError::NoName),
        }
    }
}

/// The request that a frame makes: only an array is one.
pub open spec fn command_of(frame: RespFrame) -> Result<CommandView, CommandError> {
    match frame {
        RespFrame::Array(parts) => command_of_parts(parts@),
        _ => Err(CommandError::NotAnArray),
    }
}

/// The shard that serves a command among `shards` shards.
pub open spec fn target_shard(command: CommandView, shards: nat) -> nat {
    match command {
        CommandView::Get { key } => shard_index(key, shards),
        CommandView::SetValue { key, value } => shard_index(key, shards),
        CommandView::Unrecognized => 0,
    }
}

/// Calls `String::from_utf8` on a copy of `bytes`.
///
/// Trusted: the call succeeds exactly on valid UTF-8, and the string it
/// gives is the text that the bytes encode.
#[verifier::external_body]
fn text_of(bytes: &[u8]) -> (r: Option<String>)
    ensures
        r is Some <==> valid_utf8(bytes@),
        r matches Some(s) ==> s@ == decode_utf8(bytes@),
{
    String::from_utf8(bytes.to_vec()).ok()
}

fn lower_byte(b: u8) -> (r: u8)
    ensures
        r == lower(b),
{
    if 65 <= b && b <= 90 {
        b + 32
    } else {
        b
    }
}

fn name_spells(name: &[u8], a: u8, b: u8, c: u8) -> (r: bool)
    ensures
        r == spells(name@, a, b, c),
{
    name.len() == 3 && lower_byte(name[0]) == a && lower_byte(name[1]) == b && lower_byte(name[2])
        == c
}

fn read_key(f: &RespFrame) -> (r: Option<String>)
    ensures
        match r {
            Some(s) => key_of(*f) == Some(s@),
            None => key_of(*f) is None,
        },
{
    match f {
        RespFrame::Bulk(b) => text_of(b.as_slice()),
        _ => None,
    }
}

impl Command {
    /// The key that the command is about, if it has one.
    pub fn key(&self) -> (k: Option<&str>)
        ensures
            match self@ {
                CommandView::Get { key } => k matches Some(s) && s@ == key,
                CommandView::SetValue { key, value } => k matches Some(s) && s@ == key,
                CommandView::Unrecognized => k is None,
            },
    {
        match self {
            Command::Get { key } => Some(key.as_str()),
            Command::SetValue { key, value: _ } => Some(key.as_str()),
            Command::Unrecognized => None,
        }
    }

    /// The shard that serves the command among `shards` shards: the one
    /// that its key belongs to, and the first for a command without a key.
    pub fn shard(&self, shards: usize) -> (i: usize)
        requires
            shards >= 1,
        ensures
            i == target_shard(self@, shards as nat),
            i < shards,
    {
        match self.key() {
            Some(k) => pick_shard(hash(k), shards),
            None => 0,
        }
    }

    /// Reads a request from a frame. Only an array of bulk strings is one:
    /// the first names the verb, in either case; GET takes a key, SET a key
    /// and a value, and any other verb is unrecognized whatever follows it.
    pub fn from_frame(frame: RespFrame) -> (r: Result<Command, CommandError>)
        ensures
            match r {
                Ok(c) => command_of(frame) == Ok::<CommandView, CommandError>(c@),
                Err(e) => command_of(frame) == Err::<CommandView, CommandError>(e),
            },
    {
        let parts = match &frame {
            RespFrame::Array(parts) => parts,
            _ => {
                return Err(CommandError::NotAnArray);
            },
        };
        if parts.len() == 0 {
            return Err(CommandError::NoName);
        }
        let name = match &parts[0] {
            RespFrame::Bulk(name) => name,
            _ => {
                return Err(CommandError::NoName);
            },
        };
        if name_spells(name.as_slice(), 103, 101, 116) {
            if parts.len() != 2 {
                return Err(CommandError::WrongArgumentCount);
            }
            match read_key(&parts[1]) {
                Some(key) => Ok(Command::Get { key }),
                None => Err(CommandError::BadArgument),
            }
        } else if name_spells(name.as_slice(), 115, 101, 116) {
            if parts.len() != 3 {
                return Err(CommandError::WrongArgumentCount);
            }
            match (read_key(&parts[1]), &parts[2]) {
                (Some(key), RespFrame::Bulk(value)) => Ok(
                    Command::SetValue { key, value: value.clone() },
                ),
                _ => Err(CommandError::BadArgument),
            }
        } else {
            Ok(Command::Unrecognized)
        }
    }
}

} // verus!
