//! What the server decides: the response to a request, and what the
//! listener does with the outcome of an accept.

use vstd::prelude::*;
use crate::command::{command_of, Command, CommandError, CommandView};
use vstd::utf8::encode_utf8;
use crate::frame::{crlf, decimal, wire, RespFrame};
use crate::store::{Shard, ShardedDB};

verus! {

/// A response as plain values.
pub enum Reply {
    /// A stored value, as a bulk string.
    Value(Seq<u8>),
    /// The mark of an absent value.
    Nothing,
    /// An error with its message.
    Refused(Seq<char>),
}

/// Whether `frame` is the response frame that `reply` stands for.
pub open spec fn shows(frame: RespFrame, reply: Reply) -> bool {
    match reply {
        Reply::Value(bytes) => frame matches RespFrame::Bulk(b) && b@ == bytes,
        Reply::Nothing => frame is Null,
        Reply::Refused(text) => frame matches RespFrame::Error(s) && s@ == text,
    }
}

/// What reading `key` from `store` answers.
pub open spec fn lookup(store: Map<Seq<char>, Seq<u8>>, key: Seq<char>) -> Reply {
    if store.contains_key(key) {
        Reply::Value(store[key])
    } else {
        Reply::Nothing
    }
}

/// The response to a command and the store after it. A read answers the
/// stored value or its absence; a write answers what was there before it;
/// a command that is not recognized is refused and changes nothing.
pub open spec fn answer(store: Map<Seq<char>, Seq<u8>>, command: CommandView) -> (
    Reply,
    Map<Seq<char>, Seq<u8>>,
) {
    match command {
        CommandView::Get { key } => (lookup(store, key), store),
        CommandView::SetValue { key, value } => (lookup(store, key), store.insert(key, value)),
        CommandView::Unrecognized => (Reply::Refused("Unsupported command."@), store),
    }
}

/// The response to a request frame and the store after it: a frame that is
/// no command is refused and changes nothing.
pub open spec fn respond(store: Map<Seq<char>, Seq<u8>>, frame: RespFrame) -> (
    Reply,
    Map<Seq<char>, Seq<u8>>,
) {
    match command_of(frame) {
        Ok(command) => answer(store, command),
        Err(_) => (Reply::Refused("Failed to read the command."@), store),
    }
}

/// The frame for a value that was found, or for its absence.
fn found(value: Option<Vec<u8>>) -> (r: RespFrame)
    ensures
        match value {
            Some(v) => shows(r, Reply::Value(v@)),
            None => shows(r, Reply::Nothing),
        },
{
    match value {
        Some(v) => RespFrame::Bulk(v),
        None => RespFrame::Null,
    }
}

/// Carries out a command on the shard that serves it.
pub fn execute(shard: &mut Shard, command: Command) -> (r: RespFrame)
    ensures
        shows(r, answer(old(shard)@, command@).0),
        final(shard)@ == answer(old(shard)@, command@).1,
{
    match command {
        Command::Get { key } => found(shard.get(key.as_str())),
        Command::SetValue { key, value } => found(shard.insert(key.as_str(), value)),
        Command::Unrecognized => RespFrame::Error("Unsupported command.".to_string()),
    }
}

/// The response to a frame that is no command, whatever the reason.
pub fn rejection(error: CommandError) -> (r: RespFrame)
    ensures
        shows(r, Reply::Refused("Failed to read the command."@)),
{
    RespFrame::Error("Failed to read the command.".to_string())
}

/// Answers one request frame against the store. The connection goes on
/// after every answer, also after a refusal.
pub fn process(db: &mut ShardedDB, frame: RespFrame) -> (r: RespFrame)
    requires
        old(db).wf(),
    ensures
        final(db).wf(),
        final(db).shard_count() == old(db).shard_count(),
        shows(r, respond(old(db)@, frame).0),
        final(db)@ == respond(old(db)@, frame).1,
{
    match Command::from_frame(frame) {
        Ok(command) => db.apply(command),
        Err(error) => rejection(error),
    }
}

/// Write, then read: after a write of `value` under `key` is answered, a
/// read of `key` answers `value`, whatever the store held before.
pub proof fn law_read_after_write(store: Map<Seq<char>, Seq<u8>>, key: Seq<char>, value: Seq<u8>)
    ensures
        answer(answer(store, CommandView::SetValue { key, value }).1, CommandView::Get { key }).0
            == Reply::Value(value),
{
}

/// A read of a key that the store does not hold answers the mark of
/// absence, never an error, and changes nothing.
pub proof fn law_read_of_absent_key(store: Map<Seq<char>, Seq<u8>>, key: Seq<char>)
    requires
        !store.contains_key(key),
    ensures
        answer(store, CommandView::Get { key }) == (Reply::Nothing, store),
        answer(Map::<Seq<char>, Seq<u8>>::empty(), CommandView::Get { key }).0 == Reply::Nothing,
{
}

/// The wire bytes of a response.
pub open spec fn reply_wire(reply: Reply) -> Seq<u8> {
    match reply {
        Reply::Value(bytes) => seq![36u8] + decimal(bytes.len()) + crlf() + bytes + crlf(),
        Reply::Nothing => seq![36u8, 45u8, 49u8, 13u8, 10u8],
        Reply::Refused(text) => seq![45u8] + encode_utf8(text) + crlf(),
    }
}

/// Every response has a wire form, and the response alone decides its
/// bytes: no response frame is an array.
pub proof fn law_responses_can_be_written(frame: RespFrame, reply: Reply)
    requires
        shows(frame, reply),
    ensures
        !(frame is Array),
        wire(frame) == reply_wire(reply),
{
}

/// Why an accept failed, as far as the listener tells the kinds apart.
#[derive(Debug, Clone, Copy, PartialEq, Eq, Structural)]
pub enum AcceptFailure {
    Refused,
    Reset,
    TimedOut,
    Other,
}

/// The outcome of one accept.
#[derive(Debug, Clone, Copy, PartialEq, Eq, Structural)]
pub enum AcceptEvent {
    Connected,
    Failed(AcceptFailure),
}

/// What the listener does before it accepts again.
#[derive(Debug, PartialEq, Eq)]
pub enum ServeAction {
    /// Hand the new connection to a task of its own.
    Spawn,
    /// Log the failure with this description.
    Report(String),
}

/// The description of an accept failure.
pub open spec fn description(failure: AcceptFailure) -> Seq<char> {
    match failure {
        AcceptFailure::Refused => "Connection was refused."@,
        AcceptFailure::Reset => "Connection was reset."@,
        AcceptFailure::TimedOut => "Connection timed out."@,
        AcceptFailure::Other => "Check server logs for more details."@,
    }
}

/// One turn of the listener: a connection is handed on, a failure is
/// described for the log. Either way the listener accepts again.
pub fn serve(event: AcceptEvent) -> (action: ServeAction)
    ensures
        match event {
            AcceptEvent::Connected => action is Spawn,
            AcceptEvent::Failed(failure) => action matches ServeAction::Report(text) && text@
                == description(failure),
        },
{
    match event {
        AcceptEvent::Connected => ServeAction::Spawn,
        AcceptEvent::Failed(AcceptFailure::Refused) => ServeAction::Report(
            "Connection was refused.".to_string(),
        ),
        AcceptEvent::Failed(AcceptFailure::Reset) => ServeAction::Report(
            "Connection was reset.".to_string(),
        ),
        AcceptEvent::Failed(AcceptFailure::TimedOut) => ServeAction::Report(
            "Connection timed out.".to_string(),
        ),
        AcceptEvent::Failed(AcceptFailure::Other) => ServeAction::Report(
            "Check server logs for more details.".to_string(),
        ),
    }
}

} // verus!
