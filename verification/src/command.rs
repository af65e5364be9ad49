//! The replies of the store, their wire form, the command handlers and the
//! dispatch of a request to its handler.

use crate::bytes::{push_all, same_text};
use crate::database::{lookup, Content, Database, Store, Value};
use crate::decimal::{decimal, decimal_bytes, signed_decimal, signed_decimal_bytes};
use crate::parser::{ParseError, Parser, Request};
use vstd::prelude::*;
use vstd::utf8::encode_utf8;

verus! {

/// What a command answers.
#[derive(Debug, PartialEq, Eq)]
pub enum Response {
    /// There is no value.
    Nil,
    /// A payload of any bytes, of any length.
    Data(Vec<u8>),
    /// A failure, with a message for the client.
    Error(String),
    /// A short acknowledgement.
    Status(String),
}

/// The mathematical content of a [`Response`].
pub enum Reply {
    Nil,
    Data(Seq<u8>),
    Error(Seq<char>),
    Status(Seq<char>),
}

impl View for Response {
    type V = Reply;

    open spec fn view(&self) -> Reply {
        match self {
            Response::Nil => Reply::Nil,
            Response::Data(payload) => Reply::Data(payload@),
            Response::Error(message) => Reply::Error(message@),
            Response::Status(message) => Reply::Status(message@),
        }
    }
}

/// `$`, which opens a bulk reply.
pub const BULK: u8 = 36;

/// `-`, which opens an error reply.
pub const FAILURE: u8 = 45;

/// `+`, which opens a status reply.
pub const SUCCESS: u8 = 43;

/// Carriage return.
pub const CR: u8 = 13;

/// Line feed.
pub const LF: u8 = 10;

/// The line terminator, carriage return and line feed.
pub open spec fn crlf() -> Seq<u8> {
    seq![CR, LF]
}

/// The bytes that carry `reply` to the client.
///
/// `Nil` is `$-1` and a terminator. `Data` is `$`, the payload's length in
/// decimal, a terminator, the payload untouched, and a terminator. `Error` is
/// `-`, the message, and a terminator; `Status` is the same behind `+`.
pub open spec fn wire(reply: Reply) -> Seq<u8> {
    match reply {
        Reply::Nil => seq![BULK, 45u8, 49u8] + crlf(),
        Reply::Data(payload) => seq![BULK] + decimal(payload.len()) + crlf() + payload + crlf(),
        Reply::Error(message) => seq![FAILURE] + encode_utf8(message) + crlf(),
        Reply::Status(message) => seq![SUCCESS] + encode_utf8(message) + crlf(),
    }
}

impl Response {
    /// The wire form of the reply.
    pub fn as_bytes(&self) -> (bytes: Vec<u8>)
        ensures
            bytes@ == wire(self@),
    {
        let mut out: Vec<u8> = Vec::new();
        match self {
            Response::Nil => {
                out.push(BULK);
                out.push(45);
                out.push(49);
            },
            Response::Data(payload) => {
                let length = decimal_bytes(payload.len() as u64);
                out.push(BULK);
                push_all(&mut out, length.as_slice());
                out.push(CR);
                out.push(LF);
                push_all(&mut out, payload.as_slice());
            },
            Response::Error(message) => {
                out.push(FAILURE);
                push_all(&mut out, message.as_str().as_bytes());
            },
            Response::Status(message) => {
                out.push(SUCCESS);
                push_all(&mut out, message.as_str().as_bytes());
            },
        }
        out.push(CR);
        out.push(LF);
        assert(out@ =~= wire(self@));
        out
    }
}

/// The payload that `ping` answers when it is given nothing to echo: `PONG`.
pub open spec fn pong() -> Seq<u8> {
    seq![80u8, 79u8, 78u8, 71u8]
}

/// The rejection that carries `message`.
pub fn rejection(message: &str) -> (reply: Response)
    ensures
        reply@ == Reply::Error(message@),
{
    Response::Error(message.to_string())
}

/// A hard validation: where `holds` fails, the rejection with `message`.
pub fn validate(holds: bool, message: &str) -> (failed: Option<Response>)
    ensures
        match failed {
            Some(reply) => !holds && reply@ == Reply::Error(message@),
            None => holds,
        },
{
    if holds {
        None
    } else {
        Some(rejection(message))
    }
}

/// An extraction validation: the bytes that were read, or where reading
/// failed, the rejection with `message`.
pub fn try_validate(read: Result<Vec<u8>, ParseError>, message: &str) -> (checked: Result<
    Vec<u8>,
    Response,
>)
    ensures
        match read {
            Ok(bytes) => checked == Ok::<Vec<u8>, Response>(bytes),
            Err(_) => checked matches Err(reply) && reply@ == Reply::Error(message@),
        },
{
    match read {
        Ok(bytes) => Ok(bytes),
        Err(_) => Err(rejection(message)),
    }
}

/// What `set` answers to `request`: the count is checked first, then the key
/// is read, then the value.
pub open spec fn set_reply(request: Request) -> Reply {
    if request.argc != 3 {
        Reply::Error("Wrong number of parameters"@)
    } else if request.arg(1) is None {
        Reply::Error("Invalid key"@)
    } else if request.arg(2) is None {
        Reply::Error("Invalid value"@)
    } else {
        Reply::Status("OK"@)
    }
}

/// The store after `set` handled `request`: the value is stored under the
/// key, in place of what was there, where the request is accepted.
pub open spec fn set_store(request: Request, store: Store) -> Store {
    if set_reply(request) is Status {
        store.insert(request.arg(1)->0, Content::Data(request.arg(2)->0))
    } else {
        store
    }
}

/// What `get` answers to `request` on `store`.
pub open spec fn get_reply(request: Request, store: Store) -> Reply {
    if request.argc != 2 {
        Reply::Error("Wrong number of parameters"@)
    } else if request.arg(1) is None {
        Reply::Error("Invalid key"@)
    } else {
        match lookup(store, request.arg(1)->0) {
            None => Reply::Nil,
            Some(Content::Data(payload)) => Reply::Data(payload),
            Some(Content::Integer(number)) => Reply::Data(signed_decimal(number)),
        }
    }
}

/// What `ping` answers to `request`. A request that announces an argument
/// to echo and holds none is rejected as one with an invalid value.
pub open spec fn ping_reply(request: Request) -> Reply {
    if request.argc == 0 || request.argc > 2 {
        Reply::Error("Wrong number of parameters"@)
    } else if request.argc == 1 {
        Reply::Data(pong())
    } else {
        match request.arg(1) {
            Some(payload) => Reply::Data(payload),
            None => Reply::Error("Invalid value"@),
        }
    }
}

/// Stores the value of argument 2 under the key of argument 1, in place of
/// what the store held there. Both arguments are read before the store is
/// touched.
pub fn set(parser: &Parser, db: &mut Database) -> (reply: Response)
    ensures
        reply@ == set_reply(parser@),
        final(db)@ == set_store(parser@, old(db)@),
        reply@ is Error ==> *final(db) == *old(db),
        parser.argc != 3 ==> reply@ == Reply::Error("Wrong number of parameters"@),
{
    if let Some(reply) = validate(parser.argc == 3, "Wrong number of parameters") {
        return reply;
    }
    let key = match try_validate(parser.get_vec(1), "Invalid key") {
        Ok(key) => key,
        Err(reply) => return reply,
    };
    let val = match try_validate(parser.get_vec(2), "Invalid value") {
        Ok(val) => val,
        Err(reply) => return reply,
    };
    db.get_or_create(&key).set(val);
    Response::Status("OK".to_string())
}

/// Does what [`set`] does: the new value takes the place of the old one, it
/// is not joined to it.
pub fn append(parser: &Parser, db: &mut Database) -> (reply: Response)
    ensures
        reply@ == set_reply(parser@),
        final(db)@ == set_store(parser@, old(db)@),
        reply@ is Error ==> *final(db) == *old(db),
{
    if let Some(reply) = validate(parser.argc == 3, "Wrong number of parameters") {
        return reply;
    }
    let key = match try_validate(parser.get_vec(1), "Invalid key") {
        Ok(key) => key,
        Err(reply) => return reply,
    };
    let val = match try_validate(parser.get_vec(2), "Invalid value") {
        Ok(val) => val,
        Err(reply) => return reply,
    };
    db.get_or_create(&key).set(val);
    Response::Status("OK".to_string())
}

/// Answers the value under the key of argument 1: a payload as it is, an
/// integer in decimal, `Nil` where the store holds nothing under the key.
pub fn get(parser: &Parser, db: &mut Database) -> (reply: Response)
    ensures
        reply@ == get_reply(parser@, old(db)@),
        *final(db) == *old(db),
{
    if let Some(reply) = validate(parser.argc == 2, "Wrong number of parameters") {
        return reply;
    }
    let key = match try_validate(parser.get_vec(1), "Invalid key") {
        Ok(key) => key,
        Err(reply) => return reply,
    };
    match db.get(&key) {
        Some(value) => match value {
            Value::Data(data) => Response::Data(data.clone()),
            Value::Integer(number) => Response::Data(signed_decimal_bytes(*number)),
            // The store shows no unwritten slot to a reader.
            Value::Nil => unreached(),
        },
        None => Response::Nil,
    }
}

/// Answers `PONG`, or the argument where the request carries one.
pub fn ping(parser: &Parser, db: &mut Database) -> (reply: Response)
    ensures
        reply@ == ping_reply(parser@),
        *final(db) == *old(db),
{
    let counted = 1 <= parser.argc && parser.argc <= 2;
    if let Some(reply) = validate(counted, "Wrong number of parameters") {
        return reply;
    }
    if parser.argc == 2 {
        return match try_validate(parser.get_vec(1), "Invalid value") {
            Ok(payload) => Response::Data(payload),
            Err(reply) => reply,
        };
    }
    Response::Data(vec![80, 79, 78, 71])
}

/// Whether `name` is the name of a command. Names are matched whole and in
/// lower case; nothing else names a command.
pub open spec fn names_command(name: Seq<char>) -> bool {
    name == "set"@ || name == "append"@ || name == "get"@ || name == "ping"@
}

/// What the handler that goes by `name` answers to `request` on `store`.
pub open spec fn handler_reply(name: Seq<char>, request: Request, store: Store) -> Reply {
    if name == "set"@ || name == "append"@ {
        set_reply(request)
    } else if name == "get"@ {
        get_reply(request, store)
    } else if name == "ping"@ {
        ping_reply(request)
    } else {
        Reply::Error("Unknown command"@)
    }
}

/// The store after the handler that goes by `name` handled `request`.
pub open spec fn handler_store(name: Seq<char>, request: Request, store: Store) -> Store {
    if name == "set"@ || name == "append"@ {
        set_store(request, store)
    } else {
        store
    }
}

/// What the store answers to `request`.
pub open spec fn command_reply(request: Request, store: Store) -> Reply {
    if request.argc == 0 {
        Reply::Error("Not enough arguments"@)
    } else {
        match request.text(0) {
            None => Reply::Error("Invalid command"@),
            Some(name) => handler_reply(name, request, store),
        }
    }
}

/// The store after it handled `request`.
pub open spec fn command_store(request: Request, store: Store) -> Store {
    if request.argc == 0 {
        store
    } else {
        match request.text(0) {
            None => store,
            Some(name) => handler_store(name, request, store),
        }
    }
}

/// Handles one request: finds the handler that argument 0 names and returns
/// its reply as it is. A request that names no handler is rejected, and a
/// rejected request leaves the store as it was.
pub fn command(parser: &Parser, db: &mut Database) -> (reply: Response)
    ensures
        reply@ == command_reply(parser@, old(db)@),
        final(db)@ == command_store(parser@, old(db)@),
        reply@ is Error ==> *final(db) == *old(db),
        parser.argc == 0 ==> reply@ == Reply::Error("Not enough arguments"@),
        parser.argc > 0 && parser@.text(0) is Some && !names_command(parser@.text(0)->0)
            ==> reply@ == Reply::Error("Unknown command"@),
{
    if parser.argc == 0 {
        return rejection("Not enough arguments");
    }
    let name = match parser.get_str(0) {
        Ok(name) => name,
        Err(_) => return rejection("Invalid command"),
    };
    if same_text(name, "set") {
        set(parser, db)
    } else if same_text(name, "append") {
        append(parser, db)
    } else if same_text(name, "get") {
        get(parser, db)
    } else if same_text(name, "ping") {
        ping(parser, db)
    } else {
        rejection("Unknown command")
    }
}

} // verus!
