//! The decoder of frames, and the routing of a decoded command to its builder.
//!
//! A frame is an array of bulk strings: `*<N>\r\n`, then `N` times `$<len>\r\n<bytes>\r\n`.

use crate::ascii::{
    ascii_lowercase, eq_ignore_ascii_case, parse_usize, spelled_usize, unsigned_decimal, CR, LF,
};
use crate::command::blpop::BLPopRequest;
use crate::command::echo::EchoCommand;
use crate::command::get::GetCommandRequest;
use crate::command::llen::LLenCommand;
use crate::command::lpop::LPopRequest;
use crate::command::lpush::LPushRequest;
use crate::command::lrange::LRangeRequest;
use crate::command::ping::PingCommand;
use crate::command::rpush::RPushRequest;
use crate::command::set::SetCommandRequest;
use crate::command::{CommandFactory, InvalidArguments, Request};
use crate::model::views;
use crate::resp::{ARRAY, BULK};
use vstd::prelude::*;
use vstd::slice::slice_subrange;

verus! {

/// Why a frame could not be decoded.
#[derive(Clone, Copy, Debug, PartialEq, Eq, Structural)]
pub enum ProtocolError {
    /// The frame does not begin with `*`.
    MissingArgumentCount,
    /// What follows the `*` is not an unsigned integer.
    InvalidCount,
    /// The frame announces no bulk string, or more than it holds.
    Incomplete,
    /// A bulk string's header is not `$` and the length of the bytes that follow it.
    LengthMismatch,
}

impl ProtocolError {
    /// What the error says.
    pub open spec fn text(self) -> Seq<char> {
        match self {
            ProtocolError::MissingArgumentCount => "missing argument count"@,
            ProtocolError::InvalidCount => "invalid count"@,
            ProtocolError::Incomplete => "incomplete"@,
            ProtocolError::LengthMismatch => "length mismatch"@,
        }
    }

    /// The error in words.
    pub fn message(&self) -> (text: &'static str)
        ensures
            text@ == self.text(),
    {
        match self {
            ProtocolError::MissingArgumentCount => "missing argument count",
            ProtocolError::InvalidCount => "invalid count",
            ProtocolError::Incomplete => "incomplete",
            ProtocolError::LengthMismatch => "length mismatch",
        }
    }
}

/// Why the bytes that a client sent gave no request.
#[derive(Clone, Copy, Debug, PartialEq, Eq, Structural)]
pub enum ParseError {
    Protocol(ProtocolError),
    UnknownCommand,
    InvalidArguments(InvalidArguments),
}

impl ParseError {
    /// The error in words.
    pub fn message(&self) -> (text: &'static str)
        ensures
            text@ == (match *self {
                ParseError::Protocol(error) => error.text(),
                ParseError::UnknownCommand => "Unknown command"@,
                ParseError::InvalidArguments(error) => error.text(),
            }),
    {
        match self {
            ParseError::Protocol(error) => error.message(),
            ParseError::UnknownCommand => "Unknown command",
            ParseError::InvalidArguments(error) => error.message(),
        }
    }
}

/// The place of the first `\r\n` of `s` at or after `from`; the length of `s` if there is none.
pub open spec fn next_crlf(s: Seq<u8>, from: int) -> int
    decreases s.len() - from,
{
    if from < 0 || from + 1 >= s.len() {
        s.len() as int
    } else if s[from] == CR && s[from + 1] == LF {
        from
    } else {
        next_crlf(s, from + 1)
    }
}

/// The next `\r\n` is not before `from`, and lies within `s` where there is one.
pub proof fn lemma_next_crlf(s: Seq<u8>, from: int)
    requires
        0 <= from <= s.len(),
    ensures
        from <= next_crlf(s, from) <= s.len(),
        next_crlf(s, from) < s.len() ==> next_crlf(s, from) + 2 <= s.len(),
    decreases s.len() - from,
{
    if from + 1 >= s.len() {
    } else if s[from] == CR && s[from + 1] == LF {
    } else {
        lemma_next_crlf(s, from + 1);
    }
}

/// The pieces that the `\r\n` of `s`, from `from` on, cut it into.
pub open spec fn segments_from(s: Seq<u8>, from: int) -> Seq<Seq<u8>>
    decreases s.len() - from,
{
    if from < 0 || from > s.len() {
        Seq::empty()
    } else {
        let end = next_crlf(s, from);
        if end >= s.len() {
            seq![s.subrange(from, s.len() as int)]
        } else {
            proof {
                lemma_next_crlf(s, from);
            }
            seq![s.subrange(from, end)] + segments_from(s, end + 2)
        }
    }
}

/// The pieces that its `\r\n` cut `s` into: one more than there are of them.
pub open spec fn segments(s: Seq<u8>) -> Seq<Seq<u8>> {
    segments_from(s, 0)
}

/// Cuts `frame` at each `\r\n`.
pub fn split_segments<'a>(frame: &'a [u8]) -> (lines: Vec<&'a [u8]>)
    ensures
        views(lines@) == segments(frame@),
        lines@.len() >= 1,
{
    let mut lines: Vec<&'a [u8]> = Vec::new();
    let mut start: usize = 0;
    let mut i: usize = 0;
    assert(views(lines@) + segments_from(frame@, 0) =~= segments(frame@));
    while i < frame.len() && i + 1 < frame.len()
        invariant
            start <= i <= frame@.len(),
            next_crlf(frame@, start as int) == next_crlf(frame@, i as int),
            segments(frame@) == views(lines@) + segments_from(frame@, start as int),
        decreases frame@.len() - i,
    {
        if frame[i] == CR && frame[i + 1] == LF {
            let ghost before = views(lines@);
            lines.push(slice_subrange(frame, start, i));
            proof {
                assert(views(lines@) =~= before.push(frame@.subrange(start as int, i as int)));
                assert(views(lines@) + segments_from(frame@, i + 2) =~= before + (seq![
                    frame@.subrange(start as int, i as int),
                ] + segments_from(frame@, i + 2)));
            }
            start = i + 2;
            i = start;
        } else {
            i += 1;
        }
    }
    let ghost before = views(lines@);
    lines.push(slice_subrange(frame, start, frame.len()));
    proof {
        assert(views(lines@) =~= before.push(frame@.subrange(start as int, frame@.len() as int)));
        assert(views(lines@) =~= before + seq![frame@.subrange(start as int, frame@.len() as int)]);
    }
    lines
}

/// Whether `length_line` is the header of the bulk string `content`: `$`, then the length of
/// `content` as an unsigned decimal.
pub open spec fn is_bulk_string(length_line: Seq<u8>, content: Seq<u8>) -> bool {
    &&& length_line.len() > 0
    &&& length_line[0] == BULK
    &&& unsigned_decimal(length_line.skip(1)) == Some(content.len())
}

/// Checks the header of a bulk string against its bytes, and returns the bytes.
pub fn parse_bulk_string<'a>(length_line: &[u8], content: &'a [u8]) -> (bytes: Result<
    &'a [u8],
    ProtocolError,
>)
    ensures
        match bytes {
            Ok(bytes) => is_bulk_string(length_line@, content@) && bytes@ == content@,
            Err(error) => !is_bulk_string(length_line@, content@) && error
                == ProtocolError::LengthMismatch,
        },
{
    if length_line.len() == 0 || length_line[0] != BULK {
        return Err(ProtocolError::LengthMismatch);
    }
    assert(length_line@.subrange(1, length_line@.len() as int) =~= length_line@.skip(1));
    let content_len: usize = content.len();
    let declared_len: usize = match parse_usize(slice_subrange(length_line, 1, length_line.len())) {
        Some(declared_len) => declared_len,
        None => {
            return Err(ProtocolError::LengthMismatch);
        },
    };
    if declared_len != content_len {
        return Err(ProtocolError::LengthMismatch);
    }
    Ok(content)
}

/// Whether the `count` bulk strings that follow the first of `lines` all have a fitting header.
pub open spec fn bulk_strings(lines: Seq<Seq<u8>>, count: int) -> bool {
    forall|i: int| 0 <= i < count ==> is_bulk_string(#[trigger] lines[1 + 2 * i], lines[2 + 2 * i])
}

/// A command as it stands in a frame: its name and its arguments.
pub struct Command<'a> {
    pub name: &'a [u8],
    pub arguments: Vec<&'a [u8]>,
}

/// What a frame decodes to: the name of the command and its arguments, or the first rule
/// that the frame breaks.
pub open spec fn decoded(frame: Seq<u8>) -> Result<(Seq<u8>, Seq<Seq<u8>>), ProtocolError> {
    let lines = segments(frame);
    if lines[0].len() == 0 || lines[0][0] != ARRAY {
        Err(ProtocolError::MissingArgumentCount)
    } else {
        match spelled_usize(lines[0].skip(1)) {
            None => Err(ProtocolError::InvalidCount),
            Some(total_parts) => if total_parts == 0 || lines.len() < 1 + 2 * total_parts {
                Err(ProtocolError::Incomplete)
            } else if !bulk_strings(lines, total_parts as int) {
                Err(ProtocolError::LengthMismatch)
            } else {
                Ok((lines[2], Seq::new((total_parts - 1) as nat, |i: int| lines[4 + 2 * i])))
            },
        }
    }
}

/// Decodes one frame.
pub fn decode<'a>(frame: &'a [u8]) -> (command: Result<Command<'a>, ProtocolError>)
    ensures
        match command {
            Ok(command) => decoded(frame@) == Ok::<(Seq<u8>, Seq<Seq<u8>>), ProtocolError>(
                (command.name@, views(command.arguments@)),
            ),
            Err(error) => decoded(frame@) == Err::<(Seq<u8>, Seq<Seq<u8>>), ProtocolError>(error),
        },
{
    let lines: Vec<&'a [u8]> = split_segments(frame);
    let ghost all = views(lines@);
    let line_count: usize = lines.len();
    assert(all.len() == line_count);
    let argument_count_line: &[u8] = lines[0];
    assert(argument_count_line@ == all[0]);
    if argument_count_line.len() == 0 || argument_count_line[0] != ARRAY {
        return Err(ProtocolError::MissingArgumentCount);
    }
    assert(argument_count_line@.subrange(1, argument_count_line@.len() as int)
        =~= argument_count_line@.skip(1));
    let total_parts: usize = match parse_usize(
        slice_subrange(argument_count_line, 1, argument_count_line.len()),
    ) {
        Some(total_parts) => total_parts,
        None => {
            return Err(ProtocolError::InvalidCount);
        },
    };
    if total_parts == 0 {
        return Err(ProtocolError::Incomplete);
    }
    let needed: usize = match total_parts.checked_mul(2) {
        Some(doubled) => match doubled.checked_add(1) {
            Some(needed) => needed,
            None => {
                return Err(ProtocolError::Incomplete);
            },
        },
        None => {
            return Err(ProtocolError::Incomplete);
        },
    };
    if line_count < needed {
        return Err(ProtocolError::Incomplete);
    }
    let name: &'a [u8] = match parse_bulk_string(lines[1], lines[2]) {
        Ok(name) => name,
        Err(error) => {
            assert(!is_bulk_string(all[1 + 2 * 0int], all[2 + 2 * 0int]));
            return Err(error);
        },
    };
    let argument_count: usize = total_parts - 1;
    let mut verified_arguments: Vec<&'a [u8]> = Vec::with_capacity(argument_count);
    let mut part: usize = 1;
    assert(bulk_strings(all, 1)) by {
        assert(is_bulk_string(all[1 + 2 * 0int], all[2 + 2 * 0int]));
    }
    while part < total_parts
        invariant
            1 <= part <= total_parts,
            all == views(lines@),
            lines@.len() >= 1 + 2 * total_parts,
            1 + 2 * total_parts <= usize::MAX,
            name@ == all[2],
            decoded(frame@) == (if bulk_strings(all, total_parts as int) {
                Ok::<(Seq<u8>, Seq<Seq<u8>>), ProtocolError>(
                    (all[2], Seq::new((total_parts - 1) as nat, |i: int| all[4 + 2 * i])),
                )
            } else {
                Err::<(Seq<u8>, Seq<Seq<u8>>), ProtocolError>(ProtocolError::LengthMismatch)
            }),
            bulk_strings(all, part as int),
            verified_arguments@.len() == part - 1,
            forall|j: int|
                0 <= j < part - 1 ==> (#[trigger] verified_arguments@[j])@ == all[4 + 2 * j],
        decreases total_parts - part,
    {
        let argument: &'a [u8] = match parse_bulk_string(lines[1 + 2 * part], lines[2 + 2 * part]) {
            Ok(argument) => argument,
            Err(error) => {
                assert(!is_bulk_string(all[1 + 2 * part], all[2 + 2 * part]));
                assert(!bulk_strings(all, total_parts as int));
                return Err(error);
            },
        };
        verified_arguments.push(argument);
        proof {
            assert forall|i: int| 0 <= i < part + 1 implies is_bulk_string(
                #[trigger] all[1 + 2 * i],
                all[2 + 2 * i],
            ) by {
                if i < part {
                } else {
                    assert(i == part);
                }
            }
        }
        part += 1;
    }
    assert(views(verified_arguments@) =~= Seq::new(
        (total_parts - 1) as nat,
        |i: int| all[4 + 2 * i],
    ));
    Ok(Command { name, arguments: verified_arguments })
}

/// `ping`
pub open spec fn ping_word() -> Seq<u8> {
    seq!['p' as u8, 'i' as u8, 'n' as u8, 'g' as u8]
}

/// `echo`
pub open spec fn echo_word() -> Seq<u8> {
    seq!['e' as u8, 'c' as u8, 'h' as u8, 'o' as u8]
}

/// `set`
pub open spec fn set_word() -> Seq<u8> {
    seq!['s' as u8, 'e' as u8, 't' as u8]
}

/// `get`
pub open spec fn get_word() -> Seq<u8> {
    seq!['g' as u8, 'e' as u8, 't' as u8]
}

/// `rpush`
pub open spec fn rpush_word() -> Seq<u8> {
    seq!['r' as u8, 'p' as u8, 'u' as u8, 's' as u8, 'h' as u8]
}

/// `lpush`
pub open spec fn lpush_word() -> Seq<u8> {
    seq!['l' as u8, 'p' as u8, 'u' as u8, 's' as u8, 'h' as u8]
}

/// `lrange`
pub open spec fn lrange_word() -> Seq<u8> {
    seq!['l' as u8, 'r' as u8, 'a' as u8, 'n' as u8, 'g' as u8, 'e' as u8]
}

/// `llen`
pub open spec fn llen_word() -> Seq<u8> {
    seq!['l' as u8, 'l' as u8, 'e' as u8, 'n' as u8]
}

/// `lpop`
pub open spec fn lpop_word() -> Seq<u8> {
    seq!['l' as u8, 'p' as u8, 'o' as u8, 'p' as u8]
}

/// `blpop`
pub open spec fn blpop_word() -> Seq<u8> {
    seq!['b' as u8, 'l' as u8, 'p' as u8, 'o' as u8, 'p' as u8]
}

/// Whether `request` is what the builder of the command `T` gives for the arguments, as the
/// variant of `Request` that `wrapped` tells from the others.
pub open spec fn built_as<T: CommandFactory>(
    arguments: Seq<Seq<u8>>,
    now: u64,
    request: Result<Request, ParseError>,
    wrapped: spec_fn(Request) -> Option<T>,
) -> bool {
    match request {
        Ok(request) => wrapped(request) matches Some(built) && T::built(
            arguments,
            now,
            Ok(built),
        ),
        Err(ParseError::InvalidArguments(error)) => T::built(arguments, now, Err(error)),
        Err(_) => false,
    }
}

/// The commands, by name.
#[derive(Clone, Copy, Debug, PartialEq, Eq, Structural)]
pub enum CommandName {
    Ping,
    Echo,
    SetKey,
    Get,
    RPush,
    LPush,
    LRange,
    LLen,
    LPop,
    BLPop,
}

/// The command that `name` names, in small or capital letters.
pub open spec fn named(name: Seq<u8>) -> Option<CommandName> {
    let word = ascii_lowercase(name);
    if word == ping_word() {
        Some(CommandName::Ping)
    } else if word == echo_word() {
        Some(CommandName::Echo)
    } else if word == set_word() {
        Some(CommandName::SetKey)
    } else if word == get_word() {
        Some(CommandName::Get)
    } else if word == rpush_word() {
        Some(CommandName::RPush)
    } else if word == lpush_word() {
        Some(CommandName::LPush)
    } else if word == lrange_word() {
        Some(CommandName::LRange)
    } else if word == llen_word() {
        Some(CommandName::LLen)
    } else if word == lpop_word() {
        Some(CommandName::LPop)
    } else if word == blpop_word() {
        Some(CommandName::BLPop)
    } else {
        None
    }
}

/// Whether `request` is what the command named `name`, in small or capital letters, gives
/// for the arguments `arguments` at the time `now`.
pub open spec fn routed(
    name: Seq<u8>,
    arguments: Seq<Seq<u8>>,
    now: u64,
    request: Result<Request, ParseError>,
) -> bool {
    match named(name) {
        Some(CommandName::Ping) => built_as::<PingCommand>(
            arguments,
            now,
            request,
            |r: Request| r.as_ping(),
        ),
        Some(CommandName::Echo) => built_as::<EchoCommand>(
            arguments,
            now,
            request,
            |r: Request| r.as_echo(),
        ),
        Some(CommandName::SetKey) => built_as::<SetCommandRequest>(
            arguments,
            now,
            request,
            |r: Request| r.as_set(),
        ),
        Some(CommandName::Get) => built_as::<GetCommandRequest>(
            arguments,
            now,
            request,
            |r: Request| r.as_get(),
        ),
        Some(CommandName::RPush) => built_as::<RPushRequest>(
            arguments,
            now,
            request,
            |r: Request| r.as_rpush(),
        ),
        Some(CommandName::LPush) => built_as::<LPushRequest>(
            arguments,
            now,
            request,
            |r: Request| r.as_lpush(),
        ),
        Some(CommandName::LRange) => built_as::<LRangeRequest>(
            arguments,
            now,
            request,
            |r: Request| r.as_lrange(),
        ),
        Some(CommandName::LLen) => built_as::<LLenCommand>(
            arguments,
            now,
            request,
            |r: Request| r.as_llen(),
        ),
        Some(CommandName::LPop) => built_as::<LPopRequest>(
            arguments,
            now,
            request,
            |r: Request| r.as_lpop(),
        ),
        Some(CommandName::BLPop) => built_as::<BLPopRequest>(
            arguments,
            now,
            request,
            |r: Request| r.as_blpop(),
        ),
        None => request == Err::<Request, ParseError>(ParseError::UnknownCommand),
    }
}

/// Whether `request` is what the frame `frame`, read at the time `now`, gives.
pub open spec fn parsed(frame: Seq<u8>, now: u64, request: Result<Request, ParseError>) -> bool {
    match decoded(frame) {
        Ok((name, arguments)) => routed(name, arguments, now, request),
        Err(error) => request == Err::<Request, ParseError>(ParseError::Protocol(error)),
    }
}

fn is_ping(name: &[u8]) -> (is: bool)
    ensures
        is == (ascii_lowercase(name@) == ping_word()),
{
    let word = ['p' as u8, 'i' as u8, 'n' as u8, 'g' as u8];
    assert(word@ =~= ping_word() && ascii_lowercase(ping_word()) =~= ping_word());
    eq_ignore_ascii_case(name, word.as_slice())
}

fn is_echo(name: &[u8]) -> (is: bool)
    ensures
        is == (ascii_lowercase(name@) == echo_word()),
{
    let word = ['e' as u8, 'c' as u8, 'h' as u8, 'o' as u8];
    assert(word@ =~= echo_word() && ascii_lowercase(echo_word()) =~= echo_word());
    eq_ignore_ascii_case(name, word.as_slice())
}

fn is_set(name: &[u8]) -> (is: bool)
    ensures
        is == (ascii_lowercase(name@) == set_word()),
{
    let word = ['s' as u8, 'e' as u8, 't' as u8];
    assert(word@ =~= set_word() && ascii_lowercase(set_word()) =~= set_word());
    eq_ignore_ascii_case(name, word.as_slice())
}

fn is_get(name: &[u8]) -> (is: bool)
    ensures
        is == (ascii_lowercase(name@) == get_word()),
{
    let word = ['g' as u8, 'e' as u8, 't' as u8];
    assert(word@ =~= get_word() && ascii_lowercase(get_word()) =~= get_word());
    eq_ignore_ascii_case(name, word.as_slice())
}

fn is_rpush(name: &[u8]) -> (is: bool)
    ensures
        is == (ascii_lowercase(name@) == rpush_word()),
{
    let word = ['r' as u8, 'p' as u8, 'u' as u8, 's' as u8, 'h' as u8];
    assert(word@ =~= rpush_word() && ascii_lowercase(rpush_word()) =~= rpush_word());
    eq_ignore_ascii_case(name, word.as_slice())
}

fn is_lpush(name: &[u8]) -> (is: bool)
    ensures
        is == (ascii_lowercase(name@) == lpush_word()),
{
    let word = ['l' as u8, 'p' as u8, 'u' as u8, 's' as u8, 'h' as u8];
    assert(word@ =~= lpush_word() && ascii_lowercase(lpush_word()) =~= lpush_word());
    eq_ignore_ascii_case(name, word.as_slice())
}

fn is_lrange(name: &[u8]) -> (is: bool)
    ensures
        is == (ascii_lowercase(name@) == lrange_word()),
{
    let word = ['l' as u8, 'r' as u8, 'a' as u8, 'n' as u8, 'g' as u8, 'e' as u8];
    assert(word@ =~= lrange_word() && ascii_lowercase(lrange_word()) =~= lrange_word());
    eq_ignore_ascii_case(name, word.as_slice())
}

fn is_llen(name: &[u8]) -> (is: bool)
    ensures
        is == (ascii_lowercase(name@) == llen_word()),
{
    let word = ['l' as u8, 'l' as u8, 'e' as u8, 'n' as u8];
    assert(word@ =~= llen_word() && ascii_lowercase(llen_word()) =~= llen_word());
    eq_ignore_ascii_case(name, word.as_slice())
}

fn is_lpop(name: &[u8]) -> (is: bool)
    ensures
        is == (ascii_lowercase(name@) == lpop_word()),
{
    let word = ['l' as u8, 'p' as u8, 'o' as u8, 'p' as u8];
    assert(word@ =~= lpop_word() && ascii_lowercase(lpop_word()) =~= lpop_word());
    eq_ignore_ascii_case(name, word.as_slice())
}

fn is_blpop(name: &[u8]) -> (is: bool)
    ensures
        is == (ascii_lowercase(name@) == blpop_word()),
{
    let word = ['b' as u8, 'l' as u8, 'p' as u8, 'o' as u8, 'p' as u8];
    assert(word@ =~= blpop_word() && ascii_lowercase(blpop_word()) =~= blpop_word());
    eq_ignore_ascii_case(name, word.as_slice())
}

/// Tells which command `name` names.
pub fn command_name(name: &[u8]) -> (command: Option<CommandName>)
    ensures
        command == named(name@),
{
    if is_ping(name) {
        Some(CommandName::Ping)
    } else if is_echo(name) {
        Some(CommandName::Echo)
    } else if is_set(name) {
        Some(CommandName::SetKey)
    } else if is_get(name) {
        Some(CommandName::Get)
    } else if is_rpush(name) {
        Some(CommandName::RPush)
    } else if is_lpush(name) {
        Some(CommandName::LPush)
    } else if is_lrange(name) {
        Some(CommandName::LRange)
    } else if is_llen(name) {
        Some(CommandName::LLen)
    } else if is_lpop(name) {
        Some(CommandName::LPop)
    } else if is_blpop(name) {
        Some(CommandName::BLPop)
    } else {
        None
    }
}

/// Hands the arguments to the builder of the command that `name` names.
pub fn route(name: &[u8], arguments: &[&[u8]], now: u64) -> (request: Result<Request, ParseError>)
    ensures
        routed(name@, views(arguments@), now, request),
{
    match command_name(name) {
        Some(CommandName::Ping) => match PingCommand::new(arguments, now) {
            Ok(request) => Ok(Request::Ping(request)),
            Err(error) => Err(ParseError::InvalidArguments(error)),
        },
        Some(CommandName::Echo) => match EchoCommand::new(arguments, now) {
            Ok(request) => Ok(Request::Echo(request)),
            Err(error) => Err(ParseError::InvalidArguments(error)),
        },
        Some(CommandName::SetKey) => match SetCommandRequest::new(arguments, now) {
            Ok(request) => Ok(Request::SetKey(request)),
            Err(error) => Err(ParseError::InvalidArguments(error)),
        },
        Some(CommandName::Get) => match GetCommandRequest::new(arguments, now) {
            Ok(request) => Ok(Request::Get(request)),
            Err(error) => Err(ParseError::InvalidArguments(error)),
        },
        Some(CommandName::RPush) => match RPushRequest::new(arguments, now) {
            Ok(request) => Ok(Request::RPush(request)),
            Err(error) => Err(ParseError::InvalidArguments(error)),
        },
        Some(CommandName::LPush) => match LPushRequest::new(arguments, now) {
            Ok(request) => Ok(Request::LPush(request)),
            Err(error) => Err(ParseError::InvalidArguments(error)),
        },
        Some(CommandName::LRange) => match LRangeRequest::new(arguments, now) {
            Ok(request) => Ok(Request::LRange(request)),
            Err(error) => Err(ParseError::InvalidArguments(error)),
        },
        Some(CommandName::LLen) => match LLenCommand::new(arguments, now) {
            Ok(request) => Ok(Request::LLen(request)),
            Err(error) => Err(ParseError::InvalidArguments(error)),
        },
        Some(CommandName::LPop) => match LPopRequest::new(arguments, now) {
            Ok(request) => Ok(Request::LPop(request)),
            Err(error) => Err(ParseError::InvalidArguments(error)),
        },
        Some(CommandName::BLPop) => match BLPopRequest::new(arguments, now) {
            Ok(request) => Ok(Request::BLPop(request)),
            Err(error) => Err(ParseError::InvalidArguments(error)),
        },
        None => Err(ParseError::UnknownCommand),
    }
}

/// Decodes one frame and builds the request that it asks for. `now` is the current time in
/// milliseconds since the epoch.
pub fn redis_parser(command: &[u8], now: u64) -> (request: Result<Request, ParseError>)
    ensures
        parsed(command@, now, request),
{
    match decode(command) {
        Ok(decoded) => route(decoded.name, decoded.arguments.as_slice(), now),
        Err(error) => Err(ParseError::Protocol(error)),
    }
}

} // verus!
