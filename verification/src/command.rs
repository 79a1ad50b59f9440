//! Commands in two phases: a request is applied to the keyspace, which gives a response, and
//! the response is rendered into the reply, away from the keyspace.

pub mod blpop;
pub mod echo;
pub mod get;
pub mod llen;
pub mod lpop;
pub mod lpush;
pub mod lrange;
pub mod ping;
pub mod rpush;
pub mod set;

use crate::command::blpop::{BLPopRequest, BLPopResponse};
use crate::command::echo::EchoCommand;
use crate::command::get::{GetCommandRequest, GetCommandResponse};
use crate::command::llen::{LLenCommand, LLenResponse};
use crate::command::lpop::{LPopRequest, LPopResponse};
use crate::command::lpush::{LPushRequest, LPushResponse};
use crate::command::lrange::{LRangeRequest, LRangeResponse};
use crate::command::ping::PingCommand;
use crate::command::rpush::{RPushRequest, RPushResult};
use crate::command::set::{SetCommandRequest, SetCommandResponse};
use crate::key_value_store::{KeyValueStore, StoreError};
use crate::model::{EntryView, ListView};
use crate::resp::{array_reply, encode_response, nil, nil_reply};
use tokio::sync::oneshot::Receiver;
use vstd::prelude::*;

verus! {

/// Why the arguments of a command were refused.
#[derive(Clone, Copy, Debug, PartialEq, Eq, Structural)]
pub enum InvalidArguments {
    ExpectedNoArguments,
    ExpectedSingleArgument,
    ExpectedTwoArguments,
    ExpectedOneOrTwoArguments,
    ExpectedTwoOrFourArguments,
    ExpectedAtLeastTwoArguments,
    ExpectedExactlyThreeArguments,
    /// The third argument of a `SET` with four arguments is not `PX`.
    ExpectedPx,
    /// The duration after `PX` is not an unsigned integer.
    ExpiryNotUnsigned,
    /// The count of an `LPOP` is not an unsigned integer.
    CountNotUnsigned,
    /// An index of an `LRANGE` is not an integer.
    IndexNotInteger,
    /// The timeout of a `BLPOP` is not an unsigned integer.
    TimeoutNotUnsigned,
}

impl InvalidArguments {
    /// What the refusal says.
    pub open spec fn text(self) -> Seq<char> {
        match self {
            InvalidArguments::ExpectedNoArguments => "Expected no arguments"@,
            InvalidArguments::ExpectedSingleArgument => "Expected a single argument"@,
            InvalidArguments::ExpectedTwoArguments => "Expected two arguments"@,
            InvalidArguments::ExpectedOneOrTwoArguments => "Expected one or two arguments"@,
            InvalidArguments::ExpectedTwoOrFourArguments => "Expected two or four arguments"@,
            InvalidArguments::ExpectedAtLeastTwoArguments => "Expected at least two arguments"@,
            InvalidArguments::ExpectedExactlyThreeArguments => "Expected exactly three arguments"@,
            InvalidArguments::ExpectedPx => "Expected PX before the expiry"@,
            InvalidArguments::ExpiryNotUnsigned => "Expiry must be an unsigned integer"@,
            InvalidArguments::CountNotUnsigned => "COUNT must be an unsigned integer"@,
            InvalidArguments::IndexNotInteger => "Index must be an integer"@,
            InvalidArguments::TimeoutNotUnsigned => "Timeout must be an unsigned integer"@,
        }
    }

    /// The refusal in words.
    pub fn message(&self) -> (text: &'static str)
        ensures
            text@ == self.text(),
    {
        match self {
            InvalidArguments::ExpectedNoArguments => "Expected no arguments",
            InvalidArguments::ExpectedSingleArgument => "Expected a single argument",
            InvalidArguments::ExpectedTwoArguments => "Expected two arguments",
            InvalidArguments::ExpectedOneOrTwoArguments => "Expected one or two arguments",
            InvalidArguments::ExpectedTwoOrFourArguments => "Expected two or four arguments",
            InvalidArguments::ExpectedAtLeastTwoArguments => "Expected at least two arguments",
            InvalidArguments::ExpectedExactlyThreeArguments => "Expected exactly three arguments",
            InvalidArguments::ExpectedPx => "Expected PX before the expiry",
            InvalidArguments::ExpiryNotUnsigned => "Expiry must be an unsigned integer",
            InvalidArguments::CountNotUnsigned => "COUNT must be an unsigned integer",
            InvalidArguments::IndexNotInteger => "Index must be an integer",
            InvalidArguments::TimeoutNotUnsigned => "Timeout must be an unsigned integer",
        }
    }
}

/// A reply whose bytes are known only once a value has arrived for the key, or the wait has
/// ended without one. The caller awaits `rx`, for `timeout` seconds at most where one is
/// given, and has [`Waiting::resolve`] encode what came of it.
#[derive(Debug)]
pub struct Waiting {
    pub key: Vec<u8>,
    pub timeout: Option<u64>,
    pub rx: Receiver<Vec<u8>>,
}

/// How the wait for a value ended.
#[derive(Debug)]
pub enum Waited {
    /// A value was handed over.
    Received(Vec<u8>),
    /// The sending half was dropped before a value came.
    Cancelled,
    /// The timeout passed before a value came.
    TimedOut,
}

/// The bytes that answer a blocking pop on `key` once the wait has ended in `waited`.
pub open spec fn resolved(key: Seq<u8>, waited: Waited) -> Seq<u8> {
    match waited {
        Waited::Received(value) => array_reply(seq![key, value@]),
        Waited::Cancelled => nil_reply(),
        Waited::TimedOut => nil_reply(),
    }
}

impl Waiting {
    /// Encodes the reply to a blocking pop on `key` once the wait has ended: the key and the
    /// value where one was received, the null bulk string otherwise.
    pub fn resolve(key: Vec<u8>, waited: Waited) -> (reply: Vec<u8>)
        ensures
            reply@ == resolved(key@, waited),
    {
        match waited {
            Waited::Received(value) => encode_response(key, value),
            Waited::Cancelled => nil(),
            Waited::TimedOut => nil(),
        }
    }
}

/// The reply to a command: bytes that are ready, or a wait that will give them.
#[derive(Debug)]
pub enum Reply {
    Immediate(Vec<u8>),
    Deferred(Waiting),
}

/// A reply as a value of the model.
pub enum ReplyView {
    Immediate(Seq<u8>),
    Deferred { key: Seq<u8>, timeout: Option<u64>, rx: Receiver<Vec<u8>> },
}

impl View for Reply {
    type V = ReplyView;

    open spec fn view(&self) -> ReplyView {
        match self {
            Reply::Immediate(bytes) => ReplyView::Immediate(bytes@),
            Reply::Deferred(waiting) => ReplyView::Deferred {
                key: waiting.key@,
                timeout: waiting.timeout,
                rx: waiting.rx,
            },
        }
    }
}

/// The second phase of a command: a response, which holds only data of its own, is formatted
/// into the reply.
pub trait CommandRunner: Sized {
    /// The reply that this response is rendered into.
    spec fn rendered(&self) -> ReplyView;

    fn run(self) -> (reply: Reply)
        ensures
            reply@ == self.rendered(),
    ;
}

/// Whether pushing `values` onto the list under `key` can turn the keyspace `before` into
/// `after` and give `length`.
///
/// A key that holds nothing gets a new list. A key that holds a string is left alone, and the
/// push fails. Otherwise the values join the list, at its head if `at_front` and at its tail
/// if not; `length` is the length of the list at that moment; and the list then hands values
/// to the clients that wait on it until it is at rest.
pub open spec fn pushed(
    before: Map<Seq<u8>, EntryView>,
    key: Seq<u8>,
    values: Seq<Seq<u8>>,
    at_front: bool,
    after: Map<Seq<u8>, EntryView>,
    length: Result<usize, StoreError>,
) -> bool {
    if !before.contains_key(key) {
        &&& after == before.insert(
            key,
            EntryView::List(ListView { items: values, waiters: Seq::empty(), expiry: None }),
        )
        &&& length matches Ok(n)
        &&& n == values.len()
    } else if before[key] is String {
        &&& after == before
        &&& length == Err::<usize, StoreError>(StoreError::WrongKind)
    } else {
        let list = before[key].list();
        let joined = if at_front {
            values + list.items
        } else {
            list.items + values
        };
        &&& after.contains_key(key)
        &&& after[key] is List
        &&& after == before.insert(key, after[key])
        &&& list.with_items(joined).hands_off_to(after[key].list())
        &&& length matches Ok(n)
        &&& n == joined.len()
    }
}

/// The first phase of a command: a request is applied to the keyspace.
pub trait DataRequester: Sized {
    type Response: CommandRunner;

    /// Whether applying this request to the keyspace `before` can leave the keyspace `after`
    /// and give `response`. Only where a list hands values to waiting clients is there more
    /// than one such outcome.
    spec fn applies(
        &self,
        before: Map<Seq<u8>, EntryView>,
        after: Map<Seq<u8>, EntryView>,
        response: &Self::Response,
    ) -> bool;

    fn request<S: KeyValueStore>(self, store: &mut S) -> (response: Self::Response)
        ensures
            self.applies(old(store)@, final(store)@, &response),
    ;
}

/// The builder of a command: it checks the arguments that follow the command's name.
pub trait CommandFactory: Sized + DataRequester {
    /// Whether `built` is what the arguments `arguments`, read at the time `now`, give.
    spec fn built(arguments: Seq<Seq<u8>>, now: u64, built: Result<Self, InvalidArguments>) -> bool;

    /// Builds the request from the arguments, or says why they are refused. `now` is the
    /// current time in milliseconds since the epoch.
    fn new(arguments: &[&[u8]], now: u64) -> (built: Result<Self, InvalidArguments>)
        ensures
            Self::built(crate::model::views(arguments@), now, built),
    ;
}

/// A request of any of the commands.
#[derive(Debug)]
pub enum Request {
    Ping(PingCommand),
    Echo(EchoCommand),
    Get(GetCommandRequest),
    SetKey(SetCommandRequest),
    RPush(RPushRequest),
    LPush(LPushRequest),
    LPop(LPopRequest),
    LLen(LLenCommand),
    LRange(LRangeRequest),
    BLPop(BLPopRequest),
}

/// The response to a request of any of the commands.
#[derive(Debug)]
pub enum Response {
    Ping(PingCommand),
    Echo(EchoCommand),
    Get(GetCommandResponse),
    SetKey(SetCommandResponse),
    RPush(RPushResult),
    LPush(LPushResponse),
    LPop(LPopResponse),
    LLen(LLenResponse),
    LRange(LRangeResponse),
    BLPop(BLPopResponse),
}

impl Request {
    /// The request as a `PING`, if it is one.
    pub open spec fn as_ping(self) -> Option<PingCommand> {
        match self {
            Request::Ping(request) => Some(request),
            _ => None,
        }
    }

    /// The request as an `ECHO`, if it is one.
    pub open spec fn as_echo(self) -> Option<EchoCommand> {
        match self {
            Request::Echo(request) => Some(request),
            _ => None,
        }
    }

    /// The request as a `GET`, if it is one.
    pub open spec fn as_get(self) -> Option<GetCommandRequest> {
        match self {
            Request::Get(request) => Some(request),
            _ => None,
        }
    }

    /// The request as a `SET`, if it is one.
    pub open spec fn as_set(self) -> Option<SetCommandRequest> {
        match self {
            Request::SetKey(request) => Some(request),
            _ => None,
        }
    }

    /// The request as an `RPUSH`, if it is one.
    pub open spec fn as_rpush(self) -> Option<RPushRequest> {
        match self {
            Request::RPush(request) => Some(request),
            _ => None,
        }
    }

    /// The request as an `LPUSH`, if it is one.
    pub open spec fn as_lpush(self) -> Option<LPushRequest> {
        match self {
            Request::LPush(request) => Some(request),
            _ => None,
        }
    }

    /// The request as an `LPOP`, if it is one.
    pub open spec fn as_lpop(self) -> Option<LPopRequest> {
        match self {
            Request::LPop(request) => Some(request),
            _ => None,
        }
    }

    /// The request as an `LLEN`, if it is one.
    pub open spec fn as_llen(self) -> Option<LLenCommand> {
        match self {
            Request::LLen(request) => Some(request),
            _ => None,
        }
    }

    /// The request as an `LRANGE`, if it is one.
    pub open spec fn as_lrange(self) -> Option<LRangeRequest> {
        match self {
            Request::LRange(request) => Some(request),
            _ => None,
        }
    }

    /// The request as a `BLPOP`, if it is one.
    pub open spec fn as_blpop(self) -> Option<BLPopRequest> {
        match self {
            Request::BLPop(request) => Some(request),
            _ => None,
        }
    }
}

impl DataRequester for Request {
    type Response = Response;

    /// A request gives the response of its own command, as that command says.
    open spec fn applies(
        &self,
        before: Map<Seq<u8>, EntryView>,
        after: Map<Seq<u8>, EntryView>,
        response: &Response,
    ) -> bool {
        match (*self, *response) {
            (Request::Ping(request), Response::Ping(response)) => request.applies(
                before,
                after,
                &response,
            ),
            (Request::Echo(request), Response::Echo(response)) => request.applies(
                before,
                after,
                &response,
            ),
            (Request::Get(request), Response::Get(response)) => request.applies(
                before,
                after,
                &response,
            ),
            (Request::SetKey(request), Response::SetKey(response)) => request.applies(
                before,
                after,
                &response,
            ),
            (Request::RPush(request), Response::RPush(response)) => request.applies(
                before,
                after,
                &response,
            ),
            (Request::LPush(request), Response::LPush(response)) => request.applies(
                before,
                after,
                &response,
            ),
            (Request::LPop(request), Response::LPop(response)) => request.applies(
                before,
                after,
                &response,
            ),
            (Request::LLen(request), Response::LLen(response)) => request.applies(
                before,
                after,
                &response,
            ),
            (Request::LRange(request), Response::LRange(response)) => request.applies(
                before,
                after,
                &response,
            ),
            (Request::BLPop(request), Response::BLPop(response)) => request.applies(
                before,
                after,
                &response,
            ),
            _ => false,
        }
    }

    fn request<S: KeyValueStore>(self, store: &mut S) -> (response: Response) {
        match self {
            Request::Ping(request) => Response::Ping(request.request(store)),
            Request::Echo(request) => Response::Echo(request.request(store)),
            Request::Get(request) => Response::Get(request.request(store)),
            Request::SetKey(request) => Response::SetKey(request.request(store)),
            Request::RPush(request) => Response::RPush(request.request(store)),
            Request::LPush(request) => Response::LPush(request.request(store)),
            Request::LPop(request) => Response::LPop(request.request(store)),
            Request::LLen(request) => Response::LLen(request.request(store)),
            Request::LRange(request) => Response::LRange(request.request(store)),
            Request::BLPop(request) => Response::BLPop(request.request(store)),
        }
    }
}

impl CommandRunner for Response {
    open spec fn rendered(&self) -> ReplyView {
        match self {
            Response::Ping(response) => response.rendered(),
            Response::Echo(response) => response.rendered(),
            Response::Get(response) => response.rendered(),
            Response::SetKey(response) => response.rendered(),
            Response::RPush(response) => response.rendered(),
            Response::LPush(response) => response.rendered(),
            Response::LPop(response) => response.rendered(),
            Response::LLen(response) => response.rendered(),
            Response::LRange(response) => response.rendered(),
            Response::BLPop(response) => response.rendered(),
        }
    }

    fn run(self) -> (reply: Reply) {
        match self {
            Response::Ping(response) => response.run(),
            Response::Echo(response) => response.run(),
            Response::Get(response) => response.run(),
            Response::SetKey(response) => response.run(),
            Response::RPush(response) => response.run(),
            Response::LPush(response) => response.run(),
            Response::LPop(response) => response.run(),
            Response::LLen(response) => response.run(),
            Response::LRange(response) => response.run(),
            Response::BLPop(response) => response.run(),
        }
    }
}

} // verus!
