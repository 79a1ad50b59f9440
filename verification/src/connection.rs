//! What the server does for one connection: the step that each read asks for, and the
//! replies to the requests that it submits, in their order.

use crate::command::{CommandRunner, DataRequester, Reply, ReplyView, Request, Response};
use crate::key_value_store::KeyValueStore;
use crate::model::{views, EntryView};
use crate::parser::{parsed, redis_parser, ParseError};
use vstd::prelude::*;
use vstd::utf8::valid_utf8;

verus! {

/// Why the bytes of a read were passed over.
#[derive(Clone, Copy, Debug, PartialEq, Eq, Structural)]
pub enum Skipped {
    /// The bytes are not UTF-8.
    InvalidUtf8,
    /// The bytes are no frame, or ask for no command that could be built.
    Refused(ParseError),
}

/// What a connection does after a read.
#[derive(Debug)]
pub enum Step {
    /// The client has closed the connection.
    Close,
    /// The bytes are passed over, and the connection stays open.
    Skip(Skipped),
    /// The request goes to the keyspace, and its reply to the client.
    Submit(Request),
}

/// Whether `std::str::from_utf8` accepts `bytes`. Nothing is proved of it: the contract
/// claims, as the documentation of the function says, that it accepts the byte strings that
/// are well-formed UTF-8 and no others.
#[verifier::external_body]
fn is_utf8(bytes: &[u8]) -> (valid: bool)
    ensures
        valid == valid_utf8(bytes@),
{
    std::str::from_utf8(bytes).is_ok()
}

/// Whether `step` is what the read of `buffer` at the time `now` asks for: an empty read
/// closes the connection; bytes that are not UTF-8, or that give no request, are passed
/// over; a request is submitted.
pub open spec fn stepped(buffer: Seq<u8>, now: u64, step: Step) -> bool {
    if buffer.len() == 0 {
        step is Close
    } else if !valid_utf8(buffer) {
        step matches Step::Skip(skipped) && skipped == Skipped::InvalidUtf8
    } else {
        match step {
            Step::Submit(request) => parsed(buffer, now, Ok(request)),
            Step::Skip(Skipped::Refused(error)) => parsed(buffer, now, Err(error)),
            _ => false,
        }
    }
}

/// Decides what to do with the bytes that one read of a client's connection gave. `now` is
/// the current time in milliseconds since the epoch.
pub fn handle_client(buffer: &[u8], now: u64) -> (step: Step)
    ensures
        stepped(buffer@, now, step),
{
    if buffer.len() == 0 {
        return Step::Close;
    }
    if !is_utf8(buffer) {
        return Step::Skip(Skipped::InvalidUtf8);
    }
    match redis_parser(buffer, now) {
        Ok(parsed_command) => Step::Submit(parsed_command),
        Err(e) => Step::Skip(Skipped::Refused(e)),
    }
}

/// Whether applying `requests` in their order to the keyspace `before`, and rendering each
/// response, can leave the keyspace `after` and give `replies`.
pub open spec fn answers(
    before: Map<Seq<u8>, EntryView>,
    requests: Seq<Request>,
    after: Map<Seq<u8>, EntryView>,
    replies: Seq<ReplyView>,
) -> bool
    decreases requests.len(),
{
    if requests.len() == 0 {
        after == before && replies.len() == 0
    } else {
        &&& replies.len() == requests.len()
        &&& exists|middle: Map<Seq<u8>, EntryView>, response: Response|
            {
                &&& answers(before, requests.drop_last(), middle, replies.drop_last())
                &&& #[trigger] requests.last().applies(middle, after, &response)
                &&& replies.last() == response.rendered()
            }
    }
}

/// Applies the requests to the keyspace one after the other, as the single owner of the
/// keyspace does with what the connections submit, and renders each response.
pub fn apply_all<S: KeyValueStore>(key_value_store: &mut S, requests: Vec<Request>) -> (replies:
    Vec<Reply>)
    ensures
        answers(old(key_value_store)@, requests@, final(key_value_store)@, views(replies@)),
{
    let mut replies: Vec<Reply> = Vec::new();
    let ghost all = requests@;
    let ghost before = key_value_store@;
    assert(all.take(0) =~= Seq::<Request>::empty());
    for command in iter: requests.into_iter()
        invariant
            iter.seq() == all,
            answers(before, all.take(iter.index() as int), key_value_store@, views(replies@)),
    {
        let ghost middle = key_value_store@;
        let ghost done = views(replies@);
        let response = command.request(key_value_store);
        let ghost rendered = response.rendered();
        replies.push(response.run());
        proof {
            let next = all.take(iter.index() + 1);
            assert(next.drop_last() =~= all.take(iter.index() as int));
            assert(next.last() == command);
            assert(views(replies@).drop_last() =~= done);
            assert(views(replies@).last() == rendered);
            assert(next.last().applies(middle, key_value_store@, &response));
        }
    }
    assert(all.take(all.len() as int) =~= all);
    replies
}

} // verus!
