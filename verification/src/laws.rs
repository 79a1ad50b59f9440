//! Laws that hold of the keyspace and of the commands, each proved from their contracts.

use crate::ascii::spelled_u64;
use crate::command::get::{GetCommandRequest, GetCommandResponse};
use crate::command::lpop::{LPopRequest, LPopResponse};
use crate::command::lpush::{LPushRequest, LPushResponse};
use crate::command::lrange::{LRangeRequest, LRangeResponse};
use crate::command::rpush::{RPushRequest, RPushResult};
use crate::command::set::{SetCommandRequest, SetCommandResponse};
use crate::command::{
    pushed, CommandFactory, CommandRunner, DataRequester, ReplyView, Request, Response,
};
use crate::connection::answers;
use crate::key_value_store::StoreError;
use crate::model::{
    handoff, lemma_handoff_bounds, lemma_hands_off_settled, range, receiver, views, EntryView,
    ListView,
};
use crate::resp::nil_reply;
use vstd::prelude::*;

verus! {

/// Every list of the keyspace is at rest: it holds no item while a client waits on it.
pub open spec fn at_rest(store: Map<Seq<u8>, EntryView>) -> bool {
    forall|key: Seq<u8>|
        store.contains_key(key) && store[key] is List ==> (#[trigger] store[key]).list().settled()
}

/// No client waits on any list of the keyspace.
pub open spec fn quiet(store: Map<Seq<u8>, EntryView>) -> bool {
    forall|key: Seq<u8>|
        store.contains_key(key) && store[key] is List ==> (#[trigger] store[key]).list().waiters.len()
            == 0
}

/// A hand-off gives each item that leaves the list to one waiter that leaves the queue, whose
/// consumer was there to take it; and an item nearer the head goes to an older waiter. So no
/// item reaches two waiters, and no waiter gets two items.
pub proof fn lemma_handoff_in_order(items: nat, waiters: nat, outcomes: Seq<bool>)
    ensures
        forall|item: nat|
            item < handoff(items, waiters, outcomes).delivered ==> 0 <= #[trigger] receiver(
                outcomes,
                item,
            ) < handoff(items, waiters, outcomes).consumed && outcomes[receiver(outcomes, item)],
        forall|older: nat, newer: nat|
            older < newer < handoff(items, waiters, outcomes).delivered ==> #[trigger] receiver(
                outcomes,
                older,
            ) < #[trigger] receiver(outcomes, newer),
    decreases outcomes.len(),
{
    if items == 0 || waiters == 0 || outcomes.len() == 0 {
    } else {
        let taken: nat = if outcomes[0] {
            1
        } else {
            0
        };
        let rest = outcomes.skip(1);
        let h = handoff(items, waiters, outcomes);
        let inner = handoff((items - taken) as nat, (waiters - 1) as nat, rest);
        lemma_handoff_in_order((items - taken) as nat, (waiters - 1) as nat, rest);
        lemma_handoff_bounds((items - taken) as nat, (waiters - 1) as nat, rest);
        assert(h.delivered == inner.delivered + taken && h.consumed == inner.consumed + 1);
        assert forall|item: nat| item < h.delivered implies 0 <= #[trigger] receiver(
            outcomes,
            item,
        ) < h.consumed && outcomes[receiver(outcomes, item)] by {
            if outcomes[0] {
                if item > 0 {
                    let below = (item - 1) as nat;
                    let place = receiver(rest, below);
                    assert(0 <= place < inner.consumed && rest[place]);
                    assert(receiver(outcomes, item) == 1 + place);
                    assert(rest[place] == outcomes[place + 1]);
                } else {
                    assert(receiver(outcomes, item) == 0);
                }
            } else {
                let place = receiver(rest, item);
                assert(0 <= place < inner.consumed && rest[place]);
                assert(receiver(outcomes, item) == 1 + place);
                assert(rest[place] == outcomes[place + 1]);
            }
        }
        assert forall|older: nat, newer: nat| older < newer < h.delivered implies #[trigger] receiver(
            outcomes,
            older,
        ) < #[trigger] receiver(outcomes, newer) by {
            if outcomes[0] {
                let below = (newer - 1) as nat;
                assert(0 <= receiver(rest, below) < inner.consumed);
                if older > 0 {
                    assert(receiver(rest, (older - 1) as nat) < receiver(rest, below));
                }
            } else {
                assert(receiver(rest, older) < receiver(rest, newer));
            }
        }
    }
}

/// Whatever a command does to a keyspace whose lists are at rest, its lists are at rest
/// afterwards.
pub proof fn lemma_at_rest_kept(
    request: Request,
    before: Map<Seq<u8>, EntryView>,
    after: Map<Seq<u8>, EntryView>,
    response: Response,
)
    requires
        at_rest(before),
        request.applies(before, after, &response),
    ensures
        at_rest(after),
{
    assert forall|key: Seq<u8>| after.contains_key(key) && after[key] is List implies (
    #[trigger] after[key]).list().settled() by {
        if before.contains_key(key) && before[key] is List {
            assert(before[key].list().settled());
        }
    }
}

/// Whatever the commands of a session do to the empty keyspace, its lists are at rest after
/// each of them.
pub proof fn lemma_session_at_rest(
    requests: Seq<Request>,
    after: Map<Seq<u8>, EntryView>,
    replies: Seq<ReplyView>,
)
    requires
        answers(Map::empty(), requests, after, replies),
    ensures
        at_rest(after),
{
    lemma_answers_at_rest(Map::empty(), requests, after, replies);
}

/// The same, from any keyspace whose lists are at rest.
pub proof fn lemma_answers_at_rest(
    before: Map<Seq<u8>, EntryView>,
    requests: Seq<Request>,
    after: Map<Seq<u8>, EntryView>,
    replies: Seq<ReplyView>,
)
    requires
        at_rest(before),
        answers(before, requests, after, replies),
    ensures
        at_rest(after),
    decreases requests.len(),
{
    if requests.len() > 0 {
        let (middle, response) = choose|middle: Map<Seq<u8>, EntryView>, response: Response|
            {
                &&& answers(before, requests.drop_last(), middle, replies.drop_last())
                &&& #[trigger] requests.last().applies(middle, after, &response)
                &&& replies.last() == response.rendered()
            };
        lemma_answers_at_rest(before, requests.drop_last(), middle, replies.drop_last());
        lemma_at_rest_kept(requests.last(), middle, after, response);
    }
}

/// On a keyspace where no client waits, what a command other than a blocking pop leaves and
/// what it replies are fixed by the keyspace and the command; and still no client waits.
pub proof fn lemma_applies_determined(
    request: Request,
    before: Map<Seq<u8>, EntryView>,
    after: Map<Seq<u8>, EntryView>,
    response: Response,
    other_after: Map<Seq<u8>, EntryView>,
    other_response: Response,
)
    requires
        quiet(before),
        !(request is BLPop),
        request.applies(before, after, &response),
        request.applies(before, other_after, &other_response),
    ensures
        after == other_after,
        response.rendered() == other_response.rendered(),
        quiet(after),
{
    match request {
        Request::RPush(push) => {
            if free_for_push(before, push.key@) {
                lemma_push_without_waiters(before, push.key@, views(push.values@), false, after);
                lemma_push_without_waiters(
                    before,
                    push.key@,
                    views(push.values@),
                    false,
                    other_after,
                );
            }
        },
        Request::LPush(push) => {
            if free_for_push(before, push.key@) {
                lemma_push_without_waiters(before, push.key@, views(push.values@), true, after);
                lemma_push_without_waiters(
                    before,
                    push.key@,
                    views(push.values@),
                    true,
                    other_after,
                );
            }
        },
        Request::LPop(pop) => {
            if before.contains_key(pop.key@) {
                assert(before[pop.key@] is List ==> before[pop.key@].list().waiters.len() == 0);
            }
        },
        Request::LRange(range) => {
            if !before.contains_key(range.key@) {
                assert(views(response->LRange_0.subslice->Ok_0@) =~= views(
                    other_response->LRange_0.subslice->Ok_0@,
                ));
            }
        },
        _ => {},
    }
    assert forall|key: Seq<u8>| after.contains_key(key) && after[key] is List implies (
    #[trigger] after[key]).list().waiters.len() == 0 by {
        if before.contains_key(key) && before[key] is List {
            assert(before[key].list().waiters.len() == 0);
        }
    }
}

/// The replies to a sequence of commands without blocking pops, applied in order to the
/// empty keyspace, are fixed by the commands: whatever run gives replies gives the same.
pub proof fn lemma_replies_determined(
    requests: Seq<Request>,
    after: Map<Seq<u8>, EntryView>,
    replies: Seq<ReplyView>,
    other_after: Map<Seq<u8>, EntryView>,
    other_replies: Seq<ReplyView>,
)
    requires
        forall|i: int| 0 <= i < requests.len() ==> !(#[trigger] requests[i] is BLPop),
        answers(Map::empty(), requests, after, replies),
        answers(Map::empty(), requests, other_after, other_replies),
    ensures
        after == other_after,
        replies == other_replies,
{
    lemma_answers_determined(Map::empty(), requests, after, replies, other_after, other_replies);
}

/// The same, from any keyspace where no client waits.
pub proof fn lemma_answers_determined(
    before: Map<Seq<u8>, EntryView>,
    requests: Seq<Request>,
    after: Map<Seq<u8>, EntryView>,
    replies: Seq<ReplyView>,
    other_after: Map<Seq<u8>, EntryView>,
    other_replies: Seq<ReplyView>,
)
    requires
        quiet(before),
        forall|i: int| 0 <= i < requests.len() ==> !(#[trigger] requests[i] is BLPop),
        answers(before, requests, after, replies),
        answers(before, requests, other_after, other_replies),
    ensures
        after == other_after,
        replies == other_replies,
        quiet(after),
    decreases requests.len(),
{
    if requests.len() == 0 {
        assert(replies =~= other_replies);
    } else {
        let (middle, response) = choose|middle: Map<Seq<u8>, EntryView>, response: Response|
            {
                &&& answers(before, requests.drop_last(), middle, replies.drop_last())
                &&& #[trigger] requests.last().applies(middle, after, &response)
                &&& replies.last() == response.rendered()
            };
        let (other_middle, other_response) = choose|
            middle: Map<Seq<u8>, EntryView>,
            response: Response,
        |
            {
                &&& answers(before, requests.drop_last(), middle, other_replies.drop_last())
                &&& #[trigger] requests.last().applies(middle, other_after, &response)
                &&& other_replies.last() == response.rendered()
            };
        assert forall|i: int| 0 <= i < requests.drop_last().len() implies !(
        #[trigger] requests.drop_last()[i] is BLPop) by {
            assert(requests.drop_last()[i] == requests[i]);
        }
        lemma_answers_determined(
            before,
            requests.drop_last(),
            middle,
            replies.drop_last(),
            other_middle,
            other_replies.drop_last(),
        );
        assert(!(requests[requests.len() - 1] is BLPop));
        lemma_applies_determined(
            requests.last(),
            middle,
            after,
            response,
            other_after,
            other_response,
        );
        assert(replies =~= replies.drop_last().push(replies.last()));
        assert(other_replies =~= other_replies.drop_last().push(other_replies.last()));
    }
}

/// The items of the list under `key`; none where the key holds nothing.
pub open spec fn items_at(store: Map<Seq<u8>, EntryView>, key: Seq<u8>) -> Seq<Seq<u8>> {
    if store.contains_key(key) {
        store[key].list().items
    } else {
        Seq::empty()
    }
}

/// Whether the key `key` holds nothing, or a list on which no client waits.
pub open spec fn free_for_push(store: Map<Seq<u8>, EntryView>, key: Seq<u8>) -> bool {
    store.contains_key(key) ==> store[key] is List && store[key].list().waiters.len() == 0
}

/// A push onto a key that holds nothing, or a list on which no client waits, has one
/// outcome: all the values are in the list afterwards.
pub proof fn lemma_push_without_waiters(
    before: Map<Seq<u8>, EntryView>,
    key: Seq<u8>,
    values: Seq<Seq<u8>>,
    at_front: bool,
    after: Map<Seq<u8>, EntryView>,
)
    requires
        free_for_push(before, key),
        exists|length: Result<usize, StoreError>|
            pushed(before, key, values, at_front, after, length),
    ensures
        after == before.insert(
            key,
            EntryView::List(
                ListView {
                    items: if at_front {
                        values + items_at(before, key)
                    } else {
                        items_at(before, key) + values
                    },
                    waiters: Seq::empty(),
                    expiry: if before.contains_key(key) {
                        before[key].list().expiry
                    } else {
                        None
                    },
                },
            ),
        ),
{
    if before.contains_key(key) {
        let list = before[key].list();
        let joined = list.with_items(
            if at_front {
                values + list.items
            } else {
                list.items + values
            },
        );
        lemma_hands_off_settled(joined, after[key].list());
        assert(list.waiters =~= Seq::empty());
    } else {
        assert(values + Seq::<Seq<u8>>::empty() =~= values);
        assert(Seq::<Seq<u8>>::empty() + values =~= values);
    }
}

/// The range from 0 to -1 is the whole list.
pub proof fn lemma_whole_range(items: Seq<Seq<u8>>)
    ensures
        range(items, 0, -1) == items,
{
    assert(range(items, 0, -1) =~= items);
}

/// `LPUSH`, followed by `LRANGE 0 -1`, gives the pushed values in the reverse of the order
/// of the arguments, and behind them what the list held. This is so where the key held
/// nothing, or a list on which no client waited.
pub proof fn lemma_lpush_then_lrange(
    arguments: Seq<Seq<u8>>,
    now: u64,
    push: LPushRequest,
    before: Map<Seq<u8>, EntryView>,
    middle: Map<Seq<u8>, EntryView>,
    length: LPushResponse,
    whole: LRangeRequest,
    after: Map<Seq<u8>, EntryView>,
    values: LRangeResponse,
)
    requires
        LPushRequest::built(arguments, now, Ok(push)),
        free_for_push(before, push.key@),
        push.applies(before, middle, &length),
        whole.key@ == push.key@,
        whole.start == 0,
        whole.end == -1,
        whole.applies(middle, after, &values),
    ensures
        values.subslice is Ok,
        views(values.subslice->Ok_0@) == arguments.skip(1).reverse() + items_at(
            before,
            push.key@,
        ),
{
    lemma_whole_range(views(push.values@) + items_at(before, push.key@));
    lemma_push_without_waiters(before, push.key@, views(push.values@), true, middle);
}

/// `RPUSH`, followed by `LRANGE 0 -1`, gives what the list held and behind it the pushed
/// values in their order: the pushed values alone where the key held nothing. This is so
/// where the key held nothing, or a list on which no client waited.
pub proof fn lemma_rpush_then_lrange(
    push: RPushRequest,
    before: Map<Seq<u8>, EntryView>,
    middle: Map<Seq<u8>, EntryView>,
    length: RPushResult,
    whole: LRangeRequest,
    after: Map<Seq<u8>, EntryView>,
    values: LRangeResponse,
)
    requires
        free_for_push(before, push.key@),
        push.applies(before, middle, &length),
        whole.key@ == push.key@,
        whole.start == 0,
        whole.end == -1,
        whole.applies(middle, after, &values),
    ensures
        values.subslice is Ok,
        views(values.subslice->Ok_0@) == items_at(before, push.key@) + views(push.values@),
        !before.contains_key(push.key@) ==> views(values.subslice->Ok_0@) == views(
            push.values@,
        ),
{
    lemma_whole_range(items_at(before, push.key@) + views(push.values@));
    lemma_push_without_waiters(before, push.key@, views(push.values@), false, middle);
    assert(Seq::<Seq<u8>>::empty() + views(push.values@) =~= views(push.values@));
}

/// A `GET` later than the expiry that a `SET` with `PX` gave a key finds nothing, replies
/// with the null bulk string, and leaves the key without entry.
pub proof fn lemma_set_px_then_get(
    arguments: Seq<Seq<u8>>,
    now: u64,
    set: SetCommandRequest,
    before: Map<Seq<u8>, EntryView>,
    middle: Map<Seq<u8>, EntryView>,
    stored: SetCommandResponse,
    get: GetCommandRequest,
    after: Map<Seq<u8>, EntryView>,
    found: GetCommandResponse,
)
    requires
        arguments.len() == 4,
        SetCommandRequest::built(arguments, now, Ok(set)),
        set.applies(before, middle, &stored),
        get.key@ == set.key@,
        get.current_time > now + spelled_u64(arguments[3])->0,
        get.applies(middle, after, &found),
    ensures
        found.value is None,
        found.rendered() == ReplyView::Immediate(nil_reply()),
        !after.contains_key(set.key@),
{
}

/// An `LPOP` with a count that is at least the length of the list leaves the list empty, and
/// still under its key.
pub proof fn lemma_lpop_all(
    pop: LPopRequest,
    before: Map<Seq<u8>, EntryView>,
    after: Map<Seq<u8>, EntryView>,
    popped: LPopResponse,
)
    requires
        before.contains_key(pop.key@),
        before[pop.key@] is List,
        pop.amount is Some,
        pop.amount->0 >= before[pop.key@].list().items.len(),
        pop.applies(before, after, &popped),
    ensures
        after.contains_key(pop.key@),
        after[pop.key@] is List,
        after[pop.key@].list().items.len() == 0,
        views(popped.response->Ok_0->Many_0@) == before[pop.key@].list().items,
{
}

} // verus!
