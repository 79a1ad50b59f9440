//! The mathematical model of the keyspace: what an entry holds, and how a list hands
//! items to the clients that wait for them.

use tokio::sync::oneshot::Sender;
use vstd::prelude::*;

verus! {

/// The views of the elements of `s`, in order.
pub open spec fn views<T: View>(s: Seq<T>) -> Seq<T::V> {
    Seq::new(s.len(), |i: int| s[i]@)
}

/// A string value with its optional absolute expiry, in milliseconds since the epoch.
pub struct StringView {
    pub value: Seq<u8>,
    pub expiry: Option<u128>,
}

/// A list: its items from head to tail, and the queue of waiting consumers, oldest first.
pub struct ListView {
    pub items: Seq<Seq<u8>>,
    pub waiters: Seq<Sender<Vec<u8>>>,
    pub expiry: Option<u128>,
}

/// What a key holds: a string or a list.
pub enum EntryView {
    String(StringView),
    List(ListView),
}

impl EntryView {
    /// The list that a list entry holds.
    pub open spec fn list(self) -> ListView {
        self->List_0
    }

    /// The string that a string entry holds.
    pub open spec fn string(self) -> StringView {
        self->String_0
    }

    /// A string is always at rest; a list where it holds no item while a consumer waits.
    pub open spec fn settled(self) -> bool {
        self is List ==> self.list().settled()
    }

    /// The expiry of the entry, of either kind.
    pub open spec fn expiry(self) -> Option<u128> {
        match self {
            EntryView::String(entry) => entry.expiry,
            EntryView::List(entry) => entry.expiry,
        }
    }
}

/// What one hand-off did: `delivered` items left the head of the list, each for one waiter,
/// and `consumed` waiters left the head of the queue.
pub struct Handoff {
    pub delivered: nat,
    pub consumed: nat,
}

/// The hand-off between `items` items and `waiters` waiters, where `outcomes[i]` tells whether
/// the consumer behind the `i`-th oldest waiter was still there when it was tried.
///
/// While there is an item and a waiter, the oldest waiter leaves the queue and is offered the
/// head item; the item leaves the list if the offer was taken.
pub open spec fn handoff(items: nat, waiters: nat, outcomes: Seq<bool>) -> Handoff
    decreases outcomes.len(),
{
    if items == 0 || waiters == 0 || outcomes.len() == 0 {
        Handoff { delivered: 0, consumed: 0 }
    } else {
        let taken: nat = if outcomes[0] {
            1
        } else {
            0
        };
        let rest = handoff((items - taken) as nat, (waiters - 1) as nat, outcomes.skip(1));
        Handoff { delivered: rest.delivered + taken, consumed: rest.consumed + 1 }
    }
}

/// The waiter, by its place in the queue, that received the item at place `item` of the list:
/// the place of the `item`-th success in `outcomes`.
pub open spec fn receiver(outcomes: Seq<bool>, item: nat) -> int
    decreases outcomes.len(),
{
    if outcomes.len() == 0 {
        0
    } else if outcomes[0] {
        if item == 0 {
            0
        } else {
            1 + receiver(outcomes.skip(1), (item - 1) as nat)
        }
    } else {
        1 + receiver(outcomes.skip(1), item)
    }
}

impl ListView {
    /// A list is at rest when no item is left behind while a consumer waits.
    pub open spec fn settled(self) -> bool {
        self.items.len() == 0 || self.waiters.len() == 0
    }

    /// The list after the hand-off that `outcomes` describes.
    pub open spec fn hand_off(self, outcomes: Seq<bool>) -> ListView {
        let h = handoff(self.items.len(), self.waiters.len(), outcomes);
        ListView {
            items: self.items.skip(h.delivered as int),
            waiters: self.waiters.skip(h.consumed as int),
            expiry: self.expiry,
        }
    }

    /// `after` is `self` after a hand-off that ran until the list was at rest.
    pub open spec fn hands_off_to(self, after: ListView) -> bool {
        exists|outcomes: Seq<bool>| #[trigger] self.hand_off(outcomes) == after && after.settled()
    }

    /// The list with `items` in place of its items.
    pub open spec fn with_items(self, items: Seq<Seq<u8>>) -> ListView {
        ListView { items, waiters: self.waiters, expiry: self.expiry }
    }

    /// The list with `waiters` in place of its waiters.
    pub open spec fn with_waiters(self, waiters: Seq<Sender<Vec<u8>>>) -> ListView {
        ListView { items: self.items, waiters, expiry: self.expiry }
    }
}

/// A signed index counted from the tail when negative, brought into `0..`.
pub open spec fn normalize(index: int, len: nat) -> int {
    if index < 0 {
        if len + index < 0 {
            0
        } else {
            len + index
        }
    } else {
        index
    }
}

/// The items from `start` to `end`, both included, after both were normalized and `end` was
/// clamped to the last place.
pub open spec fn range(items: Seq<Seq<u8>>, start: int, end: int) -> Seq<Seq<u8>> {
    let first = normalize(start, items.len());
    let last = if normalize(end, items.len()) >= items.len() {
        items.len() - 1
    } else {
        normalize(end, items.len())
    };
    if items.len() == 0 || first > last {
        Seq::empty()
    } else {
        items.subrange(first, last + 1)
    }
}

/// The first `min(count, len)` items.
pub open spec fn front(items: Seq<Seq<u8>>, count: nat) -> Seq<Seq<u8>> {
    if count <= items.len() {
        items.take(count as int)
    } else {
        items
    }
}

/// What is left once the first `min(count, len)` items are gone.
pub open spec fn after_front(items: Seq<Seq<u8>>, count: nat) -> Seq<Seq<u8>> {
    if count <= items.len() {
        items.skip(count as int)
    } else {
        Seq::empty()
    }
}

/// A hand-off takes no more items than waiters, and neither more than there are.
pub proof fn lemma_handoff_bounds(items: nat, waiters: nat, outcomes: Seq<bool>)
    ensures
        handoff(items, waiters, outcomes).delivered <= items,
        handoff(items, waiters, outcomes).delivered <= handoff(items, waiters, outcomes).consumed,
        handoff(items, waiters, outcomes).consumed <= waiters,
        handoff(items, waiters, outcomes).consumed <= outcomes.len(),
        items == 0 || waiters == 0 ==> handoff(items, waiters, outcomes) == (Handoff {
            delivered: 0,
            consumed: 0,
        }),
    decreases outcomes.len(),
{
    if items == 0 || waiters == 0 || outcomes.len() == 0 {
    } else {
        let taken: nat = if outcomes[0] {
            1
        } else {
            0
        };
        lemma_handoff_bounds((items - taken) as nat, (waiters - 1) as nat, outcomes.skip(1));
    }
}

/// One more attempt after a hand-off that used all its outcomes and left both an item and a
/// waiter.
pub proof fn lemma_handoff_extend(items: nat, waiters: nat, outcomes: Seq<bool>, next: bool)
    requires
        handoff(items, waiters, outcomes).consumed == outcomes.len(),
        handoff(items, waiters, outcomes).delivered < items,
        handoff(items, waiters, outcomes).consumed < waiters,
    ensures
        handoff(items, waiters, outcomes.push(next)).consumed == outcomes.len() + 1,
        handoff(items, waiters, outcomes.push(next)).delivered == handoff(
            items,
            waiters,
            outcomes,
        ).delivered + (if next {
            1nat
        } else {
            0nat
        }),
    decreases outcomes.len(),
{
    let longer = outcomes.push(next);
    if outcomes.len() == 0 {
        let taken: nat = if next {
            1
        } else {
            0
        };
        assert(longer.skip(1) =~= Seq::<bool>::empty());
        assert(handoff((items - taken) as nat, (waiters - 1) as nat, longer.skip(1)) == (Handoff {
            delivered: 0,
            consumed: 0,
        }));
    } else {
        let taken: nat = if outcomes[0] {
            1
        } else {
            0
        };
        assert(longer.skip(1) =~= outcomes.skip(1).push(next));
        assert(longer[0] == outcomes[0]);
        lemma_handoff_extend(
            (items - taken) as nat,
            (waiters - 1) as nat,
            outcomes.skip(1),
            next,
        );
    }
}

/// A list without waiters, or without items, is left as it is by any hand-off.
pub proof fn lemma_hand_off_settled(list: ListView, outcomes: Seq<bool>)
    requires
        list.settled(),
    ensures
        list.hand_off(outcomes) == list,
{
    lemma_handoff_bounds(list.items.len(), list.waiters.len(), outcomes);
    assert(list.items.skip(0) =~= list.items);
    assert(list.waiters.skip(0) =~= list.waiters);
}

/// A list that is at rest hands nothing off.
pub proof fn lemma_hands_off_settled(list: ListView, after: ListView)
    requires
        list.hands_off_to(after),
    ensures
        list.settled() ==> after == list,
{
    if list.settled() {
        let outcomes = choose|outcomes: Seq<bool>| #[trigger]
            list.hand_off(outcomes) == after && after.settled();
        lemma_hand_off_settled(list, outcomes);
    }
}

} // verus!
