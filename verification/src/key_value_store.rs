//! The keyspace and its entries.

use crate::ascii::bytes_eq;
use crate::model::{
    after_front, front, handoff, lemma_handoff_bounds, lemma_handoff_extend,
    lemma_hands_off_settled, normalize, range, views, EntryView, ListView, StringView,
};
use std::collections::VecDeque;
use tokio::sync::oneshot::{Receiver, Sender};
use vstd::prelude::*;
use vstd::slice::slice_subrange;

verus! {

/// Why an entry could not serve an operation.
#[derive(Clone, Copy, Debug, PartialEq, Eq, Structural)]
pub enum StoreError {
    /// No entry under the key, or nothing left in it.
    NotFound,
    /// The entry under the key is of the other kind.
    WrongKind,
}

impl StoreError {
    /// What the error says.
    pub open spec fn text(self) -> Seq<char> {
        match self {
            StoreError::NotFound => "key not found"@,
            StoreError::WrongKind => "wrong kind for this operation"@,
        }
    }

    /// The error in words.
    pub fn message(&self) -> (text: &'static str)
        ensures
            text@ == self.text(),
    {
        match self {
            StoreError::NotFound => "key not found",
            StoreError::WrongKind => "wrong kind for this operation",
        }
    }
}

/// A string value, with the time at which it stops to count, if any.
#[derive(Debug)]
pub struct KeyValueStoreStringEntry {
    pub value: Vec<u8>,
    pub expiry: Option<u128>,
}

impl View for KeyValueStoreStringEntry {
    type V = StringView;

    open spec fn view(&self) -> StringView {
        StringView { value: self.value@, expiry: self.expiry }
    }
}

impl KeyValueStoreStringEntry {
    /// The bytes of the string.
    pub fn get_value(&self) -> (value: &Vec<u8>)
        ensures
            value@ == self@.value,
    {
        &self.value
    }

    /// The time, in milliseconds since the epoch, after which the string no longer counts.
    pub fn get_expiry(&self) -> (expiry: &Option<u128>)
        ensures
            *expiry == self@.expiry,
    {
        &self.expiry
    }
}

/// The values of a list, and the sending halves of the channels on which clients wait for a
/// value, oldest first.
#[derive(Debug)]
struct Queues {
    list: Vec<Vec<u8>>,
    blpop_waiting_channels: VecDeque<Sender<Vec<u8>>>,
}

impl Queues {
    /// The values, from head to tail.
    spec fn items(self) -> Seq<Seq<u8>> {
        views(self.list@)
    }

    /// The list that the values and the waiters make up, with the expiry `expiry`.
    spec fn model(self, expiry: Option<u128>) -> ListView {
        ListView { items: self.items(), waiters: self.blpop_waiting_channels@, expiry }
    }

    /// No value and no waiter.
    fn new() -> (queues: Self)
        ensures
            queues.items() == Seq::<Seq<u8>>::empty(),
            queues.blpop_waiting_channels@ == Seq::<Sender<Vec<u8>>>::empty(),
    {
        let queues = Queues { list: Vec::new(), blpop_waiting_channels: VecDeque::new() };
        assert(queues.items() =~= Seq::empty());
        queues
    }

    /// Hands items to waiting clients, oldest waiter and head item first, until the items or
    /// the waiters are used up. An item leaves the list only once a client has taken it.
    fn check_for_blpop_waiters(&mut self, Ghost(expiry): Ghost<Option<u128>>)
        ensures
            old(self).model(expiry).hands_off_to(final(self).model(expiry)),
    {
        let ghost before = self.model(expiry);
        let ghost mut outcomes: Seq<bool> = Seq::empty();
        proof {
            assert(before.items.skip(0) =~= before.items);
            assert(before.waiters.skip(0) =~= before.waiters);
        }
        while !self.list.is_empty()
            invariant_except_break
                handoff(before.items.len(), before.waiters.len(), outcomes).consumed
                    == outcomes.len(),
                self.model(expiry) == before.hand_off(outcomes),
            ensures
                self.model(expiry) == before.hand_off(outcomes),
                self.model(expiry).settled(),
            decreases self.blpop_waiting_channels@.len(),
        {
            proof {
                lemma_handoff_bounds(before.items.len(), before.waiters.len(), outcomes);
                assert(self.items().len() == self.list@.len());
            }
            match self.blpop_waiting_channels.pop_front() {
                Some(tx) => {
                    let offered = self.list[0].clone();
                    let taken = tx.send(offered).is_ok();
                    let ghost items_now = self.items();
                    if taken {
                        let _ = self.list.remove(0);
                        assert(self.items() =~= items_now.skip(1));
                    }
                    proof {
                        lemma_handoff_extend(
                            before.items.len(),
                            before.waiters.len(),
                            outcomes,
                            taken,
                        );
                        outcomes = outcomes.push(taken);
                        let h = handoff(before.items.len(), before.waiters.len(), outcomes);
                        assert(self.blpop_waiting_channels@ =~= before.waiters.skip(
                            h.consumed as int,
                        ));
                        assert(self.items() =~= before.items.skip(h.delivered as int));
                    }
                },
                None => {
                    break ;
                },
            }
        }
    }
}

/// A list of values, with the queue of clients that wait for one. At rest, which it is
/// between any two operations, the list holds no value while a client waits.
#[derive(Debug)]
pub struct KeyValueStoreListEntry {
    queues: Queues,
    expiry: Option<u128>,
}

impl View for KeyValueStoreListEntry {
    type V = ListView;

    closed spec fn view(&self) -> ListView {
        self.queues.model(self.expiry)
    }
}

impl KeyValueStoreListEntry {
    /// No value is left in the list while a client waits.
    #[verifier::type_invariant]
    spec fn at_rest(self) -> bool {
        self.queues.model(self.expiry).settled()
    }

    /// An empty list on which nobody waits.
    pub fn new() -> (entry: Self)
        ensures
            entry@ == (ListView { items: Seq::empty(), waiters: Seq::empty(), expiry: None }),
            entry@.settled(),
    {
        KeyValueStoreListEntry { queues: Queues::new(), expiry: None }
    }

    /// An empty list on which nobody waits, with an expiry. No command reads the expiry of
    /// a list.
    pub fn _new_with_expiry(expiry: Option<u128>) -> (entry: Self)
        ensures
            entry@ == (ListView { items: Seq::empty(), waiters: Seq::empty(), expiry }),
            entry@.settled(),
    {
        KeyValueStoreListEntry { queues: Queues::new(), expiry }
    }

    /// Takes the values and the waiters out, and leaves the entry empty.
    fn take(&mut self) -> (queues: Queues)
        ensures
            queues.model(old(self).expiry) == old(self)@,
            old(self)@.settled(),
            final(self).expiry == old(self).expiry,
    {
        proof {
            use_type_invariant(&*self);
        }
        let mut queues = Queues::new();
        std::mem::swap(&mut self.queues, &mut queues);
        queues
    }

    /// Whether the list is at rest, which it always is.
    pub fn is_at_rest(&self) -> (at_rest: bool)
        ensures
            at_rest,
            self@.settled(),
    {
        proof {
            use_type_invariant(self);
        }
        self.queues.list.is_empty() || self.queues.blpop_waiting_channels.len() == 0
    }

    /// The expiry that the list was made with.
    pub fn get_expiry(&self) -> (expiry: &Option<u128>)
        ensures
            *expiry == self@.expiry,
    {
        &self.expiry
    }

    /// Appends one value, and returns the length the list has before any value is handed on.
    pub fn _push(&mut self, value: Vec<u8>) -> (length: usize)
        ensures
            length == old(self)@.items.len() + 1,
            old(self)@.with_items(old(self)@.items.push(value@)).hands_off_to(final(self)@),
            old(self)@.waiters.len() == 0 ==> final(self)@ == old(self)@.with_items(
                old(self)@.items.push(value@),
            ),
            final(self)@.settled(),
    {
        let mut queues = self.take();
        queues.list.push(value);
        let length: usize = queues.list.len();
        assert(queues.items() =~= old(self)@.items.push(value@));
        let ghost joined = queues.model(self.expiry);
        queues.check_for_blpop_waiters(Ghost(self.expiry));
        proof {
            lemma_hands_off_settled(joined, queues.model(self.expiry));
        }
        self.queues = queues;
        length
    }

    /// Appends `other` in order, leaving it empty, and returns the length the list has before
    /// any value is handed on.
    pub fn append(&mut self, other: &mut Vec<Vec<u8>>) -> (length: usize)
        ensures
            length == old(self)@.items.len() + old(other)@.len(),
            old(self)@.with_items(old(self)@.items + views(old(other)@)).hands_off_to(
                final(self)@,
            ),
            old(self)@.waiters.len() == 0 ==> final(self)@ == old(self)@.with_items(
                old(self)@.items + views(old(other)@),
            ),
            final(other)@.len() == 0,
            final(self)@.settled(),
    {
        let mut queues = self.take();
        queues.list.append(other);
        let length: usize = queues.list.len();
        assert(queues.items() =~= old(self)@.items + views(old(other)@));
        let ghost joined = queues.model(self.expiry);
        queues.check_for_blpop_waiters(Ghost(self.expiry));
        proof {
            lemma_hands_off_settled(joined, queues.model(self.expiry));
        }
        self.queues = queues;
        length
    }

    /// Puts `other` in front of the list, in order, and returns the length the list has before
    /// any value is handed on.
    pub fn prepend(&mut self, other: Vec<Vec<u8>>) -> (length: usize)
        ensures
            length == old(self)@.items.len() + other@.len(),
            old(self)@.with_items(views(other@) + old(self)@.items).hands_off_to(final(self)@),
            old(self)@.waiters.len() == 0 ==> final(self)@ == old(self)@.with_items(
                views(other@) + old(self)@.items,
            ),
            final(self)@.settled(),
    {
        let ghost front = views(other@);
        let mut queues = self.take();
        let mut other = other;
        other.append(&mut queues.list);
        queues.list = other;
        let length: usize = queues.list.len();
        assert(queues.items() =~= front + old(self)@.items);
        let ghost joined = queues.model(self.expiry);
        queues.check_for_blpop_waiters(Ghost(self.expiry));
        proof {
            lemma_hands_off_settled(joined, queues.model(self.expiry));
        }
        self.queues = queues;
        length
    }

    /// Removes and returns the head, if there is one.
    pub fn pop_front(&mut self) -> (head: Option<Vec<u8>>)
        ensures
            match head {
                Some(value) => old(self)@.items.len() > 0 && value@ == old(self)@.items[0]
                    && final(self)@ == old(self)@.with_items(old(self)@.items.skip(1)),
                None => old(self)@.items.len() == 0 && final(self)@ == old(self)@,
            },
            final(self)@.settled(),
    {
        let mut queues = self.take();
        let head = if queues.list.is_empty() {
            None
        } else {
            let value = queues.list.remove(0);
            assert(queues.items() =~= old(self)@.items.skip(1));
            Some(value)
        };
        self.queues = queues;
        head
    }

    /// Removes the first `min(amount, len)` values and returns them in order.
    pub fn pop_front_amount(&mut self, amount: usize) -> (popped: Vec<Vec<u8>>)
        ensures
            views(popped@) == front(old(self)@.items, amount as nat),
            final(self)@ == old(self)@.with_items(after_front(old(self)@.items, amount as nat)),
            final(self)@.settled(),
    {
        let mut queues = self.take();
        let count: usize = if amount < queues.list.len() {
            amount
        } else {
            queues.list.len()
        };
        assert(old(self)@.items.len() == queues.list@.len());
        let mut popped = queues.list.split_off(count);
        std::mem::swap(&mut queues.list, &mut popped);
        assert(views(popped@) =~= front(old(self)@.items, amount as nat));
        assert(queues.items() =~= after_front(old(self)@.items, amount as nat));
        self.queues = queues;
        popped
    }

    /// The values from `start` to `end`, both included; a negative index counts from the tail.
    pub fn get_subslice(&self, start: isize, end: isize) -> (subslice: &[Vec<u8>])
        ensures
            views(subslice@) == range(self@.items, start as int, end as int),
    {
        let list_length: usize = self.queues.list.len();
        let start: usize = normalize_index(start, list_length);
        let mut end: usize = normalize_index(end, list_length);
        if list_length == 0 {
            let nothing = slice_subrange(self.queues.list.as_slice(), 0, 0);
            assert(views(nothing@) =~= Seq::<Seq<u8>>::empty());
            return nothing;
        }
        if list_length <= end {
            end = list_length - 1;
        }
        if start > end {
            let nothing = slice_subrange(self.queues.list.as_slice(), 0, 0);
            assert(views(nothing@) =~= Seq::<Seq<u8>>::empty());
            return nothing;
        }
        let subslice = slice_subrange(self.queues.list.as_slice(), start, end + 1);
        assert(views(subslice@) =~= self@.items.subrange(start as int, end + 1));
        subslice
    }

    /// How many values the list holds.
    pub fn len(&self) -> (length: usize)
        ensures
            length == self@.items.len(),
    {
        self.queues.list.len()
    }

    /// Queues a new waiter behind the others and hands it, or an older one, the head item if
    /// there is one. The returned half receives the value.
    pub fn generate_blpop_waiter(&mut self) -> (rx: Receiver<Vec<u8>>)
        ensures
            exists|tx: Sender<Vec<u8>>|
                (#[trigger] old(self)@.with_waiters(old(self)@.waiters.push(tx))).hands_off_to(
                    final(self)@,
                ),
            final(self)@.settled(),
    {
        let mut queues = self.take();
        let (tx, rx): (Sender<Vec<u8>>, Receiver<Vec<u8>>) = tokio::sync::oneshot::channel();
        queues.blpop_waiting_channels.push_back(tx);
        let ghost joined = queues.model(self.expiry);
        assert(joined == old(self)@.with_waiters(old(self)@.waiters.push(tx)));
        queues.check_for_blpop_waiters(Ghost(self.expiry));
        self.queues = queues;
        rx
    }
}

/// What the keyspace holds under a key: a string or a list.
#[derive(Debug)]
pub enum KeyValueStoreEntry {
    String(KeyValueStoreStringEntry),
    List(KeyValueStoreListEntry),
}

impl View for KeyValueStoreEntry {
    type V = EntryView;

    open spec fn view(&self) -> EntryView {
        match self {
            KeyValueStoreEntry::String(entry) => EntryView::String(entry@),
            KeyValueStoreEntry::List(entry) => EntryView::List(entry@),
        }
    }
}

impl KeyValueStoreEntry {
    /// Whether the entry is at rest, which it always is.
    pub fn is_at_rest(&self) -> (at_rest: bool)
        ensures
            at_rest,
            self@.settled(),
    {
        match self {
            KeyValueStoreEntry::String(_) => true,
            KeyValueStoreEntry::List(entry) => entry.is_at_rest(),
        }
    }

    /// The value of a string entry.
    pub fn get_value(&self) -> (value: Result<&Vec<u8>, StoreError>)
        ensures
            match value {
                Ok(bytes) => self@ matches EntryView::String(entry) && bytes@ == entry.value,
                Err(error) => self@ is List && error == StoreError::WrongKind,
            },
    {
        match self {
            KeyValueStoreEntry::String(entry) => Ok(entry.get_value()),
            KeyValueStoreEntry::List(_) => Err(StoreError::WrongKind),
        }
    }

    /// The expiry of the entry, of either kind.
    pub fn get_expiry(&self) -> (expiry: &Option<u128>)
        ensures
            *expiry == self@.expiry(),
    {
        match self {
            KeyValueStoreEntry::String(entry) => entry.get_expiry(),
            KeyValueStoreEntry::List(entry) => entry.get_expiry(),
        }
    }

    /// Appends one value to a list; see [`KeyValueStoreListEntry::_push`].
    pub fn _push(&mut self, value: Vec<u8>) -> (length: Result<usize, StoreError>)
        ensures
            match length {
                Ok(n) => {
                    &&& old(self)@ is List
                    &&& final(self)@ is List
                    &&& n == old(self)@.list().items.len() + 1
                    &&& old(self)@.list().with_items(
                        old(self)@.list().items.push(value@),
                    ).hands_off_to(final(self)@.list())
                },
                Err(error) => old(self)@ is String && error == StoreError::WrongKind && final(self)@ == old(self)@,
            },
            final(self)@.settled(),
    {
        match self {
            KeyValueStoreEntry::List(entry) => Ok(entry._push(value)),
            KeyValueStoreEntry::String(_) => Err(StoreError::WrongKind),
        }
    }

    /// Appends `other` to a list; see [`KeyValueStoreListEntry::append`].
    pub fn append(&mut self, other: &mut Vec<Vec<u8>>) -> (length: Result<usize, StoreError>)
        ensures
            match length {
                Ok(n) => {
                    &&& old(self)@ is List
                    &&& final(self)@ is List
                    &&& n == old(self)@.list().items.len() + old(other)@.len()
                    &&& old(self)@.list().with_items(
                        old(self)@.list().items + views(old(other)@),
                    ).hands_off_to(final(self)@.list())
                    &&& final(other)@.len() == 0
                },
                Err(error) => old(self)@ is String && error == StoreError::WrongKind && final(self)@ == old(self)@ && final(other)@ == old(other)@,
            },
            final(self)@.settled(),
    {
        match self {
            KeyValueStoreEntry::List(entry) => Ok(entry.append(other)),
            KeyValueStoreEntry::String(_) => Err(StoreError::WrongKind),
        }
    }

    /// Puts `other` in front of a list; see [`KeyValueStoreListEntry::prepend`].
    pub fn prepend(&mut self, other: Vec<Vec<u8>>) -> (length: Result<usize, StoreError>)
        ensures
            match length {
                Ok(n) => {
                    &&& old(self)@ is List
                    &&& final(self)@ is List
                    &&& n == old(self)@.list().items.len() + other@.len()
                    &&& old(self)@.list().with_items(
                        views(other@) + old(self)@.list().items,
                    ).hands_off_to(final(self)@.list())
                },
                Err(error) => old(self)@ is String && error == StoreError::WrongKind && final(self)@ == old(self)@,
            },
            final(self)@.settled(),
    {
        match self {
            KeyValueStoreEntry::List(entry) => Ok(entry.prepend(other)),
            KeyValueStoreEntry::String(_) => Err(StoreError::WrongKind),
        }
    }

    /// Removes the head of a list, if it has one.
    pub fn pop_front(&mut self) -> (head: Result<Option<Vec<u8>>, StoreError>)
        ensures
            match head {
                Ok(Some(value)) => old(self)@ matches EntryView::List(list) && list.items.len() > 0
                    && value@ == list.items[0] && final(self)@ == EntryView::List(
                    list.with_items(list.items.skip(1)),
                ),
                Ok(None) => old(self)@ matches EntryView::List(list) && list.items.len() == 0
                    && final(self)@ == old(self)@,
                Err(error) => old(self)@ is String && error == StoreError::WrongKind && final(self)@ == old(self)@,
            },
            final(self)@.settled(),
    {
        match self {
            KeyValueStoreEntry::List(entry) => Ok(entry.pop_front()),
            KeyValueStoreEntry::String(_) => Err(StoreError::WrongKind),
        }
    }

    /// Removes the first `min(amount, len)` values of a list.
    pub fn pop_front_amount(&mut self, amount: usize) -> (popped: Result<
        Vec<Vec<u8>>,
        StoreError,
    >)
        ensures
            match popped {
                Ok(values) => old(self)@ matches EntryView::List(list) && views(values@) == front(
                    list.items,
                    amount as nat,
                ) && final(self)@ == EntryView::List(
                    list.with_items(after_front(list.items, amount as nat)),
                ),
                Err(error) => old(self)@ is String && error == StoreError::WrongKind && final(self)@ == old(self)@,
            },
            final(self)@.settled(),
    {
        match self {
            KeyValueStoreEntry::List(entry) => Ok(entry.pop_front_amount(amount)),
            KeyValueStoreEntry::String(_) => Err(StoreError::WrongKind),
        }
    }

    /// The values of a list from `start` to `end`, both included.
    pub fn get_subslice(&self, start: isize, end: isize) -> (subslice: Result<
        &[Vec<u8>],
        StoreError,
    >)
        ensures
            match subslice {
                Ok(values) => self@ matches EntryView::List(list) && views(values@) == range(
                    list.items,
                    start as int,
                    end as int,
                ),
                Err(error) => self@ is String && error == StoreError::WrongKind,
            },
    {
        match self {
            KeyValueStoreEntry::List(entry) => Ok(entry.get_subslice(start, end)),
            KeyValueStoreEntry::String(_) => Err(StoreError::WrongKind),
        }
    }

    /// The length of a list.
    pub fn len(&self) -> (length: Result<usize, StoreError>)
        ensures
            match length {
                Ok(n) => self@ matches EntryView::List(list) && n == list.items.len(),
                Err(error) => self@ is String && error == StoreError::WrongKind,
            },
    {
        match self {
            KeyValueStoreEntry::List(entry) => Ok(entry.len()),
            KeyValueStoreEntry::String(_) => Err(StoreError::WrongKind),
        }
    }

    /// Queues a new waiter on a list; see [`KeyValueStoreListEntry::generate_blpop_waiter`].
    pub fn generate_blpop_waiter(&mut self) -> (rx: Result<Receiver<Vec<u8>>, StoreError>)
        ensures
            match rx {
                Ok(_) => {
                    &&& old(self)@ is List
                    &&& final(self)@ is List
                    &&& exists|tx: Sender<Vec<u8>>|
                        (#[trigger] old(self)@.list().with_waiters(
                            old(self)@.list().waiters.push(tx),
                        )).hands_off_to(final(self)@.list())
                },
                Err(error) => old(self)@ is String && error == StoreError::WrongKind && final(self)@ == old(self)@,
            },
            final(self)@.settled(),
    {
        match self {
            KeyValueStoreEntry::List(entry) => Ok(entry.generate_blpop_waiter()),
            KeyValueStoreEntry::String(_) => Err(StoreError::WrongKind),
        }
    }
}

/// A keyspace: at most one entry under each key.
pub trait KeyValueStore: Sized + View<V = Map<Seq<u8>, EntryView>> {
    /// Puts `entry` under `key` and returns the entry it replaces, if any.
    fn insert(&mut self, key: Vec<u8>, entry: KeyValueStoreEntry) -> (prior: Option<
        KeyValueStoreEntry,
    >)
        ensures
            final(self)@ == old(self)@.insert(key@, entry@),
            match prior {
                Some(replaced) => old(self)@.contains_key(key@) && replaced@ == old(self)@[key@],
                None => !old(self)@.contains_key(key@),
            },
    ;

    /// The entry under `key`, if any.
    fn get(&self, key: &[u8]) -> (found: Option<&KeyValueStoreEntry>)
        ensures
            match found {
                Some(entry) => self@.contains_key(key@) && entry@ == self@[key@],
                None => !self@.contains_key(key@),
            },
    ;

    /// The entry under `key`, if any, to be changed in place: the keyspace ends up with
    /// whatever the entry ends up as.
    fn get_mut(&mut self, key: &[u8]) -> (found: Option<&mut KeyValueStoreEntry>)
        ensures
            match found {
                Some(entry) => old(self)@.contains_key(key@) && entry@ == old(self)@[key@]
                    && final(self)@ == old(self)@.insert(key@, final(entry)@),
                None => !old(self)@.contains_key(key@) && final(self)@ == old(self)@,
            },
    ;

    /// Takes the entry under `key` out of the keyspace, if there is one.
    fn remove(&mut self, key: &[u8]) -> (removed: Option<KeyValueStoreEntry>)
        ensures
            final(self)@ == old(self)@.remove(key@),
            match removed {
                Some(entry) => old(self)@.contains_key(key@) && entry@ == old(self)@[key@],
                None => !old(self)@.contains_key(key@),
            },
    ;
}

/// The keys of a keyspace and, at the same places, their entries.
#[derive(Debug)]
struct Table {
    keys: Vec<Vec<u8>>,
    entries: Vec<KeyValueStoreEntry>,
}

/// A keyspace held in memory. No key stands in it twice.
#[derive(Debug)]
pub struct InMemoryKeyValueStore {
    store: Table,
}

/// Whether `key` is one of `keys`.
spec fn holds(keys: Seq<Vec<u8>>, key: Seq<u8>) -> bool {
    exists|i: int| 0 <= i < keys.len() && (#[trigger] keys[i])@ == key
}

/// A place at which `key` stands in `keys`.
spec fn place(keys: Seq<Vec<u8>>, key: Seq<u8>) -> int {
    choose|i: int| 0 <= i < keys.len() && (#[trigger] keys[i])@ == key
}

/// The map that keys and the entries at their places stand for.
spec fn contents(keys: Seq<Vec<u8>>, entries: Seq<KeyValueStoreEntry>) -> Map<
    Seq<u8>,
    EntryView,
> {
    Map::new(|key: Seq<u8>| holds(keys, key), |key: Seq<u8>| entries[place(keys, key)]@)
}

/// No key stands in `keys` twice.
spec fn distinct_keys(keys: Seq<Vec<u8>>) -> bool {
    forall|i: int, j: int| 0 <= i < j < keys.len() ==> (#[trigger] keys[i])@ != (#[trigger] keys[j])@
}

proof fn lemma_place(keys: Seq<Vec<u8>>, i: int)
    requires
        distinct_keys(keys),
        0 <= i < keys.len(),
    ensures
        holds(keys, keys[i]@),
        place(keys, keys[i]@) == i,
{
    let j = place(keys, keys[i]@);
    assert(0 <= j < keys.len() && keys[j]@ == keys[i]@);
    if j < i {
        assert(keys[j]@ != keys[i]@);
    } else if i < j {
        assert(keys[i]@ != keys[j]@);
    }
}

proof fn lemma_replace(
    keys: Seq<Vec<u8>>,
    entries: Seq<KeyValueStoreEntry>,
    i: int,
    entry: KeyValueStoreEntry,
)
    requires
        distinct_keys(keys),
        keys.len() == entries.len(),
        0 <= i < keys.len(),
    ensures
        contents(keys, entries.update(i, entry)) == contents(keys, entries).insert(
            keys[i]@,
            entry@,
        ),
{
    lemma_place(keys, i);
    assert forall|key: Seq<u8>| holds(keys, key) implies contents(keys, entries.update(i, entry))[key]
        == contents(keys, entries).insert(keys[i]@, entry@)[key] by {
        lemma_place(keys, place(keys, key));
    }
    assert(contents(keys, entries.update(i, entry)) =~= contents(keys, entries).insert(
        keys[i]@,
        entry@,
    ));
}

proof fn lemma_push(
    keys: Seq<Vec<u8>>,
    entries: Seq<KeyValueStoreEntry>,
    key: Vec<u8>,
    entry: KeyValueStoreEntry,
)
    requires
        distinct_keys(keys),
        keys.len() == entries.len(),
        !holds(keys, key@),
    ensures
        distinct_keys(keys.push(key)),
        contents(keys.push(key), entries.push(entry)) == contents(keys, entries).insert(
            key@,
            entry@,
        ),
{
    let more_keys = keys.push(key);
    let more_entries = entries.push(entry);
    assert forall|a: int, b: int| 0 <= a < b < more_keys.len() implies (#[trigger] more_keys[a])@
        != (#[trigger] more_keys[b])@ by {
        assert(more_keys[a] == keys[a]);
        if b < keys.len() {
            assert(more_keys[b] == keys[b]);
        }
    }
    assert forall|k: Seq<u8>| holds(more_keys, k) == (holds(keys, k) || k == key@) by {
        if holds(keys, k) {
            let at = place(keys, k);
            assert(more_keys[at]@ == k);
        }
        if k == key@ {
            assert(more_keys[keys.len() as int]@ == k);
        }
        if holds(more_keys, k) {
            let at = place(more_keys, k);
            if at < keys.len() {
                assert(keys[at]@ == k);
            }
        }
    }
    assert forall|k: Seq<u8>| holds(more_keys, k) implies contents(more_keys, more_entries)[k]
        == contents(keys, entries).insert(key@, entry@)[k] by {
        let at = place(more_keys, k);
        lemma_place(more_keys, at);
        if at < keys.len() {
            assert(more_keys[at] == keys[at]);
            lemma_place(keys, at);
        }
    }
    assert(contents(more_keys, more_entries) =~= contents(keys, entries).insert(key@, entry@));
}

proof fn lemma_remove(keys: Seq<Vec<u8>>, entries: Seq<KeyValueStoreEntry>, i: int)
    requires
        distinct_keys(keys),
        keys.len() == entries.len(),
        0 <= i < keys.len(),
    ensures
        distinct_keys(keys.remove(i)),
        contents(keys.remove(i), entries.remove(i)) == contents(keys, entries).remove(keys[i]@),
{
    let fewer_keys = keys.remove(i);
    let fewer_entries = entries.remove(i);
    assert forall|a: int, b: int| 0 <= a < b < fewer_keys.len() implies (
    #[trigger] fewer_keys[a])@ != (#[trigger] fewer_keys[b])@ by {
        let a0 = if a < i { a } else { a + 1 };
        let b0 = if b < i { b } else { b + 1 };
        assert(fewer_keys[a] == keys[a0]);
        assert(fewer_keys[b] == keys[b0]);
    }
    assert forall|k: Seq<u8>| holds(fewer_keys, k) == (holds(keys, k) && k != keys[i]@) by {
        if holds(keys, k) && k != keys[i]@ {
            let at = place(keys, k);
            let at1 = if at < i { at } else { at - 1 };
            assert(fewer_keys[at1] == keys[at]);
            assert(fewer_keys[at1]@ == k);
        }
        if holds(fewer_keys, k) {
            let at = place(fewer_keys, k);
            let at0 = if at < i { at } else { at + 1 };
            assert(fewer_keys[at] == keys[at0]);
            assert(keys[at0]@ == k);
            if at0 < i {
                assert(keys[at0]@ != keys[i]@);
            } else {
                assert(keys[i]@ != keys[at0]@);
            }
        }
    }
    assert forall|k: Seq<u8>| holds(fewer_keys, k) implies contents(fewer_keys, fewer_entries)[k]
        == contents(keys, entries).remove(keys[i]@)[k] by {
        let at = place(fewer_keys, k);
        let at0 = if at < i { at } else { at + 1 };
        assert(fewer_keys[at] == keys[at0]);
        assert(fewer_entries[at] == entries[at0]);
        lemma_place(fewer_keys, at);
        lemma_place(keys, at0);
    }
    assert(contents(fewer_keys, fewer_entries) =~= contents(keys, entries).remove(keys[i]@));
}

impl View for InMemoryKeyValueStore {
    type V = Map<Seq<u8>, EntryView>;

    closed spec fn view(&self) -> Map<Seq<u8>, EntryView> {
        contents(self.store.keys@, self.store.entries@)
    }
}

impl InMemoryKeyValueStore {
    /// Each key has its entry, and no key stands twice.
    #[verifier::type_invariant]
    spec fn well_formed(self) -> bool {
        self.store.keys@.len() == self.store.entries@.len() && distinct_keys(self.store.keys@)
    }

    /// A keyspace that holds nothing.
    pub fn new() -> (store: Self)
        ensures
            store@ == Map::<Seq<u8>, EntryView>::empty(),
    {
        let store = InMemoryKeyValueStore { store: Table { keys: Vec::new(), entries: Vec::new() } };
        assert(store@ =~= Map::<Seq<u8>, EntryView>::empty());
        store
    }

    /// Where `key` stands.
    fn position(&self, key: &[u8]) -> (found: Option<usize>)
        ensures
            match found {
                Some(i) => i < self.store.keys@.len() && self.store.keys@[i as int]@ == key@,
                None => !holds(self.store.keys@, key@),
            },
    {
        let mut i: usize = 0;
        while i < self.store.keys.len()
            invariant
                i <= self.store.keys@.len(),
                forall|j: int| 0 <= j < i ==> (#[trigger] self.store.keys@[j])@ != key@,
            decreases self.store.keys@.len() - i,
        {
            if bytes_eq(self.store.keys[i].as_slice(), key) {
                return Some(i);
            }
            i += 1;
        }
        None
    }

    /// Takes the keys and the entries out, and leaves the keyspace empty.
    fn take(&mut self) -> (table: Table)
        ensures
            table.keys@ == old(self).store.keys@,
            table.entries@ == old(self).store.entries@,
            table.keys@.len() == table.entries@.len(),
            distinct_keys(table.keys@),
    {
        proof {
            use_type_invariant(&*self);
        }
        let mut table = Table { keys: Vec::new(), entries: Vec::new() };
        std::mem::swap(&mut self.store, &mut table);
        table
    }
}

impl KeyValueStore for InMemoryKeyValueStore {
    fn insert(&mut self, key: Vec<u8>, entry: KeyValueStoreEntry) -> (prior: Option<
        KeyValueStoreEntry,
    >) {
        proof {
            use_type_invariant(&*self);
        }
        match self.position(key.as_slice()) {
            Some(i) => {
                proof {
                    lemma_place(self.store.keys@, i as int);
                    lemma_replace(self.store.keys@, self.store.entries@, i as int, entry);
                }
                let mut entry = entry;
                std::mem::swap(&mut self.store.entries[i], &mut entry);
                Some(entry)
            },
            None => {
                let mut table = self.take();
                proof {
                    lemma_push(table.keys@, table.entries@, key, entry);
                }
                table.keys.push(key);
                table.entries.push(entry);
                self.store = table;
                None
            },
        }
    }

    fn get(&self, key: &[u8]) -> (found: Option<&KeyValueStoreEntry>) {
        proof {
            use_type_invariant(self);
        }
        match self.position(key) {
            Some(i) => {
                proof {
                    lemma_place(self.store.keys@, i as int);
                }
                Some(&self.store.entries[i])
            },
            None => None,
        }
    }

    fn get_mut(&mut self, key: &[u8]) -> (found: Option<&mut KeyValueStoreEntry>) {
        proof {
            use_type_invariant(&*self);
        }
        match self.position(key) {
            Some(i) => {
                proof {
                    lemma_place(self.store.keys@, i as int);
                    assert forall|entry: KeyValueStoreEntry|
                        #![trigger self.store.entries@.update(i as int, entry)]
                        contents(self.store.keys@, self.store.entries@.update(i as int, entry))
                            == contents(self.store.keys@, self.store.entries@).insert(
                            key@,
                            entry@,
                        ) by {
                        lemma_replace(self.store.keys@, self.store.entries@, i as int, entry);
                    }
                }
                Some(&mut self.store.entries[i])
            },
            None => None,
        }
    }

    fn remove(&mut self, key: &[u8]) -> (removed: Option<KeyValueStoreEntry>) {
        proof {
            use_type_invariant(&*self);
        }
        match self.position(key) {
            Some(i) => {
                let mut table = self.take();
                proof {
                    lemma_place(table.keys@, i as int);
                    lemma_remove(table.keys@, table.entries@, i as int);
                }
                let _ = table.keys.remove(i);
                let entry = table.entries.remove(i);
                self.store = table;
                Some(entry)
            },
            None => {
                assert(self@.remove(key@) =~= self@);
                None
            },
        }
    }
}

/// Brings a signed index into `0..`: a negative one counts from the tail and stops at the head.
pub fn normalize_index(index: isize, list_length: usize) -> (normalized: usize)
    ensures
        normalized == normalize(index as int, list_length as nat),
{
    if index < 0 {
        let normalized_index: usize = (-(index + 1)) as usize + 1;
        if list_length < normalized_index {
            return 0;
        }
        return list_length - normalized_index;
    }
    index as usize
}

} // verus!
