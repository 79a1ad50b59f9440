use crate::ascii::to_bytes;
use crate::command::{
    pushed, CommandFactory, CommandRunner, DataRequester, InvalidArguments, Reply, ReplyView,
};
use crate::key_value_store::{
    KeyValueStore, KeyValueStoreEntry, KeyValueStoreListEntry, StoreError,
};
use crate::model::{views, EntryView};
use crate::resp::{integer, integer_reply, nil, nil_reply};
use vstd::prelude::*;

verus! {

/// Appends `value` to the list under `key`, which is created if the key holds nothing.
pub fn _push<S: KeyValueStore>(store: &mut S, key: Vec<u8>, value: Vec<u8>) -> (length: Result<
    usize,
    StoreError,
>)
    ensures
        pushed(old(store)@, key@, seq![value@], false, final(store)@, length),
{
    let ghost before = store@;
    if let Some(entry) = store.get_mut(key.as_slice()) {
        let length = entry._push(value);
        proof {
            if length is Ok {
                assert(before[key@].list().items.push(value@) =~= before[key@].list().items
                    + seq![value@]);
            } else {
                assert(final(store)@ =~= before);
            }
        }
        return length;
    }
    let mut entry: KeyValueStoreListEntry = KeyValueStoreListEntry::new();
    let return_value: usize = entry._push(value);
    assert(entry@.items =~= seq![value@]);
    let _ = store.insert(key, KeyValueStoreEntry::List(entry));
    Ok(return_value)
}

/// Appends `other` to the list under `key`, which is created if the key holds nothing.
pub fn append<S: KeyValueStore>(store: &mut S, key: Vec<u8>, other: &mut Vec<Vec<u8>>) -> (length:
    Result<usize, StoreError>)
    ensures
        pushed(old(store)@, key@, views(old(other)@), false, final(store)@, length),
{
    let ghost before = store@;
    if let Some(entry) = store.get_mut(key.as_slice()) {
        let length = entry.append(other);
        proof {
            if length is Err {
                assert(final(store)@ =~= before);
            }
        }
        return length;
    }
    let mut entry: KeyValueStoreListEntry = KeyValueStoreListEntry::new();
    let return_value: usize = entry.append(other);
    assert(entry@.items =~= views(old(other)@));
    let _ = store.insert(key, KeyValueStoreEntry::List(entry));
    Ok(return_value)
}

/// `RPUSH key value [value ...]`: the values go to the tail of the list, in order.
#[derive(Debug)]
pub struct RPushRequest {
    pub key: Vec<u8>,
    pub values: Vec<Vec<u8>>,
}

/// The length that the list had once the values were in it, or why they were not added.
#[derive(Debug)]
pub struct RPushResult {
    pub length: Result<usize, StoreError>,
}

impl CommandFactory for RPushRequest {
    open spec fn built(arguments: Seq<Seq<u8>>, now: u64, built: Result<Self, InvalidArguments>) -> bool {
        match built {
            Ok(request) => arguments.len() >= 2 && request.key@ == arguments[0] && views(
                request.values@,
            ) == arguments.skip(1),
            Err(error) => arguments.len() < 2 && error
                == InvalidArguments::ExpectedAtLeastTwoArguments,
        }
    }

    fn new(arguments: &[&[u8]], now: u64) -> (built: Result<Self, InvalidArguments>) {
        if arguments.len() < 2 {
            return Err(InvalidArguments::ExpectedAtLeastTwoArguments);
        }
        let mut values: Vec<Vec<u8>> = Vec::new();
        let mut i: usize = 1;
        while i < arguments.len()
            invariant
                1 <= i <= arguments@.len(),
                values@.len() == i - 1,
                forall|j: int| 0 <= j < values@.len() ==> (#[trigger] values@[j])@ == arguments@[j
                    + 1]@,
            decreases arguments@.len() - i,
        {
            values.push(to_bytes(arguments[i]));
            i += 1;
        }
        assert(views(values@) =~= views(arguments@).skip(1));
        Ok(RPushRequest { key: to_bytes(arguments[0]), values })
    }
}

impl RPushResult {
    /// The result that holds `length`.
    pub fn new(length: Result<usize, StoreError>) -> (result: Self)
        ensures
            result.length == length,
    {
        RPushResult { length }
    }
}

impl DataRequester for RPushRequest {
    type Response = RPushResult;

    open spec fn applies(
        &self,
        before: Map<Seq<u8>, EntryView>,
        after: Map<Seq<u8>, EntryView>,
        response: &RPushResult,
    ) -> bool {
        pushed(before, self.key@, views(self.values@), false, after, response.length)
    }

    fn request<S: KeyValueStore>(self, store: &mut S) -> (response: RPushResult) {
        let mut values = self.values;
        RPushResult::new(append(store, self.key, &mut values))
    }
}

impl CommandRunner for RPushResult {
    open spec fn rendered(&self) -> ReplyView {
        match self.length {
            Ok(size) => ReplyView::Immediate(integer_reply(size as nat)),
            Err(_) => ReplyView::Immediate(nil_reply()),
        }
    }

    fn run(self) -> (reply: Reply) {
        let reply: Vec<u8> = match self.length {
            Ok(size) => integer(size),
            Err(_) => nil(),
        };
        Reply::Immediate(reply)
    }
}

} // verus!
