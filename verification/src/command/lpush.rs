use crate::ascii::to_bytes;
use crate::command::{
    pushed, CommandFactory, CommandRunner, DataRequester, InvalidArguments, Reply, ReplyView,
};
use crate::key_value_store::{
    KeyValueStore, KeyValueStoreEntry, KeyValueStoreListEntry, StoreError,
};
use crate::model::{views, EntryView};
use crate::resp::{integer, integer_reply, nil, nil_reply};
use vstd::prelude::*;

verus! {

/// `LPUSH key value [value ...]`. The values are held in the order in which they end up in
/// the list: the last argument first.
#[derive(Debug)]
pub struct LPushRequest {
    pub key: Vec<u8>,
    pub values: Vec<Vec<u8>>,
}

/// The length that the list had once the values were in it, or why they were not added.
#[derive(Debug)]
pub struct LPushResponse {
    pub length: Result<usize, StoreError>,
}

impl CommandFactory for LPushRequest {
    open spec fn built(arguments: Seq<Seq<u8>>, now: u64, built: Result<Self, InvalidArguments>) -> bool {
        match built {
            Ok(request) => arguments.len() >= 2 && request.key@ == arguments[0] && views(
                request.values@,
            ) == arguments.skip(1).reverse(),
            Err(error) => arguments.len() < 2 && error
                == InvalidArguments::ExpectedAtLeastTwoArguments,
        }
    }

    fn new(arguments: &[&[u8]], now: u64) -> (built: Result<Self, InvalidArguments>) {
        if arguments.len() < 2 {
            return Err(InvalidArguments::ExpectedAtLeastTwoArguments);
        }
        let mut values: Vec<Vec<u8>> = Vec::new();
        let mut i: usize = arguments.len();
        while i > 1
            invariant
                1 <= i <= arguments@.len(),
                values@.len() == arguments@.len() - i,
                forall|j: int|
                    0 <= j < values@.len() ==> (#[trigger] values@[j])@ == arguments@[
                        arguments@.len() - 1 - j]@,
            decreases i,
        {
            i -= 1;
            values.push(to_bytes(arguments[i]));
        }
        assert(views(values@) =~= views(arguments@).skip(1).reverse());
        Ok(LPushRequest { key: to_bytes(arguments[0]), values })
    }
}

impl LPushResponse {
    /// The response that holds `length`.
    pub fn new(length: Result<usize, StoreError>) -> (response: Self)
        ensures
            response.length == length,
    {
        LPushResponse { length }
    }
}

/// Puts `other` in front of the list under `key`, which is created if the key holds nothing.
pub fn prepend<S: KeyValueStore>(store: &mut S, key: Vec<u8>, other: Vec<Vec<u8>>) -> (length:
    Result<usize, StoreError>)
    ensures
        pushed(old(store)@, key@, views(other@), true, final(store)@, length),
{
    let ghost before = store@;
    if let Some(entry) = store.get_mut(key.as_slice()) {
        let length = entry.prepend(other);
        proof {
            if length is Err {
                assert(final(store)@ =~= before);
            }
        }
        return length;
    }
    let mut entry: KeyValueStoreListEntry = KeyValueStoreListEntry::new();
    let return_value: usize = entry.prepend(other);
    assert(entry@.items =~= views(other@));
    let _ = store.insert(key, KeyValueStoreEntry::List(entry));
    Ok(return_value)
}

impl DataRequester for LPushRequest {
    type Response = LPushResponse;

    open spec fn applies(
        &self,
        before: Map<Seq<u8>, EntryView>,
        after: Map<Seq<u8>, EntryView>,
        response: &LPushResponse,
    ) -> bool {
        pushed(before, self.key@, views(self.values@), true, after, response.length)
    }

    fn request<S: KeyValueStore>(self, store: &mut S) -> (response: LPushResponse) {
        LPushResponse::new(prepend(store, self.key, self.values))
    }
}

impl CommandRunner for LPushResponse {
    open spec fn rendered(&self) -> ReplyView {
        match self.length {
            Ok(size) => ReplyView::Immediate(integer_reply(size as nat)),
            Err(_) => ReplyView::Immediate(nil_reply()),
        }
    }

    fn run(self) -> (reply: Reply) {
        let reply: Vec<u8> = match self.length {
            Ok(size) => integer(size),
            Err(_) => nil(),
        };
        Reply::Immediate(reply)
    }
}

} // verus!
