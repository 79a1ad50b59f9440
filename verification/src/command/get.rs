use crate::ascii::to_bytes;
use crate::command::{CommandFactory, CommandRunner, DataRequester, InvalidArguments, Reply, ReplyView};
use crate::key_value_store::KeyValueStore;
use crate::model::EntryView;
use crate::resp::{bulk, bulk_reply, nil, nil_reply};
use vstd::prelude::*;

verus! {

/// `GET key`, with the time at which the request was built.
#[derive(Debug)]
pub struct GetCommandRequest {
    pub key: Vec<u8>,
    pub current_time: u64,
}

/// What a `GET` found: the value, or nothing.
#[derive(Debug)]
pub struct GetCommandResponse {
    pub value: Option<Vec<u8>>,
}

/// Whether a string with the expiry `expiry` no longer counts at the time `now`.
pub open spec fn expired(expiry: Option<u128>, now: u64) -> bool {
    expiry matches Some(time) && time < now
}

impl CommandFactory for GetCommandRequest {
    open spec fn built(arguments: Seq<Seq<u8>>, now: u64, built: Result<Self, InvalidArguments>) -> bool {
        match built {
            Ok(request) => arguments.len() == 1 && request.key@ == arguments[0]
                && request.current_time == now,
            Err(error) => arguments.len() != 1 && error
                == InvalidArguments::ExpectedSingleArgument,
        }
    }

    fn new(arguments: &[&[u8]], now: u64) -> (built: Result<Self, InvalidArguments>) {
        if arguments.len() != 1 {
            return Err(InvalidArguments::ExpectedSingleArgument);
        }
        Ok(GetCommandRequest { key: to_bytes(arguments[0]), current_time: now })
    }
}

impl GetCommandResponse {
    /// The response that holds `value`.
    pub fn new(value: Option<Vec<u8>>) -> (response: Self)
        ensures
            response.value == value,
    {
        Self { value }
    }
}

impl DataRequester for GetCommandRequest {
    type Response = GetCommandResponse;

    /// A string that has expired is removed and counts as absent; a string that has not is
    /// returned; a list, or no entry, gives nothing.
    open spec fn applies(
        &self,
        before: Map<Seq<u8>, EntryView>,
        after: Map<Seq<u8>, EntryView>,
        response: &GetCommandResponse,
    ) -> bool {
        if before.contains_key(self.key@) && before[self.key@] is String {
            let entry = before[self.key@].string();
            if expired(entry.expiry, self.current_time) {
                after == before.remove(self.key@) && response.value is None
            } else {
                after == before && response.value is Some && response.value->0@ == entry.value
            }
        } else {
            after == before && response.value is None
        }
    }

    fn request<S: KeyValueStore>(self, store: &mut S) -> (response: GetCommandResponse) {
        let now: u64 = self.current_time;
        let (expired, value): (bool, Option<Vec<u8>>) = match store.get(self.key.as_slice()) {
            Some(entity) => match entity.get_value() {
                Ok(value) => {
                    let expired = match entity.get_expiry() {
                        Some(time) => *time < now as u128,
                        None => false,
                    };
                    if expired {
                        (true, None)
                    } else {
                        (false, Some(value.clone()))
                    }
                },
                Err(_) => (false, None),
            },
            None => (false, None),
        };
        if expired {
            let _ = store.remove(self.key.as_slice());
        }
        GetCommandResponse::new(value)
    }
}

impl CommandRunner for GetCommandResponse {
    open spec fn rendered(&self) -> ReplyView {
        match self.value {
            Some(value) => ReplyView::Immediate(bulk_reply(value@)),
            None => ReplyView::Immediate(nil_reply()),
        }
    }

    fn run(self) -> (reply: Reply) {
        let reply: Vec<u8> = match self.value {
            Some(value) => bulk(value.as_slice()),
            None => nil(),
        };
        Reply::Immediate(reply)
    }
}

} // verus!
