use crate::ascii::to_bytes;
use crate::command::{CommandFactory, CommandRunner, DataRequester, InvalidArguments, Reply, ReplyView};
use crate::key_value_store::KeyValueStore;
use crate::model::EntryView;
use crate::resp::{integer, integer_reply};
use vstd::prelude::*;

verus! {

/// `LLEN key`.
#[derive(Debug)]
pub struct LLenCommand {
    pub key: Vec<u8>,
}

/// The length that an `LLEN` found.
#[derive(Debug)]
pub struct LLenResponse {
    pub length: usize,
}

impl CommandFactory for LLenCommand {
    open spec fn built(arguments: Seq<Seq<u8>>, now: u64, built: Result<Self, InvalidArguments>) -> bool {
        match built {
            Ok(command) => arguments.len() == 1 && command.key@ == arguments[0],
            Err(error) => arguments.len() != 1 && error
                == InvalidArguments::ExpectedSingleArgument,
        }
    }

    fn new(arguments: &[&[u8]], now: u64) -> (built: Result<Self, InvalidArguments>) {
        if arguments.len() != 1 {
            return Err(InvalidArguments::ExpectedSingleArgument);
        }
        Ok(LLenCommand { key: to_bytes(arguments[0]) })
    }
}

impl LLenResponse {
    /// The response that holds `length`.
    pub fn new(length: usize) -> (response: Self)
        ensures
            response.length == length,
    {
        Self { length }
    }
}

impl DataRequester for LLenCommand {
    type Response = LLenResponse;

    /// The length of the list under the key; 0 where the key holds a string or nothing.
    open spec fn applies(
        &self,
        before: Map<Seq<u8>, EntryView>,
        after: Map<Seq<u8>, EntryView>,
        response: &LLenResponse,
    ) -> bool {
        &&& after == before
        &&& response.length == (if before.contains_key(self.key@) && before[self.key@] is List {
            before[self.key@].list().items.len()
        } else {
            0
        })
    }

    fn request<S: KeyValueStore>(self, store: &mut S) -> (response: LLenResponse) {
        let length: usize = match store.get(self.key.as_slice()) {
            Some(entity) => match entity.len() {
                Ok(length) => length,
                Err(_) => 0,
            },
            None => 0,
        };
        LLenResponse::new(length)
    }
}

impl CommandRunner for LLenResponse {
    open spec fn rendered(&self) -> ReplyView {
        ReplyView::Immediate(integer_reply(self.length as nat))
    }

    fn run(self) -> (reply: Reply) {
        Reply::Immediate(integer(self.length))
    }
}

} // verus!
