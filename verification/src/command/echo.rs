use crate::ascii::to_bytes;
use crate::command::{CommandFactory, CommandRunner, DataRequester, InvalidArguments, Reply, ReplyView};
use crate::key_value_store::KeyValueStore;
use crate::model::EntryView;
use crate::resp::{bulk, bulk_reply};
use vstd::prelude::*;

verus! {

/// `ECHO body`: answered with `body`.
#[derive(Debug)]
pub struct EchoCommand {
    pub body: Vec<u8>,
}

impl CommandFactory for EchoCommand {
    open spec fn built(arguments: Seq<Seq<u8>>, now: u64, built: Result<Self, InvalidArguments>) -> bool {
        match built {
            Ok(command) => arguments.len() == 1 && command.body@ == arguments[0],
            Err(error) => arguments.len() != 1 && error
                == InvalidArguments::ExpectedSingleArgument,
        }
    }

    fn new(arguments: &[&[u8]], now: u64) -> (built: Result<Self, InvalidArguments>) {
        if arguments.len() != 1 {
            return Err(InvalidArguments::ExpectedSingleArgument);
        }
        Ok(EchoCommand { body: to_bytes(arguments[0]) })
    }
}

impl DataRequester for EchoCommand {
    type Response = EchoCommand;

    open spec fn applies(
        &self,
        before: Map<Seq<u8>, EntryView>,
        after: Map<Seq<u8>, EntryView>,
        response: &EchoCommand,
    ) -> bool {
        after == before && response.body@ == self.body@
    }

    fn request<S: KeyValueStore>(self, store: &mut S) -> (response: EchoCommand) {
        self
    }
}

impl CommandRunner for EchoCommand {
    open spec fn rendered(&self) -> ReplyView {
        ReplyView::Immediate(bulk_reply(self.body@))
    }

    fn run(self) -> (reply: Reply) {
        Reply::Immediate(bulk(self.body.as_slice()))
    }
}

} // verus!
