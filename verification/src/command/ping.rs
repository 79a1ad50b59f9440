use crate::command::{CommandFactory, CommandRunner, DataRequester, InvalidArguments, Reply, ReplyView};
use crate::key_value_store::KeyValueStore;
use crate::model::EntryView;
use crate::resp::{pong, pong_reply};
use vstd::prelude::*;

verus! {

/// `PING`: answered with `PONG`.
#[derive(Debug)]
pub struct PingCommand {}

impl CommandFactory for PingCommand {
    open spec fn built(arguments: Seq<Seq<u8>>, now: u64, built: Result<Self, InvalidArguments>) -> bool {
        match built {
            Ok(_) => arguments.len() == 0,
            Err(error) => arguments.len() != 0 && error == InvalidArguments::ExpectedNoArguments,
        }
    }

    fn new(arguments: &[&[u8]], now: u64) -> (built: Result<Self, InvalidArguments>) {
        if arguments.len() != 0 {
            return Err(InvalidArguments::ExpectedNoArguments);
        }
        Ok(PingCommand {  })
    }
}

impl DataRequester for PingCommand {
    type Response = PingCommand;

    open spec fn applies(
        &self,
        before: Map<Seq<u8>, EntryView>,
        after: Map<Seq<u8>, EntryView>,
        response: &PingCommand,
    ) -> bool {
        after == before
    }

    fn request<S: KeyValueStore>(self, store: &mut S) -> (response: PingCommand) {
        self
    }
}

impl CommandRunner for PingCommand {
    open spec fn rendered(&self) -> ReplyView {
        ReplyView::Immediate(pong_reply())
    }

    fn run(self) -> (reply: Reply) {
        Reply::Immediate(pong())
    }
}

} // verus!
