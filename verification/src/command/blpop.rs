use crate::ascii::{parse_u64, spelled_u64, to_bytes};
use crate::command::{
    CommandFactory, CommandRunner, DataRequester, InvalidArguments, Reply, ReplyView, Waiting,
};
use crate::key_value_store::{KeyValueStore, StoreError};
use crate::model::EntryView;
use crate::resp::{nil, nil_reply};
use tokio::sync::oneshot::{Receiver, Sender};
use vstd::prelude::*;

verus! {

/// `BLPOP key timeout`: the timeout in seconds, or none to wait for ever.
#[derive(Debug)]
pub struct BLPopRequest {
    pub key: Vec<u8>,
    pub timeout: Option<u64>,
}

/// The wait that a blocking pop has entered.
#[derive(Debug)]
pub struct BLPopResponseBody {
    pub timeout: Option<u64>,
    pub rx: Receiver<Vec<u8>>,
}

/// What a `BLPOP` led to: a wait on the key, or the reason why nobody waits.
#[derive(Debug)]
pub struct BLPopResponse {
    pub key: Vec<u8>,
    pub body: Result<BLPopResponseBody, StoreError>,
}

impl CommandFactory for BLPopRequest {
    /// A timeout of 0 stands for no timeout.
    open spec fn built(arguments: Seq<Seq<u8>>, now: u64, built: Result<Self, InvalidArguments>) -> bool {
        if arguments.len() != 2 {
            built == Err::<Self, InvalidArguments>(InvalidArguments::ExpectedTwoArguments)
        } else {
            match spelled_u64(arguments[1]) {
                None => built == Err::<Self, InvalidArguments>(
                    InvalidArguments::TimeoutNotUnsigned,
                ),
                Some(timeout) => built matches Ok(request) && request.key@ == arguments[0]
                    && request.timeout == (if timeout == 0 {
                    None
                } else {
                    Some(timeout)
                }),
            }
        }
    }

    fn new(arguments: &[&[u8]], now: u64) -> (built: Result<Self, InvalidArguments>) {
        if arguments.len() != 2 {
            return Err(InvalidArguments::ExpectedTwoArguments);
        }
        let key: Vec<u8> = to_bytes(arguments[0]);
        let timeout: u64 = match parse_u64(arguments[1]) {
            Some(timeout) => timeout,
            None => {
                return Err(InvalidArguments::TimeoutNotUnsigned);
            },
        };
        let timeout: Option<u64> = if timeout == 0 {
            None
        } else {
            Some(timeout)
        };
        Ok(BLPopRequest { key, timeout })
    }
}

impl BLPopResponse {
    /// The response to a blocking pop that does not wait.
    pub fn new_err(key: Vec<u8>, err: StoreError) -> (response: Self)
        ensures
            response.key == key,
            response.body == Err::<BLPopResponseBody, StoreError>(err),
    {
        Self { key, body: Err(err) }
    }

    /// The response to a blocking pop that waits on `rx`.
    pub fn new(key: Vec<u8>, timeout: Option<u64>, rx: Receiver<Vec<u8>>) -> (response: Self)
        ensures
            response.key == key,
            response.body == Ok::<BLPopResponseBody, StoreError>(BLPopResponseBody { timeout, rx }),
    {
        Self { key, body: Ok(BLPopResponseBody { timeout, rx }) }
    }
}

impl DataRequester for BLPopRequest {
    type Response = BLPopResponse;

    /// On a list, a new waiter joins the queue behind the others, and the list hands values
    /// to its waiters until it is at rest: the new waiter may be served at once. A key that
    /// holds nothing gives `NotFound`, a string `WrongKind`, and nobody waits.
    open spec fn applies(
        &self,
        before: Map<Seq<u8>, EntryView>,
        after: Map<Seq<u8>, EntryView>,
        response: &BLPopResponse,
    ) -> bool {
        &&& response.key@ == self.key@
        &&& if !before.contains_key(self.key@) {
            &&& after == before
            &&& response.body == Err::<BLPopResponseBody, StoreError>(StoreError::NotFound)
        } else if before[self.key@] is String {
            &&& after == before
            &&& response.body == Err::<BLPopResponseBody, StoreError>(StoreError::WrongKind)
        } else {
            let list = before[self.key@].list();
            &&& after.contains_key(self.key@)
            &&& after[self.key@] is List
            &&& after == before.insert(self.key@, after[self.key@])
            &&& exists|tx: Sender<Vec<u8>>|
                (#[trigger] list.with_waiters(list.waiters.push(tx))).hands_off_to(
                    after[self.key@].list(),
                )
            &&& response.body matches Ok(body)
            &&& body.timeout == self.timeout
        }
    }

    fn request<S: KeyValueStore>(self, store: &mut S) -> (response: BLPopResponse) {
        let ghost before = store@;
        if let Some(entity) = store.get_mut(self.key.as_slice()) {
            match entity.generate_blpop_waiter() {
                Ok(rx) => BLPopResponse::new(self.key, self.timeout, rx),
                Err(err) => {
                    assert(store@ =~= before);
                    BLPopResponse::new_err(self.key, err)
                },
            }
        } else {
            BLPopResponse::new_err(self.key, StoreError::NotFound)
        }
    }
}

impl CommandRunner for BLPopResponse {
    /// Where nobody waits the reply is the null bulk string, at once. Where somebody does,
    /// the reply is deferred until the wait ends.
    open spec fn rendered(&self) -> ReplyView {
        match self.body {
            Err(_) => ReplyView::Immediate(nil_reply()),
            Ok(body) => ReplyView::Deferred { key: self.key@, timeout: body.timeout, rx: body.rx },
        }
    }

    fn run(self) -> (reply: Reply) {
        match self.body {
            Err(_) => Reply::Immediate(nil()),
            Ok(BLPopResponseBody { rx, timeout }) => {
                let key: Vec<u8> = self.key;
                Reply::Deferred(Waiting { key, timeout, rx })
            },
        }
    }
}

} // verus!
