use crate::ascii::{ascii_lowercase, eq_ignore_ascii_case, parse_u64, spelled_u64, to_bytes};
use crate::command::{CommandFactory, CommandRunner, DataRequester, InvalidArguments, Reply, ReplyView};
use crate::key_value_store::{KeyValueStore, KeyValueStoreEntry, KeyValueStoreStringEntry};
use crate::model::{EntryView, StringView};
use crate::resp::{ok, ok_reply};
use vstd::prelude::*;

verus! {

/// `SET key value [PX milliseconds]`, with the expiry as an absolute time.
#[derive(Debug)]
pub struct SetCommandRequest {
    pub key: Vec<u8>,
    pub value: Vec<u8>,
    pub calculated_expiry: Option<u128>,
}

/// The response to a `SET`, which always succeeds.
#[derive(Debug)]
pub struct SetCommandResponse {}

/// `px`, the word before a relative expiry in milliseconds.
pub open spec fn px() -> Seq<u8> {
    seq!['p' as u8, 'x' as u8]
}

impl SetCommandResponse {
    /// The one response there is.
    pub fn new() -> (response: Self) {
        SetCommandResponse {  }
    }
}

impl CommandRunner for SetCommandResponse {
    open spec fn rendered(&self) -> ReplyView {
        ReplyView::Immediate(ok_reply())
    }

    fn run(self) -> (reply: Reply) {
        Reply::Immediate(ok())
    }
}

impl DataRequester for SetCommandRequest {
    type Response = SetCommandResponse;

    /// The key holds the string afterwards, whatever it held before.
    open spec fn applies(
        &self,
        before: Map<Seq<u8>, EntryView>,
        after: Map<Seq<u8>, EntryView>,
        response: &SetCommandResponse,
    ) -> bool {
        after == before.insert(
            self.key@,
            EntryView::String(StringView { value: self.value@, expiry: self.calculated_expiry }),
        )
    }

    fn request<S: KeyValueStore>(self, store: &mut S) -> (response: SetCommandResponse) {
        let _ = store.insert(
            self.key,
            KeyValueStoreEntry::String(
                KeyValueStoreStringEntry { value: self.value, expiry: self.calculated_expiry },
            ),
        );
        SetCommandResponse::new()
    }
}

impl CommandFactory for SetCommandRequest {
    /// Two arguments give a string without expiry. Four give one that expires: the third is
    /// `PX` in any case, the fourth the milliseconds to add to `now`.
    open spec fn built(arguments: Seq<Seq<u8>>, now: u64, built: Result<Self, InvalidArguments>) -> bool {
        if arguments.len() == 2 {
            built matches Ok(request) && request.key@ == arguments[0] && request.value@
                == arguments[1] && request.calculated_expiry is None
        } else if arguments.len() == 4 {
            if ascii_lowercase(arguments[2]) != px() {
                built == Err::<Self, InvalidArguments>(InvalidArguments::ExpectedPx)
            } else {
                match spelled_u64(arguments[3]) {
                    Some(milliseconds) => built matches Ok(request) && request.key@
                        == arguments[0] && request.value@ == arguments[1]
                        && request.calculated_expiry == Some((now + milliseconds) as u128),
                    None => built == Err::<Self, InvalidArguments>(
                        InvalidArguments::ExpiryNotUnsigned,
                    ),
                }
            }
        } else {
            built == Err::<Self, InvalidArguments>(InvalidArguments::ExpectedTwoOrFourArguments)
        }
    }

    fn new(arguments: &[&[u8]], now: u64) -> (built: Result<Self, InvalidArguments>) {
        if arguments.len() == 2 {
            return Ok(
                SetCommandRequest {
                    key: to_bytes(arguments[0]),
                    value: to_bytes(arguments[1]),
                    calculated_expiry: None,
                },
            );
        }
        if arguments.len() != 4 {
            return Err(InvalidArguments::ExpectedTwoOrFourArguments);
        }
        let word = ['p' as u8, 'x' as u8];
        assert(word@ =~= px());
        assert(ascii_lowercase(px()) =~= px());
        if !eq_ignore_ascii_case(arguments[2], word.as_slice()) {
            return Err(InvalidArguments::ExpectedPx);
        }
        match parse_u64(arguments[3]) {
            Some(milliseconds) => {
                let calculated_expiry: u128 = now as u128 + milliseconds as u128;
                Ok(
                    SetCommandRequest {
                        key: to_bytes(arguments[0]),
                        value: to_bytes(arguments[1]),
                        calculated_expiry: Some(calculated_expiry),
                    },
                )
            },
            None => Err(InvalidArguments::ExpiryNotUnsigned),
        }
    }
}

} // verus!
