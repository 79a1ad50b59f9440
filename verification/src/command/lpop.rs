use crate::ascii::{parse_usize, spelled_usize, to_bytes};
use crate::command::{CommandFactory, CommandRunner, DataRequester, InvalidArguments, Reply, ReplyView};
use crate::key_value_store::{KeyValueStore, StoreError};
use crate::model::{after_front, front, views, EntryView};
use crate::resp::{array, array_reply, bulk, bulk_reply, nil, nil_reply};
use vstd::prelude::*;

verus! {

/// `LPOP key [count]`.
#[derive(Debug)]
pub struct LPopRequest {
    pub key: Vec<u8>,
    pub amount: Option<usize>,
}

/// What was popped: the head alone, or the values that a count asked for.
#[derive(Debug)]
pub enum OneOrMany {
    One(Vec<u8>),
    Many(Vec<Vec<u8>>),
}

/// What an `LPOP` popped, or why it popped nothing.
#[derive(Debug)]
pub struct LPopResponse {
    pub response: Result<OneOrMany, StoreError>,
}

impl CommandFactory for LPopRequest {
    open spec fn built(arguments: Seq<Seq<u8>>, now: u64, built: Result<Self, InvalidArguments>) -> bool {
        if arguments.len() == 1 {
            built matches Ok(request) && request.key@ == arguments[0] && request.amount is None
        } else if arguments.len() == 2 {
            if spelled_usize(arguments[1]) is None {
                built == Err::<Self, InvalidArguments>(InvalidArguments::CountNotUnsigned)
            } else {
                built matches Ok(request) && request.key@ == arguments[0] && request.amount
                    == spelled_usize(arguments[1])
            }
        } else {
            built == Err::<Self, InvalidArguments>(InvalidArguments::ExpectedOneOrTwoArguments)
        }
    }

    fn new(arguments: &[&[u8]], now: u64) -> (built: Result<Self, InvalidArguments>) {
        let argument_count = arguments.len();
        if argument_count == 1 {
            return Ok(LPopRequest { key: to_bytes(arguments[0]), amount: None });
        }
        if argument_count == 2 {
            return match parse_usize(arguments[1]) {
                Some(amount) => Ok(
                    LPopRequest { key: to_bytes(arguments[0]), amount: Some(amount) },
                ),
                None => Err(InvalidArguments::CountNotUnsigned),
            };
        }
        Err(InvalidArguments::ExpectedOneOrTwoArguments)
    }
}

impl LPopResponse {
    /// The response that holds `response`.
    pub fn new(response: Result<OneOrMany, StoreError>) -> (built: Self)
        ensures
            built.response == response,
    {
        Self { response }
    }
}

impl DataRequester for LPopRequest {
    type Response = LPopResponse;

    /// Without a count the head of the list leaves it; with a count, the first
    /// `min(count, len)` values do. A key that holds nothing, or an empty list asked for
    /// its head, gives `NotFound`; a string gives `WrongKind`. The list stays under its key
    /// when its last value has left.
    open spec fn applies(
        &self,
        before: Map<Seq<u8>, EntryView>,
        after: Map<Seq<u8>, EntryView>,
        response: &LPopResponse,
    ) -> bool {
        if !before.contains_key(self.key@) {
            &&& after == before
            &&& response.response == Err::<OneOrMany, StoreError>(StoreError::NotFound)
        } else if before[self.key@] is String {
            &&& after == before
            &&& response.response == Err::<OneOrMany, StoreError>(StoreError::WrongKind)
        } else {
            let list = before[self.key@].list();
            match self.amount {
                None => if list.items.len() == 0 {
                    &&& after == before
                    &&& response.response == Err::<OneOrMany, StoreError>(StoreError::NotFound)
                } else {
                    &&& after == before.insert(
                        self.key@,
                        EntryView::List(list.with_items(list.items.skip(1))),
                    )
                    &&& response.response matches Ok(OneOrMany::One(value))
                    &&& value@ == list.items[0]
                },
                Some(amount) => {
                    &&& after == before.insert(
                        self.key@,
                        EntryView::List(list.with_items(after_front(list.items, amount as nat))),
                    )
                    &&& response.response matches Ok(OneOrMany::Many(values))
                    &&& views(values@) == front(list.items, amount as nat)
                },
            }
        }
    }

    fn request<S: KeyValueStore>(self, store: &mut S) -> (response: LPopResponse) {
        let ghost before = store@;
        let popped_values: Result<OneOrMany, StoreError> = match store.get_mut(
            self.key.as_slice(),
        ) {
            Some(entity) => match self.amount {
                None => match entity.pop_front() {
                    Ok(Some(value)) => Ok(OneOrMany::One(value)),
                    Ok(None) => Err(StoreError::NotFound),
                    Err(error) => Err(error),
                },
                Some(amount) => match entity.pop_front_amount(amount) {
                    Ok(values) => Ok(OneOrMany::Many(values)),
                    Err(error) => Err(error),
                },
            },
            None => Err(StoreError::NotFound),
        };
        proof {
            if popped_values is Err {
                assert(store@ =~= before);
            }
        }
        LPopResponse::new(popped_values)
    }
}

impl CommandRunner for LPopResponse {
    /// Nothing popped, for whatever reason, gives the null bulk string; the head alone a bulk
    /// string; the values that a count asked for an array.
    open spec fn rendered(&self) -> ReplyView {
        match self.response {
            Ok(OneOrMany::One(value)) => ReplyView::Immediate(bulk_reply(value@)),
            Ok(OneOrMany::Many(values)) => if values@.len() == 0 {
                ReplyView::Immediate(nil_reply())
            } else {
                ReplyView::Immediate(array_reply(views(values@)))
            },
            Err(_) => ReplyView::Immediate(nil_reply()),
        }
    }

    fn run(self) -> (reply: Reply) {
        let reply: Vec<u8> = match self.response {
            Ok(OneOrMany::One(value)) => bulk(value.as_slice()),
            Ok(OneOrMany::Many(values)) => if values.is_empty() {
                nil()
            } else {
                array(&values)
            },
            Err(_) => nil(),
        };
        Reply::Immediate(reply)
    }
}

} // verus!
