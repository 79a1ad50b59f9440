use crate::ascii::{parse_isize, spelled_isize, to_bytes};
use crate::command::{CommandFactory, CommandRunner, DataRequester, InvalidArguments, Reply, ReplyView};
use crate::key_value_store::{KeyValueStore, StoreError};
use crate::model::{range, views, EntryView};
use crate::resp::{array, array_reply, nil, nil_reply};
use vstd::prelude::*;

verus! {

/// `LRANGE key start end`: both ends count, and a negative index counts from the tail.
#[derive(Debug)]
pub struct LRangeRequest {
    pub key: Vec<u8>,
    pub start: isize,
    pub end: isize,
}

/// The values that an `LRANGE` found, or why it found none.
#[derive(Debug)]
pub struct LRangeResponse {
    pub subslice: Result<Vec<Vec<u8>>, StoreError>,
}

impl CommandFactory for LRangeRequest {
    open spec fn built(arguments: Seq<Seq<u8>>, now: u64, built: Result<Self, InvalidArguments>) -> bool {
        if arguments.len() != 3 {
            built == Err::<Self, InvalidArguments>(
                InvalidArguments::ExpectedExactlyThreeArguments,
            )
        } else if spelled_isize(arguments[1]) is None || spelled_isize(arguments[2]) is None {
            built == Err::<Self, InvalidArguments>(InvalidArguments::IndexNotInteger)
        } else {
            built matches Ok(request) && request.key@ == arguments[0] && Some(request.start)
                == spelled_isize(arguments[1]) && Some(request.end) == spelled_isize(arguments[2])
        }
    }

    fn new(arguments: &[&[u8]], now: u64) -> (built: Result<Self, InvalidArguments>) {
        if arguments.len() != 3 {
            return Err(InvalidArguments::ExpectedExactlyThreeArguments);
        }
        match (parse_isize(arguments[1]), parse_isize(arguments[2])) {
            (Some(start), Some(end)) => Ok(
                LRangeRequest { key: to_bytes(arguments[0]), start, end },
            ),
            _ => Err(InvalidArguments::IndexNotInteger),
        }
    }
}

impl LRangeResponse {
    /// The response that holds `subslice`.
    pub fn new(subslice: Result<Vec<Vec<u8>>, StoreError>) -> (response: Self)
        ensures
            response.subslice == subslice,
    {
        LRangeResponse { subslice }
    }
}

/// The values from `start` to `end` of the list under `key`; none where the key holds nothing.
pub fn get_subslice<'a, S: KeyValueStore>(
    store: &'a S,
    key: &Vec<u8>,
    start: isize,
    end: isize,
) -> (subslice: Result<&'a [Vec<u8>], StoreError>)
    ensures
        ranged(store@, key@, start, end, subslice),
{
    if let Some(entry) = store.get(key.as_slice()) {
        return entry.get_subslice(start, end);
    }
    Ok(nothing())
}

/// A slice without elements.
fn nothing<'a>() -> (slice: &'a [Vec<u8>])
    ensures
        slice@.len() == 0,
{
    let nothing: &'a [Vec<u8>] = &[];
    nothing
}

/// Whether `subslice` is what a range from `start` to `end` over the key `key` gives: the
/// values of the list, no value where the key holds nothing, a failure where it holds a string.
pub open spec fn ranged(
    store: Map<Seq<u8>, EntryView>,
    key: Seq<u8>,
    start: isize,
    end: isize,
    subslice: Result<&[Vec<u8>], StoreError>,
) -> bool {
    if !store.contains_key(key) {
        subslice matches Ok(values) && values@.len() == 0
    } else if store[key] is String {
        subslice == Err::<&[Vec<u8>], StoreError>(StoreError::WrongKind)
    } else {
        subslice matches Ok(values) && views(values@) == range(
            store[key].list().items,
            start as int,
            end as int,
        )
    }
}

impl DataRequester for LRangeRequest {
    type Response = LRangeResponse;

    open spec fn applies(
        &self,
        before: Map<Seq<u8>, EntryView>,
        after: Map<Seq<u8>, EntryView>,
        response: &LRangeResponse,
    ) -> bool {
        &&& after == before
        &&& if !before.contains_key(self.key@) {
            response.subslice matches Ok(values) && values@.len() == 0
        } else if before[self.key@] is String {
            response.subslice == Err::<Vec<Vec<u8>>, StoreError>(StoreError::WrongKind)
        } else {
            response.subslice matches Ok(values) && views(values@) == range(
                before[self.key@].list().items,
                self.start as int,
                self.end as int,
            )
        }
    }

    fn request<S: KeyValueStore>(self, store: &mut S) -> (response: LRangeResponse) {
        let subslice = match get_subslice(store, &self.key, self.start, self.end) {
            Ok(slice) => {
                let values = to_values(slice);
                assert(views(values@).len() == values@.len() && views(slice@).len()
                    == slice@.len());
                Ok(values)
            },
            Err(error) => Err(error),
        };
        LRangeResponse::new(subslice)
    }
}

/// Owned copies of the values of `slice`.
fn to_values(slice: &[Vec<u8>]) -> (values: Vec<Vec<u8>>)
    ensures
        views(values@) == views(slice@),
{
    let mut values: Vec<Vec<u8>> = Vec::with_capacity(slice.len());
    let mut i: usize = 0;
    while i < slice.len()
        invariant
            i <= slice@.len(),
            values@.len() == i,
            forall|j: int| 0 <= j < i ==> (#[trigger] values@[j])@ == slice@[j]@,
        decreases slice@.len() - i,
    {
        values.push(slice[i].clone());
        i += 1;
    }
    assert(views(values@) =~= views(slice@));
    values
}

impl CommandRunner for LRangeResponse {
    open spec fn rendered(&self) -> ReplyView {
        match self.subslice {
            Ok(slice) => ReplyView::Immediate(array_reply(views(slice@))),
            Err(_) => ReplyView::Immediate(nil_reply()),
        }
    }

    fn run(self) -> (reply: Reply) {
        if let Ok(slice) = self.subslice {
            return Reply::Immediate(array(&slice));
        }
        Reply::Immediate(nil())
    }
}

} // verus!
