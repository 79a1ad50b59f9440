use resp_kv::command::blpop::{BLPopRequest, BLPopResponse};
use resp_kv::command::llen::LLenCommand;
use resp_kv::command::lpush::LPushRequest;
use resp_kv::command::lrange::LRangeRequest;
use resp_kv::command::rpush::RPushRequest;
use resp_kv::command::set::SetCommandRequest;
use resp_kv::command::{CommandFactory, CommandRunner, DataRequester, Reply, Waited, Waiting};
use resp_kv::key_value_store::{InMemoryKeyValueStore, KeyValueStore, KeyValueStoreListEntry, StoreError};
use tokio::sync::oneshot::Receiver;

fn args<'a>(items: &[&'a str]) -> Vec<&'a [u8]> {
    items.iter().map(|item| item.as_bytes()).collect()
}

fn run<C: CommandFactory + std::fmt::Debug>(
    store: &mut InMemoryKeyValueStore,
    arguments: &[&str],
) -> Reply {
    C::new(&args(arguments), 0).unwrap().request(store).run()
}

fn text<C: CommandFactory + std::fmt::Debug>(
    store: &mut InMemoryKeyValueStore,
    arguments: &[&str],
) -> String {
    match run::<C>(store, arguments) {
        Reply::Immediate(bytes) => String::from_utf8(bytes).unwrap(),
        Reply::Deferred(waiting) => panic!("deferred: {:?}", waiting),
    }
}

/// A keyspace with an empty list under `key`.
fn with_empty_list(key: &str) -> InMemoryKeyValueStore {
    let mut store = InMemoryKeyValueStore::new();
    store.insert(
        key.as_bytes().to_vec(),
        resp_kv::key_value_store::KeyValueStoreEntry::List(KeyValueStoreListEntry::new()),
    );
    store
}

fn wait(store: &mut InMemoryKeyValueStore, key: &str) -> Receiver<Vec<u8>> {
    match run::<BLPopRequest>(store, &[key, "0"]) {
        Reply::Deferred(waiting) => waiting.rx,
        Reply::Immediate(bytes) => panic!("the pop did not wait: {:?}", bytes),
    }
}

fn received(rx: &mut Receiver<Vec<u8>>) -> Option<String> {
    rx.try_recv().ok().map(|value| String::from_utf8(value).unwrap())
}

#[test]
fn a_waiter_on_a_list_with_values_is_served_at_once() {
    let mut list = KeyValueStoreListEntry::new();
    list.append(&mut vec![b"a".to_vec(), b"b".to_vec()]);
    let mut rx = list.generate_blpop_waiter();
    assert_eq!(received(&mut rx), Some("a".to_string()));
    assert_eq!(list.len(), 1);
    assert_eq!(list.get_subslice(0, -1), &[b"b".to_vec()][..]);
}

#[test]
fn a_waiter_on_an_empty_list_waits_for_the_next_push() {
    let mut list = KeyValueStoreListEntry::new();
    let mut rx = list.generate_blpop_waiter();
    assert!(rx.try_recv().is_err());
    assert_eq!(list.len(), 0);
    // The length is that of the list with the value in it; the value is then handed on.
    assert_eq!(list._push(b"x".to_vec()), 1);
    assert_eq!(received(&mut rx), Some("x".to_string()));
    assert_eq!(list.len(), 0);
}

#[test]
fn waiters_are_served_oldest_first() {
    let mut list = KeyValueStoreListEntry::new();
    let mut first = list.generate_blpop_waiter();
    let mut second = list.generate_blpop_waiter();
    let mut third = list.generate_blpop_waiter();
    assert_eq!(list.append(&mut vec![b"a".to_vec(), b"b".to_vec()]), 2);
    assert_eq!(received(&mut first), Some("a".to_string()));
    assert_eq!(received(&mut second), Some("b".to_string()));
    assert!(third.try_recv().is_err());
    assert_eq!(list.len(), 0);
    assert_eq!(list._push(b"c".to_vec()), 1);
    assert_eq!(received(&mut third), Some("c".to_string()));
}

#[test]
fn values_beyond_the_waiters_stay_in_the_list() {
    let mut list = KeyValueStoreListEntry::new();
    let mut only = list.generate_blpop_waiter();
    assert_eq!(list.append(&mut vec![b"a".to_vec(), b"b".to_vec(), b"c".to_vec()]), 3);
    assert_eq!(received(&mut only), Some("a".to_string()));
    assert_eq!(list.get_subslice(0, -1), &[b"b".to_vec(), b"c".to_vec()][..]);
    // No waiter is left: the next one is served from the list.
    let mut next = list.generate_blpop_waiter();
    assert_eq!(received(&mut next), Some("b".to_string()));
    assert_eq!(list.len(), 1);
}

#[test]
fn a_value_that_is_put_in_front_is_handed_on_first() {
    let mut list = KeyValueStoreListEntry::new();
    let mut first = list.generate_blpop_waiter();
    let mut second = list.generate_blpop_waiter();
    assert_eq!(list.prepend(vec![b"a".to_vec(), b"b".to_vec(), b"c".to_vec()]), 3);
    assert_eq!(received(&mut first), Some("a".to_string()));
    assert_eq!(received(&mut second), Some("b".to_string()));
    assert_eq!(list.get_subslice(0, -1), &[b"c".to_vec()][..]);
}

#[test]
fn a_waiter_that_has_gone_is_passed_over_and_no_value_is_lost() {
    let mut list = KeyValueStoreListEntry::new();
    let gone = list.generate_blpop_waiter();
    let mut there = list.generate_blpop_waiter();
    drop(gone);
    assert_eq!(list._push(b"x".to_vec()), 1);
    assert_eq!(received(&mut there), Some("x".to_string()));
    assert_eq!(list.len(), 0);
}

#[test]
fn a_value_stays_in_the_list_when_every_waiter_has_gone() {
    let mut list = KeyValueStoreListEntry::new();
    drop(list.generate_blpop_waiter());
    drop(list.generate_blpop_waiter());
    assert_eq!(list._push(b"x".to_vec()), 1);
    assert_eq!(list.len(), 1);
    assert_eq!(list.pop_front(), Some(b"x".to_vec()));
    // The waiters that had gone have left the queue: a new one is the oldest.
    let mut next = list.generate_blpop_waiter();
    assert_eq!(list._push(b"y".to_vec()), 1);
    assert_eq!(received(&mut next), Some("y".to_string()));
}

#[test]
fn each_value_reaches_one_waiter_only() {
    let mut list = KeyValueStoreListEntry::new();
    let mut waiters: Vec<Receiver<Vec<u8>>> = (0..4).map(|_| list.generate_blpop_waiter()).collect();
    drop(waiters.remove(1));
    list.append(&mut vec![b"a".to_vec(), b"b".to_vec()]);
    let got: Vec<Option<String>> = waiters.iter_mut().map(received).collect();
    assert_eq!(got, vec![Some("a".to_string()), Some("b".to_string()), None]);
    assert_eq!(list.len(), 0);
}

#[test]
fn a_list_is_at_rest_after_each_operation() {
    let mut list = KeyValueStoreListEntry::new();
    assert!(list.is_at_rest());
    let first = list.generate_blpop_waiter();
    let second = list.generate_blpop_waiter();
    assert!(list.is_at_rest());
    list.append(&mut vec![b"a".to_vec()]);
    assert!(list.is_at_rest());
    drop(second);
    list.prepend(vec![b"b".to_vec(), b"c".to_vec()]);
    assert!(list.is_at_rest());
    assert_eq!(list.len(), 2);
    list._push(b"d".to_vec());
    assert!(list.is_at_rest());
    list.pop_front();
    assert!(list.is_at_rest());
    let third = list.generate_blpop_waiter();
    assert!(list.is_at_rest());
    assert_eq!(list.len(), 1);
    list.pop_front_amount(9);
    assert!(list.is_at_rest());
    let fourth = list.generate_blpop_waiter();
    assert!(list.is_at_rest());
    assert_eq!(list.len(), 0);
    drop((first, third, fourth));
}

#[test]
fn the_entries_of_a_keyspace_are_at_rest() {
    let mut store = with_empty_list("Q");
    run::<SetCommandRequest>(&mut store, &["k", "v"]);
    let waiting = wait(&mut store, "Q");
    assert!(store.get(b"Q").unwrap().is_at_rest());
    run::<RPushRequest>(&mut store, &["Q", "a", "b"]);
    assert!(store.get(b"Q").unwrap().is_at_rest());
    assert!(store.get(b"k").unwrap().is_at_rest());
    drop(waiting);
}

#[test]
fn blpop_on_a_key_without_entry_does_not_wait() {
    let mut store = InMemoryKeyValueStore::new();
    assert_eq!(text::<BLPopRequest>(&mut store, &["Q", "0"]), "$-1\r\n");
    assert_eq!(text::<BLPopRequest>(&mut store, &["Q", "5"]), "$-1\r\n");
    assert!(store.get(b"Q").is_none());
}

#[test]
fn blpop_on_a_string_does_not_wait() {
    let mut store = InMemoryKeyValueStore::new();
    run::<SetCommandRequest>(&mut store, &["k", "v"]);
    assert_eq!(text::<BLPopRequest>(&mut store, &["k", "0"]), "$-1\r\n");
}

#[test]
fn blpop_on_a_list_with_values_takes_the_head() {
    let mut store = InMemoryKeyValueStore::new();
    run::<RPushRequest>(&mut store, &["Q", "a", "b"]);
    match run::<BLPopRequest>(&mut store, &["Q", "7"]) {
        Reply::Deferred(Waiting { key, timeout, mut rx }) => {
            assert_eq!(key, b"Q".to_vec());
            assert_eq!(timeout, Some(7));
            let value = rx.try_recv().unwrap();
            assert_eq!(
                Waiting::resolve(key, Waited::Received(value)),
                b"*2\r\n$1\r\nQ\r\n$1\r\na\r\n".to_vec()
            );
        }
        Reply::Immediate(bytes) => panic!("the pop did not wait: {:?}", bytes),
    }
    assert_eq!(text::<LLenCommand>(&mut store, &["Q"]), ":1\r\n");
}

#[test]
fn pushes_serve_the_clients_that_wait_on_the_key() {
    let mut store = with_empty_list("Q");
    store.insert(
        b"R".to_vec(),
        resp_kv::key_value_store::KeyValueStoreEntry::List(KeyValueStoreListEntry::new()),
    );
    let mut on_q = wait(&mut store, "Q");
    let mut on_r = wait(&mut store, "R");
    assert_eq!(text::<RPushRequest>(&mut store, &["Q", "x", "y"]), ":2\r\n");
    assert_eq!(received(&mut on_q), Some("x".to_string()));
    assert!(on_r.try_recv().is_err());
    assert_eq!(text::<LRangeRequest>(&mut store, &["Q", "0", "-1"]), "*1\r\n$1\r\ny\r\n");
    // The last argument of a push to the head is the new head, and is handed on.
    assert_eq!(text::<LPushRequest>(&mut store, &["R", "a", "b"]), ":2\r\n");
    assert_eq!(received(&mut on_r), Some("b".to_string()));
    assert_eq!(text::<LRangeRequest>(&mut store, &["R", "0", "-1"]), "*1\r\n$1\r\na\r\n");
}

#[test]
fn a_set_over_a_list_cancels_its_waiters() {
    let mut store = with_empty_list("Q");
    let mut rx = wait(&mut store, "Q");
    run::<SetCommandRequest>(&mut store, &["Q", "v"]);
    assert!(matches!(
        rx.try_recv(),
        Err(tokio::sync::oneshot::error::TryRecvError::Closed)
    ));
    assert_eq!(Waiting::resolve(b"Q".to_vec(), Waited::Cancelled), b"$-1\r\n".to_vec());
}

#[test]
fn the_end_of_a_wait_is_encoded() {
    assert_eq!(
        Waiting::resolve(b"key".to_vec(), Waited::Received(b"value".to_vec())),
        b"*2\r\n$3\r\nkey\r\n$5\r\nvalue\r\n".to_vec()
    );
    assert_eq!(Waiting::resolve(b"key".to_vec(), Waited::Cancelled), b"$-1\r\n".to_vec());
    assert_eq!(Waiting::resolve(b"key".to_vec(), Waited::TimedOut), b"$-1\r\n".to_vec());
}

#[test]
fn blpop_responses_are_rendered() {
    let refused = BLPopResponse::new_err(b"Q".to_vec(), StoreError::NotFound);
    assert!(matches!(refused.run(), Reply::Immediate(bytes) if bytes == b"$-1\r\n".to_vec()));
    let refused = BLPopResponse::new_err(b"Q".to_vec(), StoreError::WrongKind);
    assert!(matches!(refused.run(), Reply::Immediate(bytes) if bytes == b"$-1\r\n".to_vec()));
    let (tx, rx) = tokio::sync::oneshot::channel();
    let waiting = BLPopResponse::new(b"Q".to_vec(), Some(3), rx);
    match waiting.run() {
        Reply::Deferred(Waiting { key, timeout, mut rx }) => {
            assert_eq!(key, b"Q".to_vec());
            assert_eq!(timeout, Some(3));
            // The receiver of the reply is the one that the response held.
            tx.send(b"v".to_vec()).unwrap();
            assert_eq!(rx.try_recv(), Ok(b"v".to_vec()));
        }
        Reply::Immediate(bytes) => panic!("the pop did not wait: {:?}", bytes),
    }
}
