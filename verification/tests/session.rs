use resp_kv::command::{CommandRunner, DataRequester, Reply, Request};
use resp_kv::connection::{apply_all, handle_client, Step};
use resp_kv::key_value_store::InMemoryKeyValueStore;
use resp_kv::parser::redis_parser;

fn frame(words: &[&str]) -> Vec<u8> {
    let mut frame = format!("*{}\r\n", words.len());
    for word in words {
        frame.push_str(&format!("${}\r\n{}\r\n", word.len(), word));
    }
    frame.into_bytes()
}

fn requests(commands: &[&[&str]]) -> Vec<Request> {
    commands.iter().map(|words| redis_parser(&frame(words), 0).unwrap()).collect()
}

fn texts(replies: Vec<Reply>) -> Vec<String> {
    replies
        .into_iter()
        .map(|reply| match reply {
            Reply::Immediate(bytes) => String::from_utf8(bytes).unwrap(),
            Reply::Deferred(waiting) => panic!("deferred: {:?}", waiting),
        })
        .collect()
}

const SESSION: [&[&str]; 14] = [
    &["PING"],
    &["SET", "k", "v"],
    &["GET", "k"],
    &["RPUSH", "L", "a", "b"],
    &["LPUSH", "L", "c", "d"],
    &["LLEN", "L"],
    &["LRANGE", "L", "0", "-1"],
    &["LPOP", "L"],
    &["LPOP", "L", "2"],
    &["RPUSH", "k", "x"],
    &["GET", "L"],
    &["LPOP", "L", "5"],
    &["LLEN", "L"],
    &["ECHO", "bye"],
];

const REPLIES: [&str; 14] = [
    "+PONG\r\n",
    "+OK\r\n",
    "$1\r\nv\r\n",
    ":2\r\n",
    ":4\r\n",
    ":4\r\n",
    "*4\r\n$1\r\nd\r\n$1\r\nc\r\n$1\r\na\r\n$1\r\nb\r\n",
    "$1\r\nd\r\n",
    "*2\r\n$1\r\nc\r\n$1\r\na\r\n",
    "$-1\r\n",
    "$-1\r\n",
    "*1\r\n$1\r\nb\r\n",
    ":0\r\n",
    "$3\r\nbye\r\n",
];

#[test]
fn the_replies_are_those_of_the_commands_applied_in_order() {
    let mut store = InMemoryKeyValueStore::new();
    assert_eq!(texts(apply_all(&mut store, requests(&SESSION))), REPLIES);
}

#[test]
fn one_request_after_the_other_gives_the_same_replies() {
    let mut store = InMemoryKeyValueStore::new();
    let mut replies = Vec::new();
    for words in SESSION {
        match handle_client(&frame(words), 0) {
            Step::Submit(request) => replies.push(request.request(&mut store).run()),
            other => panic!("{:?}", other),
        }
    }
    assert_eq!(texts(replies), REPLIES);
}

#[test]
fn a_session_in_two_parts_gives_the_same_replies() {
    let mut store = InMemoryKeyValueStore::new();
    let mut replies = texts(apply_all(&mut store, requests(&SESSION[..6])));
    replies.extend(texts(apply_all(&mut store, requests(&SESSION[6..]))));
    assert_eq!(replies, REPLIES);
}

#[test]
fn no_request_gives_no_reply() {
    let mut store = InMemoryKeyValueStore::new();
    assert!(apply_all(&mut store, Vec::new()).is_empty());
}

#[test]
fn a_blocking_pop_in_a_session_is_deferred() {
    let mut store = InMemoryKeyValueStore::new();
    let mut replies = apply_all(
        &mut store,
        requests(&[&["RPUSH", "Q", "a"], &["BLPOP", "Q", "0"], &["LLEN", "Q"], &["BLPOP", "none", "0"]]),
    );
    assert_eq!(replies.len(), 4);
    assert!(matches!(&replies[0], Reply::Immediate(bytes) if bytes == b":1\r\n"));
    assert!(matches!(&replies[2], Reply::Immediate(bytes) if bytes == b":0\r\n"));
    assert!(matches!(&replies[3], Reply::Immediate(bytes) if bytes == b"$-1\r\n"));
    match replies.remove(1) {
        Reply::Deferred(mut waiting) => assert_eq!(waiting.rx.try_recv(), Ok(b"a".to_vec())),
        Reply::Immediate(bytes) => panic!("the pop did not wait: {:?}", bytes),
    }
}
