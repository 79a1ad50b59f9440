//! Replies in RESP: what each kind looks like on the wire, and the encoders.

use crate::ascii::{decimal, push_decimal, CR, LF};
use crate::model::views;
use vstd::prelude::*;

verus! {

/// `+`, which begins a simple string.
pub const SIMPLE: u8 = 43;

/// `:`, which begins an integer.
pub const INTEGER: u8 = 58;

/// `$`, which begins a bulk string.
pub const BULK: u8 = 36;

/// `*`, which begins an array.
pub const ARRAY: u8 = 42;

/// `\r\n`, which ends each part of a reply.
pub open spec fn crlf() -> Seq<u8> {
    seq![CR, LF]
}

/// `$-1\r\n`: the null bulk string, which stands for absence.
pub open spec fn nil_reply() -> Seq<u8> {
    seq![BULK, '-' as u8, '1' as u8, CR, LF]
}

/// `+OK\r\n`
pub open spec fn ok_reply() -> Seq<u8> {
    seq![SIMPLE, 'O' as u8, 'K' as u8, CR, LF]
}

/// `+PONG\r\n`
pub open spec fn pong_reply() -> Seq<u8> {
    seq![SIMPLE, 'P' as u8, 'O' as u8, 'N' as u8, 'G' as u8, CR, LF]
}

/// `:<n>\r\n`
pub open spec fn integer_reply(n: nat) -> Seq<u8> {
    seq![INTEGER] + decimal(n) + crlf()
}

/// `$<len>\r\n<bytes>\r\n`
pub open spec fn bulk_reply(value: Seq<u8>) -> Seq<u8> {
    seq![BULK] + decimal(value.len()) + crlf() + value + crlf()
}

/// The bulk strings of `values`, one after the other.
pub open spec fn bulk_replies(values: Seq<Seq<u8>>) -> Seq<u8>
    decreases values.len(),
{
    if values.len() == 0 {
        Seq::empty()
    } else {
        bulk_replies(values.drop_last()) + bulk_reply(values.last())
    }
}

/// One more value adds its bulk string at the end.
pub proof fn lemma_bulk_replies_push(values: Seq<Seq<u8>>, value: Seq<u8>)
    ensures
        bulk_replies(values.push(value)) == bulk_replies(values) + bulk_reply(value),
{
    assert(values.push(value).drop_last() =~= values);
}

/// `*<count>\r\n`, then each value as a bulk string.
pub open spec fn array_reply(values: Seq<Seq<u8>>) -> Seq<u8> {
    seq![ARRAY] + decimal(values.len()) + crlf() + bulk_replies(values)
}

/// The null bulk string.
pub fn nil() -> (reply: Vec<u8>)
    ensures
        reply@ == nil_reply(),
{
    let reply = vec![BULK, '-' as u8, '1' as u8, CR, LF];
    assert(reply@ =~= nil_reply());
    reply
}

/// The simple string `OK`.
pub fn ok() -> (reply: Vec<u8>)
    ensures
        reply@ == ok_reply(),
{
    let reply = vec![SIMPLE, 'O' as u8, 'K' as u8, CR, LF];
    assert(reply@ =~= ok_reply());
    reply
}

/// The simple string `PONG`.
pub fn pong() -> (reply: Vec<u8>)
    ensures
        reply@ == pong_reply(),
{
    let reply = vec![SIMPLE, 'P' as u8, 'O' as u8, 'N' as u8, 'G' as u8, CR, LF];
    assert(reply@ =~= pong_reply());
    reply
}

/// `n` as an integer reply.
pub fn integer(n: usize) -> (reply: Vec<u8>)
    ensures
        reply@ == integer_reply(n as nat),
{
    let mut reply: Vec<u8> = Vec::new();
    reply.push(INTEGER);
    push_decimal(&mut reply, n);
    reply.push(CR);
    reply.push(LF);
    assert(reply@ =~= integer_reply(n as nat));
    reply
}

/// Appends `value` as a bulk string to `out`.
pub fn push_bulk(out: &mut Vec<u8>, value: &[u8])
    ensures
        final(out)@ == old(out)@ + bulk_reply(value@),
{
    out.push(BULK);
    push_decimal(out, value.len());
    out.push(CR);
    out.push(LF);
    out.extend_from_slice(value);
    out.push(CR);
    out.push(LF);
    assert(final(out)@ =~= old(out)@ + bulk_reply(value@));
}

/// `value` as a bulk string.
pub fn bulk(value: &[u8]) -> (reply: Vec<u8>)
    ensures
        reply@ == bulk_reply(value@),
{
    let mut reply: Vec<u8> = Vec::new();
    push_bulk(&mut reply, value);
    assert(reply@ =~= bulk_reply(value@));
    reply
}

/// `values` as an array of bulk strings.
pub fn array(values: &Vec<Vec<u8>>) -> (reply: Vec<u8>)
    ensures
        reply@ == array_reply(views(values@)),
{
    let mut reply: Vec<u8> = Vec::new();
    reply.push(ARRAY);
    push_decimal(&mut reply, values.len());
    reply.push(CR);
    reply.push(LF);
    let ghost head = reply@;
    assert(head =~= seq![ARRAY] + decimal(values@.len()) + crlf());
    let ghost all = views(values@);
    let mut i: usize = 0;
    assert(all.take(0) =~= Seq::<Seq<u8>>::empty());
    while i < values.len()
        invariant
            i <= values@.len(),
            all == views(values@),
            reply@ == head + bulk_replies(all.take(i as int)),
        decreases values@.len() - i,
    {
        push_bulk(&mut reply, values[i].as_slice());
        proof {
            assert(all.take(i + 1).drop_last() =~= all.take(i as int));
            assert(all.take(i + 1).last() == values@[i as int]@);
            assert(reply@ =~= head + bulk_replies(all.take(i + 1)));
        }
        i += 1;
    }
    assert(all.take(i as int) =~= all);
    reply
}

/// How many decimal digits `number` takes.
pub fn num_of_digits(number: usize) -> (count: usize)
    ensures
        count == decimal(number as nat).len(),
        1 <= count <= 20,
{
    let mut count: usize = 1;
    let mut rest: usize = number;
    proof {
        lemma_decimal_len(number as nat, 20);
        assert(pow10(20) == 100000000000000000000nat) by {
            reveal_with_fuel(pow10, 21);
        }
    }
    while rest >= 10
        invariant
            1 <= count,
            count + decimal(rest as nat).len() == decimal(number as nat).len() + 1,
            decimal(number as nat).len() <= 20,
        decreases rest,
    {
        rest = rest / 10;
        count += 1;
    }
    count
}

/// `10` to the power `e`.
pub open spec fn pow10(e: nat) -> nat
    decreases e,
{
    if e == 0 {
        1
    } else {
        10 * pow10((e - 1) as nat)
    }
}

/// A number below `10^e` takes at most `e` digits.
pub proof fn lemma_decimal_len(n: nat, e: nat)
    requires
        e >= 1,
    ensures
        decimal(n).len() >= 1,
        n < pow10(e) ==> decimal(n).len() <= e,
    decreases n,
{
    if n >= 10 {
        if e >= 2 {
            lemma_decimal_len(n / 10, (e - 1) as nat);
        } else {
            lemma_decimal_len(n / 10, 1);
            assert(pow10(1) == 10) by {
                reveal_with_fuel(pow10, 2);
            }
        }
    }
}

/// The reply to a blocking pop that was served: the key and the value as an array of two bulk strings.
pub fn encode_response(key: Vec<u8>, value: Vec<u8>) -> (response: Vec<u8>)
    ensures
        response@ == array_reply(seq![key@, value@]),
{
    let key_length: usize = key.len();
    let value_length: usize = value.len();
    let mut response: Vec<u8> = match response_length(key_length, value_length) {
        Some(output_capacity) => Vec::with_capacity(output_capacity),
        None => Vec::new(),
    };
    response.push(ARRAY);
    response.push('2' as u8);
    response.push(CR);
    response.push(LF);
    push_bulk(&mut response, key.as_slice());
    push_bulk(&mut response, value.as_slice());
    proof {
        let both = seq![key@, value@];
        assert(decimal(2) =~= seq!['2' as u8]);
        lemma_bulk_replies_push(Seq::empty(), key@);
        lemma_bulk_replies_push(seq![key@], value@);
        assert(Seq::<Seq<u8>>::empty().push(key@) =~= seq![key@]);
        assert(seq![key@].push(value@) =~= both);
        assert(response@ =~= array_reply(both));
    }
    response
}

/// The length of the reply that `encode_response` writes, where it fits in `usize`.
fn response_length(key_length: usize, value_length: usize) -> (length: Option<usize>)
    ensures
        length == (if encoded_length(key_length as nat, value_length as nat) <= usize::MAX {
            Some(encoded_length(key_length as nat, value_length as nat) as usize)
        } else {
            None
        }),
{
    let fixed: usize = 1 + 1 + 2 + 1 + num_of_digits(key_length) + 2 + 2 + 1 + num_of_digits(
        value_length,
    ) + 2 + 2;
    match fixed.checked_add(key_length) {
        Some(with_key) => with_key.checked_add(value_length),
        None => None,
    }
}

/// The length of the array of two bulk strings whose bytes have the lengths `key_length` and
/// `value_length`: `*2\r\n`, then for each its mark, the digits of its length, `\r\n`, its
/// bytes and `\r\n`.
pub open spec fn encoded_length(key_length: nat, value_length: nat) -> nat {
    4 + (1 + decimal(key_length).len() + 2 + key_length + 2) + (1 + decimal(value_length).len()
        + 2 + value_length + 2)
}

} // verus!
