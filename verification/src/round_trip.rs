//! The decoder reads what the array encoder writes: a frame that is the array of the bulk
//! strings of some words decodes to these words.

use crate::ascii::{decimal, lemma_decimal_round_trip, CR, LF};
use crate::parser::{
    bulk_strings, decoded, is_bulk_string, next_crlf, segments, segments_from, ProtocolError,
};
use crate::resp::{array_reply, bulk_replies, crlf, ARRAY, BULK};
use vstd::prelude::*;

verus! {

/// Whether `s` holds no `\r\n`.
pub open spec fn no_crlf(s: Seq<u8>) -> bool {
    forall|i: int| 0 <= i && i + 1 < s.len() ==> !(#[trigger] s[i] == CR && s[i + 1] == LF)
}

/// The header of the bulk string `word`: `$` and the length of `word`.
pub open spec fn header(word: Seq<u8>) -> Seq<u8> {
    seq![BULK] + decimal(word.len())
}

/// The lines of the bulk strings of `words`: for each word its header, then the word.
pub open spec fn bulk_lines(words: Seq<Seq<u8>>) -> Seq<Seq<u8>> {
    Seq::new(
        2 * words.len(),
        |i: int|
            if i % 2 == 0 {
                header(words[i / 2])
            } else {
                words[i / 2]
            },
    )
}

/// A mark followed by the digits of a number holds no `\r\n`.
proof fn lemma_marked_number_no_crlf(mark: u8, n: nat)
    requires
        mark != CR,
    ensures
        no_crlf(seq![mark] + decimal(n)),
{
    lemma_decimal_round_trip(n);
    let s = seq![mark] + decimal(n);
    assert forall|i: int| 0 <= i && i + 1 < s.len() implies !(#[trigger] s[i] == CR && s[i + 1]
        == LF) by {
        if i > 0 {
            assert(s[i] == decimal(n)[i - 1]);
        }
    }
}

/// Behind a prefix, the next `\r\n` and the segments are those of what follows the prefix.
proof fn lemma_segments_shift(prefix: Seq<u8>, rest: Seq<u8>, from: int)
    requires
        0 <= from <= rest.len(),
    ensures
        next_crlf(prefix + rest, prefix.len() + from) == prefix.len() + next_crlf(rest, from),
        segments_from(prefix + rest, prefix.len() + from) == segments_from(rest, from),
    decreases rest.len() - from,
{
    let whole = prefix + rest;
    lemma_next_crlf_shift(prefix, rest, from);
    crate::parser::lemma_next_crlf(rest, from);
    let end = next_crlf(rest, from);
    assert(whole.subrange(prefix.len() + from, prefix.len() + end) =~= rest.subrange(from, end));
    if end < rest.len() {
        lemma_segments_shift(prefix, rest, end + 2);
    } else {
        assert(whole.subrange(prefix.len() + from, whole.len() as int) =~= rest.subrange(
            from,
            rest.len() as int,
        ));
    }
}

/// Behind a prefix, the next `\r\n` is where it is in what follows the prefix.
proof fn lemma_next_crlf_shift(prefix: Seq<u8>, rest: Seq<u8>, from: int)
    requires
        0 <= from <= rest.len(),
    ensures
        next_crlf(prefix + rest, prefix.len() + from) == prefix.len() + next_crlf(rest, from),
    decreases rest.len() - from,
{
    let whole = prefix + rest;
    if from + 1 >= rest.len() {
    } else {
        assert(whole[prefix.len() + from] == rest[from]);
        assert(whole[prefix.len() + from + 1] == rest[from + 1]);
        if rest[from] == CR && rest[from + 1] == LF {
        } else {
            lemma_next_crlf_shift(prefix, rest, from + 1);
        }
    }
}

/// The first `\r\n` behind a line without one is the one that ends the line.
proof fn lemma_first_crlf(line: Seq<u8>, rest: Seq<u8>, from: int)
    requires
        no_crlf(line),
        0 <= from <= line.len(),
    ensures
        next_crlf(line + crlf() + rest, from) == line.len(),
    decreases line.len() - from,
{
    let whole = line + crlf() + rest;
    assert(whole[line.len() as int] == CR);
    assert(whole[line.len() as int + 1] == LF);
    if from < line.len() {
        assert(whole[from] == line[from]);
        if from + 1 < line.len() {
            assert(whole[from + 1] == line[from + 1]);
        }
        lemma_first_crlf(line, rest, from + 1);
    }
}

/// A line without `\r\n`, the `\r\n` that ends it, and more: the line is the first segment.
proof fn lemma_segments_line(line: Seq<u8>, rest: Seq<u8>)
    requires
        no_crlf(line),
    ensures
        segments(line + crlf() + rest) == seq![line] + segments(rest),
{
    let whole = line + crlf() + rest;
    lemma_first_crlf(line, rest, 0);
    lemma_segments_shift(line + crlf(), rest, 0);
    assert(whole.subrange(0, line.len() as int) =~= line);
}

/// The bulk strings of words without `\r\n`, and more: the segments are the lines of the bulk
/// strings, then those of what follows.
proof fn lemma_segments_bulk_replies(words: Seq<Seq<u8>>, rest: Seq<u8>)
    requires
        forall|i: int| 0 <= i < words.len() ==> no_crlf(#[trigger] words[i]),
    ensures
        segments(bulk_replies(words) + rest) == bulk_lines(words) + segments(rest),
    decreases words.len(),
{
    if words.len() == 0 {
        assert(bulk_replies(words) + rest =~= rest);
        assert(bulk_lines(words) + segments(rest) =~= segments(rest));
    } else {
        let word = words.last();
        let front = words.drop_last();
        let tail = word + crlf() + rest;
        assert(bulk_replies(words) + rest =~= bulk_replies(front) + (header(word) + crlf()
            + tail));
        assert(no_crlf(word));
        assert forall|i: int| 0 <= i < front.len() implies no_crlf(#[trigger] front[i]) by {
            assert(front[i] == words[i]);
        }
        lemma_segments_bulk_replies(front, header(word) + crlf() + tail);
        lemma_marked_number_no_crlf(BULK, word.len());
        lemma_segments_line(header(word), tail);
        lemma_segments_line(word, rest);
        assert(bulk_lines(words) =~= bulk_lines(front) + seq![header(word), word]) by {
            assert forall|i: int| 0 <= i < 2 * front.len() implies bulk_lines(words)[i]
                == bulk_lines(front)[i] by {
                assert(front[i / 2] == words[i / 2]);
            }
            assert((2 * front.len()) / 2 == front.len() && (2 * front.len()) % 2 == 0);
            assert((2 * front.len() + 1) / 2 == front.len() && (2 * front.len() + 1) % 2
                == 1);
        }
        assert(bulk_lines(front) + (seq![header(word)] + (seq![word] + segments(rest)))
            =~= bulk_lines(words) + segments(rest));
    }
}

/// A frame that is written as the array of the bulk strings of `words` decodes to the first
/// word as the name of the command and the other words as its arguments. The words hold no
/// `\r\n`, at which a frame is cut.
pub proof fn lemma_frame_round_trip(words: Seq<Seq<u8>>)
    requires
        1 <= words.len() <= usize::MAX,
        forall|i: int| 0 <= i < words.len() ==> no_crlf(#[trigger] words[i]),
    ensures
        decoded(array_reply(words)) == Ok::<(Seq<u8>, Seq<Seq<u8>>), ProtocolError>(
            (words[0], words.skip(1)),
        ),
{
    let first = seq![ARRAY] + decimal(words.len());
    let frame = array_reply(words);
    let lines = segments(frame);
    lemma_marked_number_no_crlf(ARRAY, words.len());
    lemma_segments_line(first, bulk_replies(words));
    lemma_segments_bulk_replies(words, Seq::empty());
    assert(bulk_replies(words) + Seq::<u8>::empty() =~= bulk_replies(words));
    assert(segments(Seq::<u8>::empty()) =~= seq![Seq::<u8>::empty()]) by {
        let nothing = Seq::<u8>::empty();
        assert(next_crlf(nothing, 0) == 0);
        assert(nothing.subrange(0, 0) =~= nothing);
        assert(segments_from(nothing, 0) =~= seq![nothing.subrange(0, 0)]);
    }
    assert(lines =~= seq![first] + (bulk_lines(words) + seq![Seq::<u8>::empty()]));
    assert(lines[0] == first);
    assert(first.skip(1) =~= decimal(words.len()));
    lemma_decimal_round_trip(words.len());
    assert forall|i: int| 0 <= i < words.len() implies is_bulk_string(
        #[trigger] lines[1 + 2 * i],
        lines[2 + 2 * i],
    ) by {
        assert(lines[1 + 2 * i] == bulk_lines(words)[2 * i]);
        assert(lines[2 + 2 * i] == bulk_lines(words)[2 * i + 1]);
        assert((2 * i) / 2 == i && (2 * i) % 2 == 0);
        assert((2 * i + 1) / 2 == i && (2 * i + 1) % 2 == 1);
        assert(header(words[i]).skip(1) =~= decimal(words[i].len()));
        lemma_decimal_round_trip(words[i].len());
    }
    assert(bulk_strings(lines, words.len() as int));
    assert(lines[2] == bulk_lines(words)[1]);
    assert(1int / 2 == 0 && 1int % 2 == 1);
    assert(Seq::new((words.len() - 1) as nat, |i: int| lines[4 + 2 * i]) =~= words.skip(1)) by {
        assert forall|i: int| 0 <= i < words.len() - 1 implies lines[4 + 2 * i] == words.skip(
            1,
        )[i] by {
            assert(lines[4 + 2 * i] == bulk_lines(words)[2 * i + 3]);
            assert((2 * i + 3) / 2 == i + 1 && (2 * i + 3) % 2 == 1);
        }
    }
}

} // verus!
