use resp_kv::ascii::{bytes_eq, eq_ignore_ascii_case, parse_isize, parse_u64, parse_usize, push_decimal, to_bytes};
use resp_kv::parser::{
    command_name, decode, parse_bulk_string, redis_parser, split_segments, CommandName,
    ParseError, ProtocolError,
};
use resp_kv::command::{InvalidArguments, Request};
use resp_kv::resp::{array, bulk, encode_response, integer, nil, num_of_digits, ok, pong, push_bulk};

#[test]
fn unsigned_decimals_are_read() {
    assert_eq!(parse_u64(b"0"), Some(0));
    assert_eq!(parse_u64(b"42"), Some(42));
    assert_eq!(parse_u64(b"+42"), Some(42));
    assert_eq!(parse_u64(b"0000000000000000000000000000017"), Some(17));
    assert_eq!(parse_u64(b"18446744073709551615"), Some(u64::MAX));
    assert_eq!(parse_usize(b"512"), Some(512));
}

#[test]
fn what_is_no_unsigned_decimal_is_refused() {
    assert_eq!(parse_u64(b""), None);
    assert_eq!(parse_u64(b"+"), None);
    assert_eq!(parse_u64(b"-1"), None);
    assert_eq!(parse_u64(b"-0"), None);
    assert_eq!(parse_u64(b"1 "), None);
    assert_eq!(parse_u64(b" 1"), None);
    assert_eq!(parse_u64(b"1a"), None);
    assert_eq!(parse_u64(b"++1"), None);
    assert_eq!(parse_u64(b"18446744073709551616"), None);
    assert_eq!(parse_u64(b"99999999999999999999999"), None);
    assert_eq!(parse_usize(b"x"), None);
}

#[test]
fn signed_decimals_are_read() {
    assert_eq!(parse_isize(b"0"), Some(0));
    assert_eq!(parse_isize(b"-0"), Some(0));
    assert_eq!(parse_isize(b"-1"), Some(-1));
    assert_eq!(parse_isize(b"+7"), Some(7));
    assert_eq!(parse_isize(b"-007"), Some(-7));
    assert_eq!(parse_isize(isize::MAX.to_string().as_bytes()), Some(isize::MAX));
    assert_eq!(parse_isize(isize::MIN.to_string().as_bytes()), Some(isize::MIN));
}

#[test]
fn what_is_no_signed_decimal_is_refused() {
    assert_eq!(parse_isize(b""), None);
    assert_eq!(parse_isize(b"-"), None);
    assert_eq!(parse_isize(b"+"), None);
    assert_eq!(parse_isize(b"--1"), None);
    assert_eq!(parse_isize(b"+-1"), None);
    assert_eq!(parse_isize(b"1.5"), None);
    assert_eq!(parse_isize(b"9223372036854775808"), None);
    assert_eq!(parse_isize(b"-9223372036854775809"), None);
}

#[test]
fn reading_agrees_with_the_standard_library() {
    let texts: [&str; 12] =
        ["0", "+0", "-0", "12", "+12", "-12", "", "+", "-", "1_000", "0x10", "٣"];
    for text in texts {
        assert_eq!(parse_u64(text.as_bytes()), text.parse::<u64>().ok(), "{:?}", text);
        assert_eq!(parse_usize(text.as_bytes()), text.parse::<usize>().ok(), "{:?}", text);
        assert_eq!(parse_isize(text.as_bytes()), text.parse::<isize>().ok(), "{:?}", text);
    }
}

#[test]
fn decimals_are_written() {
    let mut out = b"n=".to_vec();
    push_decimal(&mut out, 0);
    out.push(b',');
    push_decimal(&mut out, 7);
    out.push(b',');
    push_decimal(&mut out, 10);
    out.push(b',');
    push_decimal(&mut out, 1234567890);
    assert_eq!(out, b"n=0,7,10,1234567890".to_vec());
    let mut out = Vec::new();
    push_decimal(&mut out, usize::MAX);
    assert_eq!(out, usize::MAX.to_string().into_bytes());
}

#[test]
fn written_decimals_are_read_back() {
    for n in [0usize, 1, 9, 10, 99, 100, 65535, usize::MAX] {
        let mut out = Vec::new();
        push_decimal(&mut out, n);
        assert_eq!(parse_usize(&out), Some(n));
    }
}

#[test]
fn digits_are_counted() {
    assert_eq!(num_of_digits(0), 1);
    assert_eq!(num_of_digits(9), 1);
    assert_eq!(num_of_digits(10), 2);
    assert_eq!(num_of_digits(99), 2);
    assert_eq!(num_of_digits(100), 3);
    assert_eq!(num_of_digits(usize::MAX), usize::MAX.to_string().len());
}

#[test]
fn names_are_told_apart_whatever_their_case() {
    assert!(eq_ignore_ascii_case(b"PiNg", b"ping"));
    assert!(eq_ignore_ascii_case(b"", b""));
    assert!(!eq_ignore_ascii_case(b"ping", b"pong"));
    assert!(!eq_ignore_ascii_case(b"ping", b"pin"));
    // `@` and `[` stand next to the capital letters and are no letters.
    assert!(!eq_ignore_ascii_case(b"@", b"`"));
    assert!(!eq_ignore_ascii_case(b"[", b"{"));
    assert!(bytes_eq(b"abc", b"abc"));
    assert!(!bytes_eq(b"abc", b"abC"));
    assert!(!bytes_eq(b"abc", b"ab"));
    assert_eq!(to_bytes(b"abc"), b"abc".to_vec());
}

#[test]
fn replies_are_encoded() {
    assert_eq!(nil(), b"$-1\r\n".to_vec());
    assert_eq!(ok(), b"+OK\r\n".to_vec());
    assert_eq!(pong(), b"+PONG\r\n".to_vec());
    assert_eq!(integer(0), b":0\r\n".to_vec());
    assert_eq!(integer(1234), b":1234\r\n".to_vec());
    assert_eq!(bulk(b""), b"$0\r\n\r\n".to_vec());
    assert_eq!(bulk(b"hello world"), b"$11\r\nhello world\r\n".to_vec());
    assert_eq!(bulk(b"a\r\nb"), b"$4\r\na\r\nb\r\n".to_vec());
    assert_eq!(array(&vec![]), b"*0\r\n".to_vec());
    assert_eq!(
        array(&vec![b"a".to_vec(), b"".to_vec(), b"ccc".to_vec()]),
        b"*3\r\n$1\r\na\r\n$0\r\n\r\n$3\r\nccc\r\n".to_vec()
    );
    let mut out = b"*1\r\n".to_vec();
    push_bulk(&mut out, b"x");
    assert_eq!(out, b"*1\r\n$1\r\nx\r\n".to_vec());
}

#[test]
fn a_served_blocking_pop_is_encoded() {
    assert_eq!(
        encode_response(b"Q".to_vec(), b"x".to_vec()),
        b"*2\r\n$1\r\nQ\r\n$1\r\nx\r\n".to_vec()
    );
    assert_eq!(
        encode_response(b"queue:jobs".to_vec(), b"0123456789ab".to_vec()),
        b"*2\r\n$10\r\nqueue:jobs\r\n$12\r\n0123456789ab\r\n".to_vec()
    );
    assert_eq!(encode_response(Vec::new(), Vec::new()), b"*2\r\n$0\r\n\r\n$0\r\n\r\n".to_vec());
}

#[test]
fn frames_are_cut_at_each_crlf() {
    let empty: Vec<&[u8]> = vec![b""];
    assert_eq!(split_segments(b""), empty);
    let whole: Vec<&[u8]> = vec![b"abc"];
    assert_eq!(split_segments(b"abc"), whole);
    let lines: Vec<&[u8]> = vec![b"*1", b"$4", b"PING", b""];
    assert_eq!(split_segments(b"*1\r\n$4\r\nPING\r\n"), lines);
    let lone: Vec<&[u8]> = vec![b"a\rb\nc", b"\r", b"\n", b"", b"d"];
    assert_eq!(split_segments(b"a\rb\nc\r\n\r\r\n\n\r\n\r\nd"), lone);
    let twice: Vec<&[u8]> = vec![b"", b"", b""];
    assert_eq!(split_segments(b"\r\n\r\n"), twice);
}

#[test]
fn cutting_agrees_with_the_standard_library() {
    let frames: [&str; 8] =
        ["", "\r", "\n", "\r\n", "\n\r", "\r\r\n", "a\r\nb", "*1\r\n$4\r\nPING\r\n"];
    for frame in frames {
        let expected: Vec<&[u8]> = frame.split("\r\n").map(|line| line.as_bytes()).collect();
        assert_eq!(split_segments(frame.as_bytes()), expected, "{:?}", frame);
    }
}

#[test]
fn a_bulk_string_must_have_its_length_in_its_header() {
    assert_eq!(parse_bulk_string(b"$3", b"hey"), Ok(&b"hey"[..]));
    assert_eq!(parse_bulk_string(b"$0", b""), Ok(&b""[..]));
    assert_eq!(parse_bulk_string(b"$+3", b"hey"), Ok(&b"hey"[..]));
    assert_eq!(parse_bulk_string(b"$4", b"hey"), Err(ProtocolError::LengthMismatch));
    assert_eq!(parse_bulk_string(b"3", b"hey"), Err(ProtocolError::LengthMismatch));
    assert_eq!(parse_bulk_string(b"", b""), Err(ProtocolError::LengthMismatch));
    assert_eq!(parse_bulk_string(b"$", b""), Err(ProtocolError::LengthMismatch));
    assert_eq!(parse_bulk_string(b"$x", b"h"), Err(ProtocolError::LengthMismatch));
    assert_eq!(parse_bulk_string(b"$-1", b""), Err(ProtocolError::LengthMismatch));
    // The length counts bytes, not characters.
    assert_eq!(parse_bulk_string(b"$2", "é".as_bytes()), Ok("é".as_bytes()));
}

#[test]
fn a_frame_decodes_to_its_name_and_arguments() {
    let ping = decode(b"*1\r\n$4\r\nPING\r\n").unwrap();
    assert_eq!(ping.name, b"PING");
    assert!(ping.arguments.is_empty());

    let set = decode(b"*5\r\n$3\r\nSET\r\n$1\r\nk\r\n$0\r\n\r\n$2\r\nPX\r\n$3\r\n100\r\n").unwrap();
    assert_eq!(set.name, b"SET");
    let arguments: Vec<&[u8]> = vec![b"k", b"", b"PX", b"100"];
    assert_eq!(set.arguments, arguments);
}

#[test]
fn an_array_of_bulk_strings_decodes_to_its_words() {
    let sessions: [&[&str]; 5] = [
        &["PING"],
        &["ECHO", ""],
        &["SET", "key", "a value with spaces", "px", "100"],
        &["RPUSH", "L", "lone\rreturn", "lone\nfeed", "\n\r", "$3", "*1"],
        &["", "", ""],
    ];
    for words in sessions {
        let owned: Vec<Vec<u8>> = words.iter().map(|word| word.as_bytes().to_vec()).collect();
        let frame = array(&owned);
        let command = decode(&frame).unwrap();
        assert_eq!(command.name, words[0].as_bytes());
        let arguments: Vec<&[u8]> = words[1..].iter().map(|word| word.as_bytes()).collect();
        assert_eq!(command.arguments, arguments);
    }
}

#[test]
fn what_follows_the_announced_bulk_strings_is_left_alone() {
    let ping = decode(b"*1\r\n$4\r\nPING\r\n$3\r\nhey\r\nrest").unwrap();
    assert_eq!(ping.name, b"PING");
    assert!(ping.arguments.is_empty());
}

#[test]
fn a_frame_without_star_misses_its_argument_count() {
    assert_eq!(decode(b"").err(), Some(ProtocolError::MissingArgumentCount));
    assert_eq!(decode(b"PING\r\n").err(), Some(ProtocolError::MissingArgumentCount));
    assert_eq!(decode(b"$4\r\nPING\r\n").err(), Some(ProtocolError::MissingArgumentCount));
    assert_eq!(decode(b"\r\n*1\r\n$4\r\nPING\r\n").err(), Some(ProtocolError::MissingArgumentCount));
}

#[test]
fn a_count_that_is_no_unsigned_integer_is_invalid() {
    assert_eq!(decode(b"*\r\n").err(), Some(ProtocolError::InvalidCount));
    assert_eq!(decode(b"*x\r\n$4\r\nPING\r\n").err(), Some(ProtocolError::InvalidCount));
    assert_eq!(decode(b"*-1\r\n").err(), Some(ProtocolError::InvalidCount));
    assert_eq!(decode(b"*1 \r\n$4\r\nPING\r\n").err(), Some(ProtocolError::InvalidCount));
    assert_eq!(
        decode(b"*99999999999999999999999999\r\n$4\r\nPING\r\n").err(),
        Some(ProtocolError::InvalidCount)
    );
    // Without `\r\n` the whole frame is the count.
    assert_eq!(decode(b"*1\n$4\nPING\n").err(), Some(ProtocolError::InvalidCount));
}

#[test]
fn a_frame_that_holds_less_than_it_announces_is_incomplete() {
    assert_eq!(decode(b"*1").err(), Some(ProtocolError::Incomplete));
    assert_eq!(decode(b"*1\r\n").err(), Some(ProtocolError::Incomplete));
    assert_eq!(decode(b"*1\r\n$4").err(), Some(ProtocolError::Incomplete));
    assert_eq!(decode(b"*2\r\n$4\r\nECHO\r\n").err(), Some(ProtocolError::Incomplete));
    assert_eq!(decode(b"*2\r\n$4\r\nECHO\r\n$3").err(), Some(ProtocolError::Incomplete));
    assert_eq!(decode(b"*0\r\n").err(), Some(ProtocolError::Incomplete));
    assert_eq!(decode(b"*0\r\n$4\r\nPING\r\n").err(), Some(ProtocolError::Incomplete));
    let huge = format!("*{}\r\n$4\r\nPING\r\n", usize::MAX);
    assert_eq!(decode(huge.as_bytes()).err(), Some(ProtocolError::Incomplete));
}

#[test]
fn a_header_that_does_not_fit_its_bytes_is_a_length_mismatch() {
    assert_eq!(decode(b"*1\r\n$3\r\nPING\r\n").err(), Some(ProtocolError::LengthMismatch));
    assert_eq!(decode(b"*1\r\n4\r\nPING\r\n").err(), Some(ProtocolError::LengthMismatch));
    assert_eq!(
        decode(b"*2\r\n$4\r\nECHO\r\n$9\r\nhey\r\n").err(),
        Some(ProtocolError::LengthMismatch)
    );
    // Bytes that hold `\r\n` are cut in two, and neither piece has the announced length.
    assert_eq!(
        decode(b"*2\r\n$4\r\nECHO\r\n$4\r\na\r\nb\r\n").err(),
        Some(ProtocolError::LengthMismatch)
    );
    // All the announced bulk strings are checked, also those that no builder would take.
    assert_eq!(
        decode(b"*2\r\n$4\r\nPING\r\n$1\r\nxx\r\n").err(),
        Some(ProtocolError::LengthMismatch)
    );
}

#[test]
fn the_first_broken_rule_is_reported() {
    // No star and a bad count: the star comes first.
    assert_eq!(decode(b"x\r\n$3\r\nPING\r\n").err(), Some(ProtocolError::MissingArgumentCount));
    // Too few lines and a bad header: the lines come first.
    assert_eq!(decode(b"*2\r\n$3\r\nECHO\r\n").err(), Some(ProtocolError::Incomplete));
}

#[test]
fn protocol_errors_have_messages() {
    assert_eq!(ProtocolError::MissingArgumentCount.message(), "missing argument count");
    assert_eq!(ProtocolError::InvalidCount.message(), "invalid count");
    assert_eq!(ProtocolError::Incomplete.message(), "incomplete");
    assert_eq!(ProtocolError::LengthMismatch.message(), "length mismatch");
}

#[test]
fn commands_are_named_in_any_case() {
    assert_eq!(command_name(b"ping"), Some(CommandName::Ping));
    assert_eq!(command_name(b"PING"), Some(CommandName::Ping));
    assert_eq!(command_name(b"Echo"), Some(CommandName::Echo));
    assert_eq!(command_name(b"sEt"), Some(CommandName::SetKey));
    assert_eq!(command_name(b"GET"), Some(CommandName::Get));
    assert_eq!(command_name(b"rpush"), Some(CommandName::RPush));
    assert_eq!(command_name(b"LPUSH"), Some(CommandName::LPush));
    assert_eq!(command_name(b"LRange"), Some(CommandName::LRange));
    assert_eq!(command_name(b"llen"), Some(CommandName::LLen));
    assert_eq!(command_name(b"LPOP"), Some(CommandName::LPop));
    assert_eq!(command_name(b"BLPOP"), Some(CommandName::BLPop));
    assert_eq!(command_name(b""), None);
    assert_eq!(command_name(b"pin"), None);
    assert_eq!(command_name(b"pings"), None);
    assert_eq!(command_name(b"del"), None);
}

#[test]
fn a_frame_is_parsed_into_the_request_of_its_command() {
    assert!(matches!(redis_parser(b"*1\r\n$4\r\nping\r\n", 0), Ok(Request::Ping(_))));
    match redis_parser(b"*2\r\n$4\r\nEcho\r\n$3\r\nhey\r\n", 0) {
        Ok(Request::Echo(echo)) => assert_eq!(echo.body, b"hey".to_vec()),
        other => panic!("{:?}", other),
    }
    match redis_parser(b"*2\r\n$3\r\nGET\r\n$1\r\nk\r\n", 77) {
        Ok(Request::Get(get)) => {
            assert_eq!(get.key, b"k".to_vec());
            assert_eq!(get.current_time, 77);
        }
        other => panic!("{:?}", other),
    }
    match redis_parser(b"*5\r\n$3\r\nset\r\n$1\r\nk\r\n$1\r\nv\r\n$2\r\npx\r\n$3\r\n100\r\n", 1_000) {
        Ok(Request::SetKey(set)) => {
            assert_eq!(set.key, b"k".to_vec());
            assert_eq!(set.value, b"v".to_vec());
            assert_eq!(set.calculated_expiry, Some(1_100));
        }
        other => panic!("{:?}", other),
    }
    match redis_parser(b"*4\r\n$5\r\nLPUSH\r\n$1\r\nL\r\n$1\r\na\r\n$1\r\nb\r\n", 0) {
        Ok(Request::LPush(push)) => {
            assert_eq!(push.key, b"L".to_vec());
            assert_eq!(push.values, vec![b"b".to_vec(), b"a".to_vec()]);
        }
        other => panic!("{:?}", other),
    }
    match redis_parser(b"*3\r\n$5\r\nBLPOP\r\n$1\r\nQ\r\n$2\r\n30\r\n", 0) {
        Ok(Request::BLPop(pop)) => {
            assert_eq!(pop.key, b"Q".to_vec());
            assert_eq!(pop.timeout, Some(30));
        }
        other => panic!("{:?}", other),
    }
}

#[test]
fn a_frame_that_gives_no_request_says_why() {
    assert_eq!(
        redis_parser(b"*1\r\n$3\r\nPING\r\n", 0).err(),
        Some(ParseError::Protocol(ProtocolError::LengthMismatch))
    );
    assert_eq!(redis_parser(b"*1\r\n$4\r\nQUIT\r\n", 0).err(), Some(ParseError::UnknownCommand));
    assert_eq!(
        redis_parser(b"*2\r\n$4\r\nPING\r\n$1\r\nx\r\n", 0).err(),
        Some(ParseError::InvalidArguments(InvalidArguments::ExpectedNoArguments))
    );
    assert_eq!(
        redis_parser(b"*1\r\n$3\r\nGET\r\n", 0).err(),
        Some(ParseError::InvalidArguments(InvalidArguments::ExpectedSingleArgument))
    );
}
