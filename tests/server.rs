use redis_lite::decoder::{DecodeError, Decoder};
use redis_lite::instruction::{Instruction, InstructionName, Response};
use redis_lite::number::{parse_u64, push_decimal};
use redis_lite::session::Session;
use redis_lite::storage::Storage;

/// Feeds a byte stream through a decoder and a session, collecting each reply.
fn run(
    decoder: &mut Decoder,
    session: &mut Session,
    storage: &mut Storage,
    config: &Storage,
    input: &[u8],
) -> Vec<Response> {
    let mut out = Vec::new();
    for &b in input {
        if let Some(line) = decoder.push(b).expect("line fits") {
            if let Some(resp) = session.on_line(&line, storage, config) {
                out.push(resp);
            }
        }
    }
    out
}

fn replies(input: &[u8]) -> Vec<Vec<u8>> {
    let mut decoder = Decoder::new(64);
    let mut session = Session::new();
    let mut storage = Storage::new();
    let config = Storage::new();
    run(&mut decoder, &mut session, &mut storage, &config, input)
        .into_iter()
        .map(|r| r.bytes)
        .collect()
}

fn sample_config() -> Storage {
    let mut config = Storage::new();
    config.insert(b"dir", b"/tmp/redis-files");
    config.insert(b"dbfilename", b"dump.rdb");
    config
}

#[test]
fn scenario_ping_echo_set_get_expiry() {
    let mut decoder = Decoder::new(64);
    let mut session = Session::new();
    let mut storage = Storage::new();
    let config = Storage::new();
    let mut go = |input: &[u8], storage: &mut Storage| {
        run(&mut decoder, &mut session, storage, &config, input)
    };
    let r = go(b"*1\r\nPING\r\n", &mut storage);
    assert_eq!(r.len(), 1);
    assert_eq!(r[0].bytes, b"+PONG\r\n".to_vec());
    let r = go(b"*2\r\nECHO\r\nhello\r\n", &mut storage);
    assert_eq!(r[0].bytes, b"+hello\r\n".to_vec());
    let r = go(b"*3\r\nSET\r\nfoo\r\nbar\r\n", &mut storage);
    assert_eq!(r[0].bytes, b"+OK\r\n".to_vec());
    assert!(r[0].expiry.is_none());
    let r = go(b"*2\r\nGET\r\nfoo\r\n", &mut storage);
    assert_eq!(r[0].bytes, b"+bar\r\n".to_vec());
    let r = go(b"*5\r\nSET\r\nk\r\nv\r\npx\r\n50\r\n", &mut storage);
    assert_eq!(r[0].bytes, b"+OK\r\n".to_vec());
    let exp = r[0].expiry.as_ref().expect("expiry scheduled");
    assert_eq!(exp.key, b"k".to_vec());
    assert_eq!(exp.delay_ms, 50);
    let r = go(b"*2\r\nGET\r\nk\r\n", &mut storage);
    assert_eq!(r[0].bytes, b"+v\r\n".to_vec());
    // the expiry worker removes the key once the delay has passed
    storage.remove(&exp.key);
    let r = go(b"*2\r\nGET\r\nk\r\n", &mut storage);
    assert_eq!(r[0].bytes, b"$-1\r\n".to_vec());
}

#[test]
fn bulk_length_lines_are_ignored() {
    let r = replies(b"*2\r\n$4\r\nECHO\r\n$3\r\nhey\r\n");
    assert_eq!(r, vec![b"+hey\r\n".to_vec()]);
}

#[test]
fn set_then_get_returns_value() {
    let r = replies(b"*3\r\nSET\r\nkey\r\nvalue\r\n*2\r\nGET\r\nkey\r\n");
    assert_eq!(r, vec![b"+OK\r\n".to_vec(), b"+value\r\n".to_vec()]);
}

#[test]
fn get_of_unwritten_key_is_null() {
    let r = replies(b"*2\r\nGET\r\nmissing\r\n");
    assert_eq!(r, vec![b"$-1\r\n".to_vec()]);
}

#[test]
fn ping_after_other_commands() {
    let r = replies(b"*3\r\nSET\r\na\r\nb\r\n*1\r\nPING\r\n*2\r\nECHO\r\nx\r\n*1\r\nPING\r\n");
    assert_eq!(r[1], b"+PONG\r\n".to_vec());
    assert_eq!(r[3], b"+PONG\r\n".to_vec());
}

#[test]
fn echo_returns_text() {
    let r = replies(b"*2\r\nECHO\r\nhello world\r\n");
    assert_eq!(r, vec![b"+hello world\r\n".to_vec()]);
}

#[test]
fn command_names_ignore_case_and_whitespace() {
    let r = replies(b"*1\r\n ping \r\n*2\r\neChO\r\nabc\r\n");
    assert_eq!(r, vec![b"+PONG\r\n".to_vec(), b"+abc\r\n".to_vec()]);
}

#[test]
fn unknown_command_is_dropped() {
    let r = replies(b"*1\r\nFLUSHALL\r\n*1\r\nPING\r\n");
    assert_eq!(r, vec![b"+PONG\r\n".to_vec()]);
}

#[test]
fn set_then_set_keeps_last_value() {
    let r = replies(b"*3\r\nSET\r\nk\r\none\r\n*3\r\nSET\r\nk\r\ntwo\r\n*2\r\nGET\r\nk\r\n");
    assert_eq!(r[2], b"+two\r\n".to_vec());
}

#[test]
fn set_with_bad_expiry_is_an_error_and_writes_nothing() {
    let r = replies(b"*5\r\nSET\r\nk\r\nv\r\npx\r\nsoon\r\n*2\r\nGET\r\nk\r\n");
    assert_eq!(r, vec![b"-ERR invalid expire time\r\n".to_vec(), b"$-1\r\n".to_vec()]);
}

#[test]
fn set_expiry_delay_is_trimmed_and_may_carry_plus() {
    let mut decoder = Decoder::new(64);
    let mut session = Session::new();
    let mut storage = Storage::new();
    let config = Storage::new();
    let r = run(&mut decoder, &mut session, &mut storage, &config, b"*5\r\nSET\r\nk\r\nv\r\npx\r\n +120 \r\n");
    assert_eq!(r[0].expiry.as_ref().map(|e| e.delay_ms), Some(120));
}

#[test]
fn set_px_is_case_sensitive() {
    let mut decoder = Decoder::new(64);
    let mut session = Session::new();
    let mut storage = Storage::new();
    let config = Storage::new();
    let r = run(&mut decoder, &mut session, &mut storage, &config, b"*5\r\nSET\r\nk\r\nv\r\nPX\r\n100\r\n");
    assert_eq!(r[0].bytes, b"+OK\r\n".to_vec());
    assert!(r[0].expiry.is_none());
    assert_eq!(storage.get(b"k").cloned(), Some(b"v".to_vec()));
}

#[test]
fn config_get_known_key() {
    let mut decoder = Decoder::new(64);
    let mut session = Session::new();
    let mut storage = Storage::new();
    let config = sample_config();
    let r = run(&mut decoder, &mut session, &mut storage, &config, b"*3\r\nCONFIG\r\nGET\r\ndir\r\n");
    assert_eq!(r[0].bytes, b"*2\r\n$3\r\ndir\r\n$16\r\n/tmp/redis-files\r\n".to_vec());
}

#[test]
fn config_get_unknown_key_is_empty_array() {
    let mut decoder = Decoder::new(64);
    let mut session = Session::new();
    let mut storage = Storage::new();
    let config = sample_config();
    let r = run(&mut decoder, &mut session, &mut storage, &config, b"*3\r\nCONFIG\r\nGET\r\nport\r\n");
    assert_eq!(r[0].bytes, b"*0\r\n".to_vec());
}

#[test]
fn serialize_resp_lists_pairs_in_order() {
    let config = sample_config();
    assert_eq!(
        Instruction::serialize_resp(&config),
        b"*4\r\n$3\r\ndir\r\n$16\r\n/tmp/redis-files\r\n$10\r\ndbfilename\r\n$8\r\ndump.rdb\r\n".to_vec()
    );
    assert_eq!(Instruction::serialize_resp(&Storage::new()), b"*0\r\n".to_vec());
}

#[test]
fn decoder_splits_lines_at_crlf() {
    let mut d = Decoder::new(16);
    assert_eq!(d.push(b'a'), Ok(None));
    assert_eq!(d.push(b'\r'), Ok(None));
    assert_eq!(d.push(b'b'), Ok(None));
    assert_eq!(d.push(b'\r'), Ok(None));
    assert_eq!(d.push(b'\n'), Ok(Some(b"a\rb".to_vec())));
    assert_eq!(d.push(b'\r'), Ok(None));
    assert_eq!(d.push(b'\n'), Ok(Some(Vec::new())));
}

#[test]
fn decoder_refuses_overlong_line() {
    let mut d = Decoder::new(4);
    for &b in b"abcd" {
        assert_eq!(d.push(b), Ok(None));
    }
    assert_eq!(d.push(b'e'), Err(DecodeError::LineTooLong));
    // the buffer starts over after the refusal
    assert_eq!(d.push(b'x'), Ok(None));
    assert_eq!(d.push(b'\r'), Ok(None));
    assert_eq!(d.push(b'\n'), Ok(Some(b"x".to_vec())));
}

#[test]
fn decoder_line_may_fill_buffer_exactly() {
    let mut d = Decoder::new(4);
    assert_eq!(d.push(b'o'), Ok(None));
    assert_eq!(d.push(b'k'), Ok(None));
    assert_eq!(d.push(b'\r'), Ok(None));
    assert_eq!(d.push(b'\n'), Ok(Some(b"ok".to_vec())));
}

#[test]
fn instruction_readiness_follows_declared_count() {
    let mut i = Instruction::new();
    i.parse_args_length("*3");
    assert!(!i.is_ready());
    i.parse_command("set");
    assert!(i.has_name());
    assert!(!i.is_ready());
    i.parse_argument("foo");
    assert!(!i.is_ready());
    i.parse_argument("bar");
    assert!(i.is_ready());
    i.clear();
    assert!(!i.has_name());
    assert!(!i.is_ready());
}

#[test]
fn instruction_bad_count_is_ignored() {
    let mut i = Instruction::new();
    i.parse_args_length("*2");
    i.parse_args_length("*x");
    i.parse_command("ECHO");
    assert!(!i.is_ready());
    i.parse_argument("hi");
    assert!(i.is_ready());
}

#[test]
fn instruction_chained_calls() {
    let mut i = Instruction::new();
    i.parse_args_length("*2").parse_command("ECHO").parse_argument("chained");
    let mut storage = Storage::new();
    let config = Storage::new();
    let r = i.make_response(&mut storage, &config);
    assert_eq!(r.bytes, b"+chained\r\n".to_vec());
}

#[test]
fn instruction_make_response_set_and_get() {
    let mut storage = Storage::new();
    let config = Storage::new();
    let mut set = Instruction::new();
    set.parse_args_length("*5").parse_command("SET").parse_argument("k").parse_argument("v");
    set.parse_argument("px").parse_argument("7");
    let r = set.make_response(&mut storage, &config);
    assert_eq!(r.bytes, b"+OK\r\n".to_vec());
    let e = r.expiry.expect("expiry");
    assert_eq!((e.key, e.delay_ms), (b"k".to_vec(), 7));
    let mut get = Instruction::new();
    get.parse_args_length("*2").parse_command("get").parse_argument("k");
    assert_eq!(get.make_response(&mut storage, &config).bytes, b"+v\r\n".to_vec());
}

#[test]
fn instruction_name_from_str() {
    assert_eq!(InstructionName::from_str("  config "), Ok(InstructionName::Config));
    assert_eq!(InstructionName::from_str("Get"), Ok(InstructionName::Get));
    assert_eq!(InstructionName::from_str("set"), Ok(InstructionName::SetValue));
    assert_eq!(InstructionName::from_str("PINGX"), Err(()));
    assert_eq!(InstructionName::from_str(""), Err(()));
}

#[test]
fn non_utf8_lines_are_ignored() {
    let r = replies(b"*2\r\nECHO\r\n\xff\xfe\r\nok\r\n");
    assert_eq!(r, vec![b"+ok\r\n".to_vec()]);
}

#[test]
fn full_slots_without_ready_drop_the_command() {
    // empty arguments never make a command ready; once the slots are full it is dropped
    let r = replies(b"*7\r\nECHO\r\n\r\n\r\n\r\n\r\n\r\n\r\n*1\r\nPING\r\n");
    assert_eq!(r, vec![b"+PONG\r\n".to_vec()]);
}

#[test]
fn storage_insert_get_remove() {
    let mut s = Storage::new();
    assert_eq!(s.len(), 0);
    s.insert(b"a", b"1");
    s.insert(b"b", b"2");
    s.insert(b"a", b"3");
    assert_eq!(s.len(), 2);
    assert_eq!(s.get(b"a").cloned(), Some(b"3".to_vec()));
    s.remove(b"a");
    s.remove(b"a");
    assert_eq!(s.get(b"a"), None);
    assert_eq!(s.get(b"b").cloned(), Some(b"2".to_vec()));
    assert_eq!(s.len(), 1);
}

#[test]
fn numbers_parse_and_print() {
    assert_eq!(parse_u64(b"0"), Some(0));
    assert_eq!(parse_u64(b"+42"), Some(42));
    assert_eq!(parse_u64(b"18446744073709551615"), Some(u64::MAX));
    assert_eq!(parse_u64(b"18446744073709551616"), None);
    assert_eq!(parse_u64(b""), None);
    assert_eq!(parse_u64(b"+"), None);
    assert_eq!(parse_u64(b"-1"), None);
    assert_eq!(parse_u64(b"1a"), None);
    let mut out = b"n=".to_vec();
    push_decimal(&mut out, 1205);
    assert_eq!(out, b"n=1205".to_vec());
    let mut zero = Vec::new();
    push_decimal(&mut zero, 0);
    assert_eq!(zero, b"0".to_vec());
}
