use reql_core::commands::{Client, RootCommand};
use reql_core::config::SessionConfig;
use reql_core::conn::{decode_frame, encode_frame, send_frame, Connection};
use reql_core::engine::{is_write_replay, shard_prefix, start, step, Event, Outcome};
use reql_core::errors::Error;
use reql_core::json::{json_bytes, wrap_arrays, Json};
use reql_core::query::Query;

fn test_client(db: &str, retries: u64) -> Client {
    Client::new(SessionConfig::new(
        String::from("localhost"),
        28015,
        String::from(db),
        String::from("admin"),
        String::new(),
        20,
        retries,
    ))
}

fn text(bytes: Vec<u8>) -> String {
    String::from_utf8(bytes).unwrap()
}

#[test]
fn s1_db_table_create_term_and_envelope() {
    let r = test_client("test", 3);
    let cmd = r.db("test").table_create("users");
    assert_eq!(
        text(cmd.term_bytes().unwrap()),
        "[60,[[14,[\"test\"]],\"users\"]]"
    );
    let cmd = r.db("test").table_create("users");
    assert_eq!(
        text(cmd.envelope().unwrap()),
        "[1,[60,[[14,[\"test\"]],\"users\"]]]"
    );
}

#[test]
fn s2_table_get_with_default_db() {
    let r = test_client("test", 3);
    let cmd = r.table("users").get(42i64);
    assert_eq!(
        text(cmd.term_bytes().unwrap()),
        "[16,[[15,[[14,[\"test\"]],\"users\"]],42]]"
    );
}

#[test]
fn s3_expr_array_is_wrapped() {
    let r = test_client("test", 3);
    let arr = Json::Arr(vec![Json::Int(1), Json::Int(2), Json::Int(3)]);
    let cmd = r.expr(arr);
    assert_eq!(text(cmd.term_bytes().unwrap()), "[2,[1,2,3]]");
}

#[test]
fn s4_expr_object_values_are_wrapped() {
    let r = test_client("test", 3);
    let obj = Json::Obj(vec![(
        b"a".to_vec(),
        Json::Arr(vec![Json::Int(1), Json::Int(2)]),
    )]);
    let cmd = r.expr(obj);
    assert_eq!(text(cmd.term_bytes().unwrap()), "{\"a\":[2,[1,2]]}");
}

#[test]
fn s5_frame_layout_after_token_seven() {
    let mut conn = Connection::new();
    conn.token = 7;
    let envelope = b"[1,[60,[]]]".to_vec();
    send_frame(&mut conn, &envelope).unwrap();
    let out = conn.take_outgoing();
    let mut expected = vec![8u8, 0, 0, 0, 0, 0, 0, 0];
    expected.extend_from_slice(&(envelope.len() as u32).to_le_bytes());
    expected.extend_from_slice(&envelope);
    assert_eq!(out, expected);
    assert_eq!(conn.token, 8);
}

#[test]
fn s6_write_replay_twice_then_success() {
    let mut st = start(3);
    let replay = shard_prefix();
    let mut writes = 0;
    let good = b"{\"t\":1,\"r\":[]}".to_vec();
    let payload;
    let mut responses = vec![replay.clone(), replay.clone(), good.clone()];
    responses.reverse();
    loop {
        if st.write {
            writes += 1;
        }
        let response = responses.pop().unwrap();
        match step(st, Event::Response(response)) {
            Outcome::Retry(next) => st = next,
            Outcome::Done(p) => {
                payload = p;
                break;
            }
            Outcome::Fail(e) => panic!("unexpected failure: {:?}", e),
        }
    }
    assert_eq!(payload, good);
    assert_eq!(writes, 3);
    assert_eq!(st.attempt, 2);
}

#[test]
fn retry_exhaustion_returns_last_error() {
    // Three failures against a budget of three: the third error is
    // surfaced, after exactly three attempts.
    let mut st = start(3);
    let mut attempts = 1;
    let events = [Event::ReadFailed, Event::AcquireFailed, Event::WriteFailed];
    let mut outcome = None;
    for ev in events {
        match step(st, ev) {
            Outcome::Retry(next) => {
                st = next;
                attempts += 1;
            }
            other => {
                outcome = Some(other);
                break;
            }
        }
    }
    assert_eq!(attempts, 3);
    match outcome.unwrap() {
        Outcome::Fail(e) => assert_eq!(e, Error::Io),
        _ => panic!("expected a failure"),
    }
}

#[test]
fn acquire_failure_on_last_attempt_is_connection_error() {
    let mut st = start(2);
    match step(st, Event::AcquireFailed) {
        Outcome::Retry(next) => st = next,
        _ => panic!("budget left, the engine must retry"),
    }
    match step(st, Event::AcquireFailed) {
        Outcome::Fail(e) => assert_eq!(e, Error::Connection),
        _ => panic!("budget spent, the engine must fail"),
    }
}

#[test]
fn replay_exhaustion_is_op_failed() {
    let mut st = start(2);
    let replay = shard_prefix();
    match step(st, Event::Response(replay.clone())) {
        Outcome::Retry(next) => st = next,
        _ => panic!("budget left, the engine must retry"),
    }
    assert!(st.write);
    match step(st, Event::Response(replay)) {
        Outcome::Fail(e) => assert_eq!(e, Error::OpFailed),
        _ => panic!("budget spent, the engine must fail"),
    }
}

#[test]
fn read_failure_does_not_resend() {
    // The write reached the server; the read failed once. The next
    // attempt reconnects and reads again without writing.
    let mut st = start(3);
    let mut writes = 0;
    if st.write {
        writes += 1;
    }
    match step(st, Event::ReadFailed) {
        Outcome::Retry(next) => st = next,
        _ => panic!("budget left, the engine must retry"),
    }
    assert!(!st.write);
    assert!(st.connect);
    if st.write {
        writes += 1;
    }
    let good = b"{\"t\":1,\"r\":[]}".to_vec();
    match step(st, Event::Response(good.clone())) {
        Outcome::Done(p) => assert_eq!(p, good),
        _ => panic!("a normal response ends the call"),
    }
    assert_eq!(writes, 1);
}

#[test]
fn classification_needs_the_whole_prefix() {
    let prefix = shard_prefix();
    assert!(is_write_replay(&prefix));
    let mut longer = prefix.clone();
    longer.extend_from_slice(b" [\"\", +inf) not available\"],\"b\":[]}");
    assert!(is_write_replay(&longer));
    let mut shorter = prefix.clone();
    shorter.pop();
    assert!(!is_write_replay(&shorter));
    assert!(!is_write_replay(&b"{\"t\":1,\"r\":[]}".to_vec()));
}

#[test]
fn frame_round_trip() {
    let payload = b"{\"t\":1,\"r\":[42]}".to_vec();
    let frame = encode_frame(99, &payload);
    let (token, decoded) = decode_frame(&frame).unwrap();
    assert_eq!(token, 99);
    assert_eq!(decoded, payload);
}

#[test]
fn decode_frame_needs_complete_frame() {
    let payload = b"abc".to_vec();
    let mut frame = encode_frame(5, &payload);
    frame.pop();
    assert!(decode_frame(&frame).is_none());
    assert!(decode_frame(&b"0123456789".to_vec()).is_none());
}

#[test]
fn query_read_consumes_one_frame_and_discards_token() {
    let mut conn = Connection::new();
    let first = b"first".to_vec();
    let second = b"second".to_vec();
    let mut bytes = encode_frame(1, &first);
    bytes.extend_from_slice(&encode_frame(2, &second));
    let mut bytes = bytes;
    conn.feed_incoming(&mut bytes);
    assert_eq!(Query::read(&mut conn).unwrap(), first);
    assert_eq!(Query::read(&mut conn).unwrap(), second);
    assert!(!conn.broken);
}

#[test]
fn query_read_on_short_input_breaks_the_connection() {
    let mut conn = Connection::new();
    let mut bytes = vec![1u8, 2, 3];
    conn.feed_incoming(&mut bytes);
    assert_eq!(Query::read(&mut conn), Err(Error::Io));
    assert!(conn.broken);
}

#[test]
fn query_write_uses_current_token() {
    let mut conn = Connection::new();
    conn.token = 41;
    conn.advance_token();
    let payload = b"[1]".to_vec();
    Query::write(&payload, &mut conn).unwrap();
    let out = conn.take_outgoing();
    assert_eq!(&out[0..8], &42u64.to_le_bytes());
    assert_eq!(&out[8..12], &(payload.len() as u32).to_le_bytes());
    assert_eq!(&out[12..], &payload[..]);
}

#[test]
fn tokens_increase_across_writes() {
    let mut conn = Connection::new();
    conn.token = 10;
    let payload = b"x".to_vec();
    let mut tokens = Vec::new();
    for _ in 0..3 {
        send_frame(&mut conn, &payload).unwrap();
        tokens.push(conn.token);
    }
    assert_eq!(tokens, vec![11, 12, 13]);
    let out = conn.take_outgoing();
    for (i, token) in tokens.iter().enumerate() {
        let base = i * 13;
        assert_eq!(&out[base..base + 8], &token.to_le_bytes());
    }
}

#[test]
fn non_object_options_are_rejected() {
    let r = test_client("test", 3);
    let cmd = r.expr((5i64, Json::Arr(vec![])));
    assert_eq!(cmd.term_bytes(), Err(Error::NonObjectOptions));
}

#[test]
fn sub_command_errors_propagate() {
    let r = test_client("test", 3);
    let bad = r.expr((5i64, Json::Int(1)));
    let chained = bad.get(1i64);
    assert_eq!(chained.term_bytes(), Err(Error::NonObjectOptions));
}

#[test]
fn options_pair_lands_in_the_options_slot() {
    let r = test_client("test", 3);
    let opts = Json::Obj(vec![(b"index".to_vec(), Json::Str(b"name".to_vec()))]);
    let cmd = r.db("test").table("users").get_all(("bob", opts));
    assert_eq!(
        text(cmd.term_bytes().unwrap()),
        "[78,[[15,[[14,[\"test\"]],\"users\"]],\"bob\"],{\"index\":\"name\"}]"
    );
}

#[test]
fn delete_has_no_argument() {
    let r = test_client("test", 3);
    let cmd = r.db("test").table("users").get(1i64).delete();
    assert_eq!(
        text(cmd.term_bytes().unwrap()),
        "[54,[[16,[[15,[[14,[\"test\"]],\"users\"]],1]]]]"
    );
}

#[test]
fn string_escaping_in_terms() {
    let r = test_client("test", 3);
    let cmd = r.expr("a\"b\\c\nd\te\u{01}f");
    assert_eq!(
        text(cmd.term_bytes().unwrap()),
        "\"a\\\"b\\\\c\\nd\\te\\u0001f\""
    );
}

#[test]
fn scalar_expressions() {
    let r = test_client("test", 3);
    assert_eq!(text(r.expr(true).term_bytes().unwrap()), "true");
    assert_eq!(text(r.expr(false).term_bytes().unwrap()), "false");
    assert_eq!(text(r.expr(-5i64).term_bytes().unwrap()), "-5");
    assert_eq!(
        text(r.expr(i64::MIN).term_bytes().unwrap()),
        "-9223372036854775808"
    );
    assert_eq!(
        text(r.expr(u64::MAX).term_bytes().unwrap()),
        "18446744073709551615"
    );
    assert_eq!(text(r.expr(0u32).term_bytes().unwrap()), "0");
    assert_eq!(text(r.expr(Json::Null).term_bytes().unwrap()), "null");
}

#[test]
fn nested_wrap_is_structural() {
    let inner = Json::Arr(vec![Json::Int(2)]);
    let value = Json::Obj(vec![(b"a".to_vec(), Json::Arr(vec![Json::Int(1), inner]))]);
    let wrapped = wrap_arrays(value, 2);
    assert_eq!(
        String::from_utf8(json_bytes(&wrapped)).unwrap(),
        "{\"a\":[2,[1,[2,[2]]]]}"
    );
}

#[test]
fn builders_build_documents() {
    let r = test_client("test", 3);
    let obj = r
        .object()
        .insert("a", Json::Int(1))
        .insert("b", Json::Bool(true))
        .build();
    assert_eq!(
        String::from_utf8(json_bytes(&obj)).unwrap(),
        "{\"a\":1,\"b\":true}"
    );
    let arr = r.array().push(Json::Int(1)).push(Json::Str(b"x".to_vec())).build();
    assert_eq!(String::from_utf8(json_bytes(&arr)).unwrap(), "[1,\"x\"]");
}

#[test]
fn connection_reports_config() {
    let r = test_client("mine", 4);
    let cfg = r.connection();
    assert_eq!(cfg.db, "mine");
    assert_eq!(cfg.retries, 4);
    assert_eq!(cfg.host, "localhost");
    assert_eq!(cfg.port, 28015);
}

#[test]
fn root_command_as_argument() {
    let r = test_client("test", 3);
    let sub = r.expr(7i64);
    let cmd = RootCommand(Ok(Json::Int(1)));
    let chained = cmd.contains(sub);
    assert_eq!(text(chained.term_bytes().unwrap()), "[93,[1,7]]");
}

#[test]
fn every_chained_command_carries_its_opcode() {
    let r = test_client("test", 3);
    let base = || r.db("d").table("t");
    let cases: Vec<(String, u64)> = vec![
        (text(base().table_create("x").term_bytes().unwrap()), 60),
        (text(base().table_drop("x").term_bytes().unwrap()), 61),
        (text(base().index_create("x").term_bytes().unwrap()), 75),
        (text(base().index_drop("x").term_bytes().unwrap()), 76),
        (text(base().replace(Json::Null).term_bytes().unwrap()), 55),
        (text(base().update(Json::Null).term_bytes().unwrap()), 53),
        (text(base().order_by("x").term_bytes().unwrap()), 41),
        (text(base().without("x").term_bytes().unwrap()), 34),
        (text(base().contains("x").term_bytes().unwrap()), 93),
        (text(base().limit(5i64).term_bytes().unwrap()), 71),
        (text(base().get(5i64).term_bytes().unwrap()), 16),
        (text(base().get_all("x").term_bytes().unwrap()), 78),
        (text(base().filter(Json::Null).term_bytes().unwrap()), 39),
        (text(base().insert(Json::Null).term_bytes().unwrap()), 56),
    ];
    for (term, op) in cases {
        assert!(
            term.starts_with(&format!("[{},", op)),
            "term {} does not open with opcode {}",
            term,
            op
        );
    }
    assert!(text(r.db_create("x").term_bytes().unwrap()).starts_with("[57,"));
    assert!(text(r.db_drop("x").term_bytes().unwrap()).starts_with("[58,"));
}

#[test]
fn integer_widths_encode_as_decimal() {
    let r = test_client("test", 3);
    assert_eq!(text(r.expr(7u8).term_bytes().unwrap()), "7");
    assert_eq!(text(r.expr(7u16).term_bytes().unwrap()), "7");
    assert_eq!(text(r.expr(7usize).term_bytes().unwrap()), "7");
    assert_eq!(text(r.expr(-7i8).term_bytes().unwrap()), "-7");
    assert_eq!(text(r.expr(-7i16).term_bytes().unwrap()), "-7");
    assert_eq!(text(r.expr(-7isize).term_bytes().unwrap()), "-7");
    assert_eq!(text(r.expr(7i32).term_bytes().unwrap()), "7");
}
