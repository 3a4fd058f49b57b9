use isabelle_client::client::{check_handshake, IsabelleClient};
use isabelle_client::command::Command;
use isabelle_client::dispatch::{
    await_acceptance, await_completion, complete_async, completion_feed, dispatch_async,
    dispatch_sync, sync_feed, Completion, SyncResponse,
};
use isabelle_client::error::{ClientError, ConnectionError, ProtocolError};
use isabelle_client::payload::{decoded, parse_response, payload_text};
use isabelle_client::results::{AsyncResult, FailedResult, Message, SyncResult, Task};
use isabelle_client::transcript::Transcript;
use serde_json::Value;

fn lines(items: &[&str]) -> Vec<String> {
    items.iter().map(|line| line.to_string()).collect()
}

fn value(text: &str) -> Result<Value, String> {
    serde_json::from_str::<Value>(text).map_err(|e| e.to_string())
}

fn string(text: &str) -> Result<String, String> {
    serde_json::from_str::<String>(text).map_err(|e| e.to_string())
}

fn unit(text: &str) -> Result<(), String> {
    serde_json::from_str::<()>(text).map_err(|e| e.to_string())
}

fn field(object: &Value, key: &str) -> Result<String, String> {
    match object.get(key).and_then(Value::as_str) {
        Some(text) => Ok(text.to_string()),
        None => Err(format!("missing field `{}`", key)),
    }
}

fn task(text: &str) -> Result<Task, String> {
    let object = value(text)?;
    Ok(Task { task: field(&object, "task")? })
}

fn message(text: &str) -> Result<Message, String> {
    let object = value(text)?;
    Ok(Message { kind: field(&object, "kind")?, message: field(&object, "message")?, pos: None })
}

fn failed(text: &str) -> Result<FailedResult<Value>, String> {
    let object = value(text)?;
    Ok(FailedResult {
        task: Task { task: field(&object, "task")? },
        message: Message {
            kind: field(&object, "kind")?,
            message: field(&object, "message")?,
            pos: None,
        },
        context: Some(object),
    })
}

fn ok_true() -> Value {
    let mut object = serde_json::Map::new();
    object.insert("ok".to_string(), Value::Bool(true));
    Value::Object(object)
}

fn command() -> Command {
    Command::new("session_build", Some("{\"session\":\"HOL\"}".to_string()))
}

#[test]
fn echo_end_to_end() {
    let client = IsabelleClient::connect(None, 4711, "secret");
    let mut conn = Transcript::new(lines(&["OK\n", "OK \"hello\"\n"]));
    let result = client.echo(&mut conn, "hello").unwrap();
    match result {
        SyncResult::Okay(text) => assert_eq!(text, "hello"),
        SyncResult::Error(_) => unreachable!(),
    }
    assert_eq!(conn.sent().as_slice(), b"secret\necho \"hello\"\n");
    assert_eq!(conn.unread(), 0);
}

#[test]
fn client_test_echo() {
    let client = IsabelleClient::connect(None, 9999, "Test");
    let mut conn = Transcript::new(lines(&["OK {\"isabelle_id\":\"x\"}\n", "OK \"echo\"\n"]));
    let res = client.echo(&mut conn, "echo").unwrap();
    match res {
        SyncResult::Okay(r) => assert_eq!(r, "echo".to_owned()),
        SyncResult::Error(_) => unreachable!(),
    }
}

#[test]
fn client_test_shutdown() {
    let client = IsabelleClient::connect(None, 9999, "Test");
    let mut conn = Transcript::new(lines(&["OK\n", "OK\n"]));
    let res = client.shutdown(&mut conn).unwrap();
    assert!(matches!(res, SyncResult::Okay(())));
    assert_eq!(conn.sent().as_slice(), b"Test\nshutdown \n");
}

#[test]
fn echo_round_trips_what_the_encoder_wrote() {
    let client = IsabelleClient::connect(None, 1, "s");
    for sample in ["", "hello", "a \"quoted\" word", "back\\slash", "line\nbreak\ttab", "é ü 漢字 🎉", "  spaces  ", "null", "{\"a\":1}"] {
        let answer = format!("OK {}\n", serde_json::to_string(sample).unwrap());
        let mut conn = Transcript::new(lines(&["OK\n", &answer]));
        let result = client.echo(&mut conn, sample).unwrap();
        match result {
            SyncResult::Okay(text) => assert_eq!(text, sample),
            SyncResult::Error(_) => unreachable!(),
        }
        let written = String::from_utf8(conn.sent().clone()).unwrap();
        assert_eq!(written, format!("s\necho {}\n", serde_json::to_string(sample).unwrap()));
    }
}

#[test]
fn echo_reports_the_servers_error() {
    let client = IsabelleClient::connect(None, 1, "s");
    let mut conn = Transcript::new(lines(&["OK\n", "ERROR \"no such command\"\n"]));
    match client.echo(&mut conn, "x").unwrap() {
        SyncResult::Error(text) => assert_eq!(text, "no such command"),
        SyncResult::Okay(_) => unreachable!(),
    }
}

#[test]
fn empty_payload_and_null_decode_alike() {
    let client = IsabelleClient::connect(None, 1, "s");
    let mut bare = Transcript::new(lines(&["OK\n", "OK\n"]));
    let mut null = Transcript::new(lines(&["OK\n", "OK null\n"]));
    assert!(matches!(client.shutdown(&mut bare), Ok(SyncResult::Okay(()))));
    assert!(matches!(client.shutdown(&mut null), Ok(SyncResult::Okay(()))));
    assert_eq!(payload_text(""), "null");
    assert_eq!(payload_text("null"), "null");
    assert_eq!(payload_text("{}"), "{}");
    assert_eq!(parse_response("", unit), parse_response("null", unit));
    assert_eq!(parse_response("", value), Ok(Value::Null));
    assert_eq!(parse_response("null", value), Ok(Value::Null));
    assert_eq!(parse_response("", string), parse_response("null", string));
    assert!(parse_response("", string).is_err());
}

#[test]
fn payload_that_does_not_decode_is_a_protocol_error() {
    let diagnostic = serde_json::from_str::<String>("{oops").unwrap_err().to_string();
    let expected = ProtocolError { text: "{oops".to_string(), diagnostic: diagnostic.clone() };
    assert_eq!(parse_response("{oops", string), Err(expected.clone()));
    assert_eq!(expected.message(), format!("{}: {}", diagnostic, "{oops"));
    assert_eq!(ClientError::Protocol(expected.clone()).message(), expected.message());
    let null_diagnostic = serde_json::from_str::<String>("null").unwrap_err().to_string();
    assert_eq!(
        parse_response("", string),
        Err(ProtocolError { text: "null".to_string(), diagnostic: null_diagnostic })
    );
    assert_eq!(decoded::<u8>("x", Ok(3)), Ok(3));
    assert_eq!(
        decoded::<u8>("x", Err("why".to_string())),
        Err(ProtocolError { text: "x".to_string(), diagnostic: "why".to_string() })
    );

    let client = IsabelleClient::connect(None, 1, "s");
    let mut conn = Transcript::new(lines(&["OK\n", "OK {oops\n", "OK \"late\"\n"]));
    match client.echo(&mut conn, "x") {
        Err(ClientError::Protocol(e)) => {
            assert_eq!(e.text, "{oops");
            assert_eq!(e.diagnostic, diagnostic);
        },
        _ => unreachable!(),
    }
    assert_eq!(conn.unread(), 1);
}

#[test]
fn error_messages() {
    assert_eq!(ClientError::Authentication.message(), "Handshake failed");
    assert_eq!(ClientError::Connection(ConnectionError::Closed).message(), "Connection closed");
}

#[test]
fn failed_handshake_writes_no_command() {
    let client = IsabelleClient::connect(None, 4711, "secret");
    for first in ["NO\n", "\n", "", "ERROR\n", "ok\n", " OK\n", "O\n", "KO\n", "FINISHED OK\n"] {
        let mut conn = Transcript::new(lines(&[first, "OK \"hello\"\n"]));
        let result = client.echo(&mut conn, "hello");
        assert!(matches!(result, Err(ClientError::Authentication)), "{:?}", first);
        assert_eq!(conn.sent().as_slice(), b"secret\n", "{:?}", first);
        assert_eq!(conn.unread(), 1);
    }
}

#[test]
fn handshake_without_an_answer_fails() {
    let client = IsabelleClient::connect(None, 4711, "secret");
    let mut conn = Transcript::new(Vec::new());
    assert_eq!(client.handshake(&mut conn), Err(ClientError::Authentication));
    assert_eq!(conn.sent().as_slice(), b"secret\n");
    let mut notes = Vec::new();
    let mut conn = Transcript::new(Vec::new());
    let result: Result<AsyncResult<Value, Value>, ClientError> =
        client.call_async(&command(), &mut conn, &mut notes, task, message, value, failed);
    assert!(matches!(result, Err(ClientError::Authentication)));
    assert_eq!(conn.sent().as_slice(), b"secret\n");
    assert!(notes.is_empty());
}

#[test]
fn handshake_accepts_what_begins_with_ok() {
    let client = IsabelleClient::connect(None, 4711, "pw");
    for first in ["OK\n", "OK", "OK {\"isabelle_id\":\"abc\"}\n", "OKAY\n"] {
        let mut conn = Transcript::new(lines(&[first, "next"]));
        assert_eq!(client.handshake(&mut conn), Ok(()));
        assert_eq!(conn.sent().as_slice(), b"pw\n");
        assert_eq!(conn.unread(), 1);
    }
    assert_eq!(client.handshake_bytes(), b"pw\n".to_vec());
    assert_eq!(check_handshake(&Ok("OK".to_string())), Ok(()));
    assert_eq!(check_handshake(&Ok("nope".to_string())), Err(ClientError::Authentication));
    assert_eq!(check_handshake(&Err(ConnectionError::Closed)), Err(ClientError::Authentication));
}

#[test]
fn connect_formats_the_address() {
    let client = IsabelleClient::connect(None, 4711, "pw");
    assert_eq!(client.address(), "127.0.0.1:4711");
    assert_eq!(client.password(), "pw");
    let client = IsabelleClient::connect(Some("example.org"), 0, "");
    assert_eq!(client.address(), "example.org:0");
    let client = IsabelleClient::connect(Some("::1"), u32::MAX, "x y");
    assert_eq!(client.address(), "::1:4294967295");
    assert_eq!(client.password(), "x y");
}

#[test]
fn transcript_reads_in_order_and_closes() {
    let mut conn = Transcript::new(lines(&["a\n", "b\n"]));
    assert_eq!(conn.unread(), 2);
    assert_eq!(conn.read_line(), Ok("a\n".to_string()));
    assert_eq!(conn.read_line(), Ok("b\n".to_string()));
    assert_eq!(conn.unread(), 0);
    assert_eq!(conn.read_line(), Err(ConnectionError::Closed));
    assert_eq!(conn.read_line(), Err(ConnectionError::Closed));
    conn.write_line(&b"one ".to_vec());
    conn.write_line(&b"two".to_vec());
    conn.write_line(&Vec::new());
    assert_eq!(conn.sent().as_slice(), b"one two");
}

#[test]
fn acceptance_phase_skips_what_it_does_not_wait_for() {
    let mut conn = Transcript::new(lines(&["12\n", "NOTE {}\n", "FINISHED {}\n", "OK {\"task\":\"t\"}\n", "rest"]));
    assert_eq!(await_acceptance(&mut conn), Ok(SyncResponse::Okay("{\"task\":\"t\"}".to_string())));
    assert_eq!(conn.unread(), 1);
    let mut conn = Transcript::new(lines(&["ERROR \"x\"\n"]));
    assert_eq!(await_acceptance(&mut conn), Ok(SyncResponse::Error("\"x\"".to_string())));
    let mut conn = Transcript::new(lines(&["1", "2", "3"]));
    assert_eq!(await_acceptance(&mut conn), Err(ConnectionError::Closed));
    assert_eq!(conn.unread(), 0);
}

#[test]
fn completion_phase_observes_notes() {
    let mut conn = Transcript::new(lines(&["NOTE {}", "NOTE {}", "FINISHED {\"ok\":true}"]));
    let mut notes = vec!["earlier".to_string()];
    assert_eq!(
        await_completion(&mut conn, &mut notes),
        Ok(Completion::Finished("{\"ok\":true}".to_string()))
    );
    assert_eq!(notes, lines(&["earlier", "{}", "{}"]));

    let mut conn = Transcript::new(lines(&["NOTE {}", "NOTE {}", "FINISHED {\"ok\":true}"]));
    let mut notes = Vec::new();
    let result: Result<AsyncResult<Value, Value>, ClientError> =
        complete_async(&mut conn, &mut notes, value, failed);
    match result {
        Ok(AsyncResult::Finished(got)) => assert_eq!(got, ok_true()),
        _ => unreachable!(),
    }
    assert_eq!(notes, lines(&["{}", "{}"]));
    assert_eq!(conn.unread(), 0);
}

#[test]
fn completion_phase_ignores_lines_of_the_acceptance_phase() {
    let mut conn = Transcript::new(lines(&["OK {}", "ERROR {}", "7", "NOTE 1", "FAILED {\"task\":\"t\"}", "NOTE 2"]));
    let mut notes = Vec::new();
    assert_eq!(
        await_completion(&mut conn, &mut notes),
        Ok(Completion::Failed("{\"task\":\"t\"}".to_string()))
    );
    assert_eq!(notes, lines(&["1"]));
    assert_eq!(conn.unread(), 1);
    let mut conn = Transcript::new(lines(&["NOTE a", "x", "NOTE b"]));
    let mut notes = Vec::new();
    assert_eq!(await_completion(&mut conn, &mut notes), Err(ConnectionError::Closed));
    assert_eq!(notes, lines(&["a", "b"]));
}

#[test]
fn rejected_async_command_reads_no_completion() {
    let mut conn = Transcript::new(lines(&[
        "ERROR {\"kind\":\"error\",\"message\":\"bad\"}",
        "FINISHED {\"ok\":true}",
    ]));
    let mut notes = Vec::new();
    let result: Result<AsyncResult<Value, Value>, ClientError> =
        dispatch_async(&command(), &mut conn, &mut notes, task, message, value, failed);
    match result {
        Ok(AsyncResult::Error(m)) => {
            assert_eq!(m, Message { kind: "error".to_string(), message: "bad".to_string(), pos: None })
        },
        _ => unreachable!(),
    }
    assert_eq!(conn.unread(), 1);
    assert!(notes.is_empty());
    assert_eq!(conn.sent().as_slice(), b"session_build {\"session\":\"HOL\"}\n");
}

#[test]
fn accepted_async_command_runs_to_its_end() {
    let mut conn = Transcript::new(lines(&[
        "OK {\"task\":\"t1\"}\n",
        "NOTE {\"percentage\":50}\n",
        "FINISHED {\"ok\":true}\n",
        "left over\n",
    ]));
    let mut notes = Vec::new();
    let result: Result<AsyncResult<Value, Value>, ClientError> =
        dispatch_async(&command(), &mut conn, &mut notes, task, message, value, failed);
    match result {
        Ok(AsyncResult::Finished(got)) => assert_eq!(got, ok_true()),
        _ => unreachable!(),
    }
    assert_eq!(notes, lines(&["{\"percentage\":50}"]));
    assert_eq!(conn.unread(), 1);
}

#[test]
fn failed_task_carries_task_message_and_context() {
    let mut conn = Transcript::new(lines(&[
        "OK {\"task\":\"t1\"}",
        "FAILED {\"task\":\"t1\",\"kind\":\"error\",\"message\":\"no such session\",\"ok\":false}",
    ]));
    let mut notes = Vec::new();
    let result: Result<AsyncResult<Value, Value>, ClientError> =
        dispatch_async(&command(), &mut conn, &mut notes, task, message, value, failed);
    match result {
        Ok(AsyncResult::Failed(f)) => {
            assert_eq!(f.task, Task { task: "t1".to_string() });
            assert_eq!(f.message.kind, "error");
            assert_eq!(f.message.message, "no such session");
            assert_eq!(f.context.unwrap().get("ok"), Some(&Value::Bool(false)));
        },
        _ => unreachable!(),
    }
}

#[test]
fn task_that_does_not_decode_ends_the_call() {
    let mut conn = Transcript::new(lines(&["OK {\"no_task\":1}", "FINISHED {}"]));
    let mut notes = Vec::new();
    let result: Result<AsyncResult<Value, Value>, ClientError> =
        dispatch_async(&command(), &mut conn, &mut notes, task, message, value, failed);
    match result {
        Err(ClientError::Protocol(e)) => {
            assert_eq!(e.text, "{\"no_task\":1}");
            assert_eq!(e.diagnostic, "missing field `task`");
        },
        _ => unreachable!(),
    }
    assert_eq!(conn.unread(), 1);
}

#[test]
fn closed_stream_is_a_connection_error() {
    let mut conn = Transcript::new(lines(&["1", "2"]));
    let result: Result<SyncResult<String, String>, ClientError> =
        dispatch_sync(&command(), &mut conn, string, string);
    assert!(matches!(result, Err(ClientError::Connection(ConnectionError::Closed))));

    let mut conn = Transcript::new(lines(&["OK {\"task\":\"t\"}", "NOTE {}"]));
    let mut notes = Vec::new();
    let result: Result<AsyncResult<Value, Value>, ClientError> =
        dispatch_async(&command(), &mut conn, &mut notes, task, message, value, failed);
    assert!(matches!(result, Err(ClientError::Connection(ConnectionError::Closed))));
    assert_eq!(notes, lines(&["{}"]));

    let mut conn = Transcript::new(Vec::new());
    let mut notes = Vec::new();
    let result: Result<AsyncResult<Value, Value>, ClientError> =
        dispatch_async(&command(), &mut conn, &mut notes, task, message, value, failed);
    assert!(matches!(result, Err(ClientError::Connection(ConnectionError::Closed))));
}

#[test]
fn unrecognized_lines_change_nothing() {
    let script = ["OK {\"task\":\"t\"}", "NOTE {\"n\":1}", "NOTE {\"n\":2}", "FINISHED {\"ok\":true}"];
    for place in 0..=script.len() {
        for junk in ["42", "", "   ", "0.5", "ok", "finished {}"] {
            let mut with_junk: Vec<&str> = script.to_vec();
            with_junk.insert(place, junk);
            let mut conn = Transcript::new(lines(&with_junk));
            let mut notes = Vec::new();
            let result: Result<AsyncResult<Value, Value>, ClientError> =
                dispatch_async(&command(), &mut conn, &mut notes, task, message, value, failed);
            match result {
                Ok(AsyncResult::Finished(got)) => assert_eq!(got, ok_true()),
                _ => unreachable!(),
            }
            assert_eq!(notes, lines(&["{\"n\":1}", "{\"n\":2}"]));
        }
    }
    for place in 0..=1 {
        let mut with_junk = vec!["OK \"hello\""];
        with_junk.insert(place, "4711");
        let mut conn = Transcript::new(lines(&with_junk));
        let result: Result<SyncResult<String, String>, ClientError> =
            dispatch_sync(&command(), &mut conn, string, string);
        match result {
            Ok(SyncResult::Okay(text)) => assert_eq!(text, "hello"),
            _ => unreachable!(),
        }
    }
}

#[test]
fn feeding_line_by_line() {
    assert!(sync_feed::<String, String, _, _>("17", string, string).is_none());
    assert!(sync_feed::<String, String, _, _>("NOTE {}", string, string).is_none());
    match sync_feed::<String, String, _, _>("OK \"a\"\n", string, string) {
        Some(Ok(SyncResult::Okay(text))) => assert_eq!(text, "a"),
        _ => unreachable!(),
    }
    match sync_feed::<String, (), _, _>("ERROR\n", string, unit) {
        Some(Ok(SyncResult::Error(()))) => {},
        _ => unreachable!(),
    }
    match sync_feed::<String, String, _, _>("OK 3\n", string, string) {
        Some(Err(ClientError::Protocol(e))) => assert_eq!(e.text, "3"),
        _ => unreachable!(),
    }

    let mut notes = Vec::new();
    assert!(completion_feed::<Value, Value, _, _>("NOTE {\"a\":1}", &mut notes, value, failed).is_none());
    assert!(completion_feed::<Value, Value, _, _>("OK {}", &mut notes, value, failed).is_none());
    assert!(completion_feed::<Value, Value, _, _>("8", &mut notes, value, failed).is_none());
    assert_eq!(notes, lines(&["{\"a\":1}"]));
    match completion_feed::<Value, Value, _, _>("FINISHED {\"ok\":true}", &mut notes, value, failed) {
        Some(Ok(AsyncResult::Finished(got))) => assert_eq!(got, ok_true()),
        _ => unreachable!(),
    }
    match completion_feed::<Value, Value, _, _>("FAILED {}", &mut notes, value, failed) {
        Some(Err(ClientError::Protocol(e))) => assert_eq!(e.text, "{}"),
        _ => unreachable!(),
    }
    assert_eq!(notes, lines(&["{\"a\":1}"]));
}

#[test]
fn unwrap_gives_the_result() {
    let sync: SyncResult<u8, ()> = SyncResult::Okay(7);
    assert_eq!(*sync.unwrap(), 7);
    let finished: AsyncResult<String, ()> = AsyncResult::Finished("done".to_string());
    assert_eq!(finished.unwrap(), "done");
}

#[test]
fn structured_values_round_trip() {
    let mut inner = serde_json::Map::new();
    inner.insert("list".to_string(), Value::Array(vec![Value::from(1), Value::Null, Value::from("x y")]));
    inner.insert("flag".to_string(), Value::Bool(false));
    let samples = vec![
        Value::Null,
        Value::from(17),
        Value::from(-3),
        Value::from("text with \"quotes\""),
        Value::Array(Vec::new()),
        Value::Object(inner),
    ];
    for sample in samples {
        let json = serde_json::to_string(&sample).unwrap();
        let cmd = Command::new("any", Some(json.clone()));
        assert_eq!(cmd.as_string(), format!("any {}\n", json));
        let mut conn = Transcript::new(vec![format!("OK {}\n", json)]);
        let result: Result<SyncResult<Value, Value>, ClientError> =
            dispatch_sync(&cmd, &mut conn, value, value);
        match result {
            Ok(SyncResult::Okay(got)) => assert_eq!(got, sample),
            _ => unreachable!(),
        }
    }
}
