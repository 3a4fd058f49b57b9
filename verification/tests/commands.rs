use isabelle_client::client::IsabelleClient;
use isabelle_client::command::Command;
use isabelle_client::commands::{CancelArgs, PurgeTheoryArgs, SessionBuildArgs, SessionStopArgs};
use isabelle_client::error::ClientError;
use isabelle_client::json::{array, join, member, object, text_array};
use isabelle_client::results::{
    AsyncResult, FailedResult, Message, PurgeTheoryResults, PurgedTheory, SessionStartResult,
    SessionStopResult, SyncResult, Task, UseTheoryResults,
};
use isabelle_client::transcript::Transcript;
use serde_json::Value;

fn lines(items: &[&str]) -> Vec<String> {
    items.iter().map(|line| line.to_string()).collect()
}

fn texts(items: &[&str]) -> Vec<String> {
    lines(items)
}

fn value(text: &str) -> Value {
    serde_json::from_str::<Value>(text).unwrap()
}

fn parsed(text: &str) -> Result<Value, String> {
    serde_json::from_str::<Value>(text).map_err(|e| e.to_string())
}

fn field(object: &Value, key: &str) -> Result<String, String> {
    match object.get(key).and_then(Value::as_str) {
        Some(text) => Ok(text.to_string()),
        None => Err(format!("missing field `{}`", key)),
    }
}

fn task(text: &str) -> Result<Task, String> {
    Ok(Task { task: field(&parsed(text)?, "task")? })
}

fn message(text: &str) -> Result<Message, String> {
    let object = parsed(text)?;
    Ok(Message { kind: field(&object, "kind")?, message: field(&object, "message")?, pos: None })
}

fn failed<T>(context: fn(&Value) -> Result<T, String>) -> impl FnOnce(&str) -> Result<FailedResult<T>, String> {
    move |text: &str| {
        let object = parsed(text)?;
        Ok(FailedResult {
            task: Task { task: field(&object, "task")? },
            message: Message {
                kind: field(&object, "kind")?,
                message: field(&object, "message")?,
                pos: None,
            },
            context: context(&object).ok(),
        })
    }
}

fn nothing(_object: &Value) -> Result<(), String> {
    Ok(())
}

fn whole(object: &Value) -> Result<Value, String> {
    Ok(object.clone())
}

fn stop_result_of(object: &Value) -> Result<SessionStopResult, String> {
    Ok(SessionStopResult {
        task: field(object, "task")?,
        ok: object.get("ok").and_then(Value::as_bool).ok_or("missing field `ok`")?,
        return_code: object.get("return_code").and_then(Value::as_u64).ok_or("missing field `return_code`")? as usize,
    })
}

fn stop_result(text: &str) -> Result<SessionStopResult, String> {
    stop_result_of(&parsed(text)?)
}

fn start_result(text: &str) -> Result<SessionStartResult, String> {
    let object = parsed(text)?;
    Ok(SessionStartResult {
        task: field(&object, "task")?,
        session_id: field(&object, "session_id")?,
        tmp_dir: field(&object, "tmp_dir").ok(),
    })
}

fn theory_results(text: &str) -> Result<UseTheoryResults, String> {
    let object = parsed(text)?;
    Ok(UseTheoryResults {
        task: field(&object, "task")?,
        ok: object.get("ok").and_then(Value::as_bool).ok_or("missing field `ok`")?,
        errors: Vec::new(),
        nodes: Vec::new(),
    })
}

fn purged(text: &str) -> Result<PurgeTheoryResults, String> {
    let object = parsed(text)?;
    let list = |key: &str| -> Vec<PurgedTheory> {
        object
            .get(key)
            .and_then(Value::as_array)
            .map(|items| {
                items
                    .iter()
                    .map(|item| PurgedTheory {
                        node_name: field(item, "node_name").unwrap(),
                        theory_name: field(item, "theory_name").unwrap(),
                    })
                    .collect()
            })
            .unwrap_or_default()
    };
    Ok(PurgeTheoryResults { purged: list("purged"), retained: list("retained") })
}

fn object_of(pairs: Vec<(&str, Value)>) -> Value {
    let mut map = serde_json::Map::new();
    for (key, item) in pairs {
        map.insert(key.to_string(), item);
    }
    Value::Object(map)
}

fn strings(items: &[&str]) -> Value {
    Value::Array(items.iter().map(|item| Value::String(item.to_string())).collect())
}

#[test]
fn command_line_has_one_space_and_a_newline() {
    let with = Command::new("echo", Some("\"hi\"".to_string()));
    assert_eq!(with.as_string(), "echo \"hi\"\n");
    assert_eq!(with.as_bytes(), b"echo \"hi\"\n".to_vec());
    let without = Command::new("shutdown", None);
    assert_eq!(without.as_string(), "shutdown \n");
    assert_eq!(without.as_bytes(), b"shutdown \n".to_vec());
    assert_eq!(without.name, "shutdown");
    assert_eq!(without.args, None);
    let odd = Command::new("n a m e", Some("é".to_string()));
    assert_eq!(odd.as_string(), "n a m e é\n");
    assert_eq!(odd.as_bytes(), "n a m e é\n".as_bytes().to_vec());
}

#[test]
fn echo_command_holds_the_json_string() {
    assert_eq!(Command::echo("hello").as_string(), "echo \"hello\"\n");
    assert_eq!(Command::echo("a\"b\\c\nd").as_string(), "echo \"a\\\"b\\\\c\\nd\"\n");
    assert_eq!(Command::echo("").as_string(), "echo \"\"\n");
    for sample in ["{\"hi\": \"hallo\"}", "tab\there", "é🎉", "\u{1}"] {
        let line = Command::echo(sample).as_string();
        assert_eq!(line, format!("echo {}\n", serde_json::to_string(sample).unwrap()));
    }
    assert_eq!(Command::shutdown().as_string(), "shutdown \n");
}

#[test]
fn json_framing() {
    assert_eq!(join(&texts(&[])), "");
    assert_eq!(join(&texts(&["1"])), "1");
    assert_eq!(join(&texts(&["1", "2", "3"])), "1,2,3");
    assert_eq!(array(&texts(&[])), "[]");
    assert_eq!(array(&texts(&["1", "\"a\""])), "[1,\"a\"]");
    assert_eq!(object(&texts(&[])), "{}");
    assert_eq!(object(&texts(&["\"a\":1", "\"b\":2"])), "{\"a\":1,\"b\":2}");
    assert_eq!(member("key", "true"), "\"key\":true");
    assert_eq!(member("a\"b", "null"), "\"a\\\"b\":null");
    assert_eq!(text_array(&texts(&[])), "[]");
    assert_eq!(text_array(&texts(&["x", "y\"z"])), "[\"x\",\"y\\\"z\"]");
}

#[test]
fn cancel_arguments() {
    let args = CancelArgs { task: "t-1".to_string() };
    assert_eq!(args.to_json(), "{\"task\":\"t-1\"}");
    assert_eq!(Command::cancel(&args).as_string(), "cancel {\"task\":\"t-1\"}\n");
    let odd = CancelArgs { task: "a\"b".to_string() };
    assert_eq!(value(&odd.to_json()), object_of(vec![("task", Value::String("a\"b".to_string()))]));
}

#[test]
fn session_build_arguments() {
    let args = SessionBuildArgs::session("HOL");
    assert_eq!(args.session, "HOL");
    assert_eq!(args.preferences, None);
    assert_eq!(args.options, None);
    assert_eq!(args.dirs, None);
    assert!(args.include_sessions.is_empty());
    assert_eq!(args.to_json(), "{\"session\":\"HOL\"}");
    assert_eq!(Command::session_build(&args).as_string(), "session_build {\"session\":\"HOL\"}\n");
    assert_eq!(Command::session_start(&args).as_string(), "session_start {\"session\":\"HOL\"}\n");

    let full = SessionBuildArgs {
        session: "HOL-Analysis".to_string(),
        preferences: Some("prefs".to_string()),
        options: Some(texts(&["threads=4", "quick_and_dirty"])),
        dirs: Some(Vec::new()),
        include_sessions: texts(&["HOL", "Pure"]),
    };
    assert_eq!(
        full.to_json(),
        "{\"session\":\"HOL-Analysis\",\"preferences\":\"prefs\",\"options\":[\"threads=4\",\"quick_and_dirty\"],\"dirs\":[],\"include_sessions\":[\"HOL\",\"Pure\"]}"
    );
    assert_eq!(
        value(&full.to_json()),
        object_of(vec![
            ("session", Value::String("HOL-Analysis".to_string())),
            ("preferences", Value::String("prefs".to_string())),
            ("options", strings(&["threads=4", "quick_and_dirty"])),
            ("dirs", strings(&[])),
            ("include_sessions", strings(&["HOL", "Pure"])),
        ])
    );
    let some = SessionBuildArgs {
        session: "S".to_string(),
        preferences: None,
        options: None,
        dirs: Some(texts(&["/tmp/x"])),
        include_sessions: Vec::new(),
    };
    assert_eq!(some.to_json(), "{\"session\":\"S\",\"dirs\":[\"/tmp/x\"]}");
}

#[test]
fn session_stop_arguments() {
    let args = SessionStopArgs { session_id: "03202b1a-bde6-4d84-926b-d435aac365fe".to_string() };
    assert_eq!(args.to_json(), "{\"session_id\":\"03202b1a-bde6-4d84-926b-d435aac365fe\"}");
    assert_eq!(
        Command::session_stop(&args).as_string(),
        "session_stop {\"session_id\":\"03202b1a-bde6-4d84-926b-d435aac365fe\"}\n"
    );
}

#[test]
fn purge_theories_arguments() {
    let args = PurgeTheoryArgs::for_session("id", &["A", "B"]);
    assert_eq!(args.session_id, "id");
    assert_eq!(args.theories, texts(&["A", "B"]));
    assert_eq!(args.master_dir, None);
    assert_eq!(args.all, None);
    assert_eq!(args.to_json(), "{\"session_id\":\"id\",\"theories\":[\"A\",\"B\"]}");
    let none = PurgeTheoryArgs::for_session("id", &[]);
    assert_eq!(none.to_json(), "{\"session_id\":\"id\",\"theories\":[]}");
    let full = PurgeTheoryArgs {
        session_id: "id".to_string(),
        theories: texts(&["T"]),
        master_dir: Some("/m".to_string()),
        all: Some(true),
    };
    assert_eq!(
        full.to_json(),
        "{\"session_id\":\"id\",\"theories\":[\"T\"],\"master_dir\":\"/m\",\"all\":true}"
    );
    let no = PurgeTheoryArgs { all: Some(false), ..PurgeTheoryArgs::for_session("i", &[]) };
    assert_eq!(no.to_json(), "{\"session_id\":\"i\",\"theories\":[],\"all\":false}");
    assert_eq!(
        Command::purge_theories(&full).as_string(),
        format!("purge_theories {}\n", full.to_json())
    );
    assert_eq!(Command::use_theories("{\"session_id\":\"s\"}").as_string(), "use_theories {\"session_id\":\"s\"}\n");
}

#[test]
fn cancel_is_a_synchronous_call() {
    let client = IsabelleClient::connect(None, 1, "pw");
    let mut conn = Transcript::new(lines(&["OK\n", "OK\n"]));
    assert!(matches!(client.cancel(&mut conn, "t9".to_string()), Ok(SyncResult::Okay(()))));
    assert_eq!(conn.sent().as_slice(), b"pw\ncancel {\"task\":\"t9\"}\n");
    let mut conn = Transcript::new(lines(&["OK\n", "ERROR null\n"]));
    assert!(matches!(client.cancel(&mut conn, "t9".to_string()), Ok(SyncResult::Error(()))));
    let mut conn = Transcript::new(lines(&["OK\n", "ERROR \"text\"\n"]));
    assert!(matches!(client.cancel(&mut conn, "t9".to_string()), Err(ClientError::Protocol(_))));
}

#[test]
fn client_test_session_build_hol() {
    let client = IsabelleClient::connect(None, 1, "Test");
    let arg = SessionBuildArgs::session("HOL");
    let mut conn = Transcript::new(lines(&[
        "OK {\"isabelle_id\":\"x\"}\n",
        "OK {\"task\":\"b1\"}\n",
        "NOTE {\"kind\":\"writeln\",\"message\":\"Session Pure/Pure\",\"task\":\"b1\"}\n",
        "7\n",
        "FINISHED {\"ok\":true,\"return_code\":0,\"sessions\":[{\"session\":\"HOL\",\"ok\":true,\"return_code\":0,\"timeout\":false}],\"task\":\"b1\"}\n",
    ]));
    let mut notes = Vec::new();
    let res: AsyncResult<Value, Value> = client
        .session_build(&mut conn, &mut notes, &arg, task, message, parsed, failed(whole))
        .unwrap();
    match res {
        AsyncResult::Finished(res) => {
            assert_eq!(res.get("ok"), Some(&Value::Bool(true)));
            for s in res.get("sessions").and_then(Value::as_array).unwrap() {
                assert_eq!(s.get("ok"), Some(&Value::Bool(true)));
                assert!(s.get("return_code").and_then(Value::as_u64) == Some(0));
            }
        }
        AsyncResult::Failed(_) | AsyncResult::Error(_) => unreachable!(),
    }
    assert_eq!(notes.len(), 1);
    assert_eq!(conn.sent().as_slice(), b"Test\nsession_build {\"session\":\"HOL\"}\n");
}

#[test]
fn client_test_session_build_unknown() {
    let client = IsabelleClient::connect(None, 1, "Test");
    let arg = SessionBuildArgs::session("unknown_sessions");
    let mut conn = Transcript::new(lines(&[
        "OK\n",
        "OK {\"task\":\"b2\"}\n",
        "FAILED {\"task\":\"b2\",\"kind\":\"error\",\"message\":\"Undefined session(s): \\\"unknown_sessions\\\"\"}\n",
    ]));
    let mut notes = Vec::new();
    let res: AsyncResult<Value, Value> = client
        .session_build(&mut conn, &mut notes, &arg, task, message, parsed, failed(whole))
        .unwrap();
    assert!(matches!(res, AsyncResult::Failed(_)));
}

#[test]
fn client_test_session_start_hol() {
    let client = IsabelleClient::connect(None, 1, "Test");
    let arg = SessionBuildArgs::session("HOL");
    let mut conn = Transcript::new(lines(&[
        "OK\n",
        "OK {\"task\":\"s1\"}\n",
        "FINISHED {\"task\":\"s1\",\"session_id\":\"abc\",\"tmp_dir\":\"/tmp/isabelle\"}\n",
    ]));
    let mut notes = Vec::new();
    let res = client
        .session_start(&mut conn, &mut notes, &arg, task, message, start_result, failed(nothing))
        .unwrap();
    match res {
        AsyncResult::Finished(r) => {
            assert_eq!(r.session_id, "abc");
            assert_eq!(r.tmp_dir, Some("/tmp/isabelle".to_string()));
        },
        _ => unreachable!(),
    }
    assert_eq!(conn.sent().as_slice(), b"Test\nsession_start {\"session\":\"HOL\"}\n");
}

#[test]
fn client_test_session_stop_active() {
    let client = IsabelleClient::connect(None, 1, "Test");
    let arg = SessionStopArgs { session_id: "abc".to_string() };
    let mut conn = Transcript::new(lines(&[
        "OK\n",
        "OK {\"task\":\"x\"}\n",
        "FINISHED {\"task\":\"x\",\"ok\":true,\"return_code\":0}\n",
    ]));
    let mut notes = Vec::new();
    let res = client
        .session_stop(&mut conn, &mut notes, &arg, task, message, stop_result, failed(stop_result_of))
        .unwrap();
    if let AsyncResult::Finished(stop_res) = res {
        assert!(stop_res.ok);
    } else {
        unreachable!();
    }
}

#[test]
fn client_test_session_stop_inactive() {
    let client = IsabelleClient::connect(None, 1, "Test");
    let arg = SessionStopArgs { session_id: "03202b1a-bde6-4d84-926b-d435aac365fe".to_owned() };
    let mut conn = Transcript::new(lines(&[
        "OK\n",
        "OK {\"task\":\"x\"}\n",
        "FAILED {\"task\":\"x\",\"kind\":\"error\",\"message\":\"No session\",\"ok\":false,\"return_code\":1}\n",
    ]));
    let mut notes = Vec::new();
    let got = client
        .session_stop(&mut conn, &mut notes, &arg, task, message, stop_result, failed(stop_result_of))
        .unwrap();
    match got {
        AsyncResult::Failed(f) => {
            assert_eq!(f.message.message, "No session");
            assert_eq!(
                f.context,
                Some(SessionStopResult { task: "x".to_string(), ok: false, return_code: 1 })
            );
        },
        _ => unreachable!(),
    }
}

#[test]
fn client_test_session_stop_invalid() {
    let client = IsabelleClient::connect(None, 1, "Test");
    let arg = SessionStopArgs { session_id: "abc".to_owned() };
    let mut conn = Transcript::new(lines(&[
        "OK\n",
        "ERROR {\"kind\":\"error\",\"message\":\"Bad UUID: \\\"abc\\\"\"}\n",
    ]));
    let mut notes = Vec::new();
    let got = client
        .session_stop(&mut conn, &mut notes, &arg, task, message, stop_result, failed(stop_result_of))
        .unwrap();
    assert!(matches!(got, AsyncResult::Error(_)));
}

#[test]
fn client_use_theory_in_hol() {
    let client = IsabelleClient::connect(None, 1, "Test");
    let mut conn = Transcript::new(lines(&[
        "OK\n",
        "OK {\"task\":\"u\"}\n",
        "NOTE {\"kind\":\"writeln\",\"message\":\"theory Drinker 50%\"}\n",
        "FINISHED {\"task\":\"u\",\"ok\":true,\"errors\":[],\"nodes\":[]}\n",
    ]));
    let mut notes = Vec::new();
    let args = "{\"session_id\":\"abc\",\"theories\":[\"~~/src/HOL/Examples/Drinker\"]}";
    match client
        .use_theories(&mut conn, &mut notes, args, task, message, theory_results, failed(nothing))
        .unwrap()
    {
        AsyncResult::Error(e) => unreachable!("{:?}", e),
        AsyncResult::Finished(got) => assert!(got.ok),
        AsyncResult::Failed(f) => unreachable!("{:?}", f),
    }
    assert_eq!(
        String::from_utf8(conn.sent().clone()).unwrap(),
        format!("Test\nuse_theories {}\n", args)
    );
}

#[test]
fn purge_theories_is_a_synchronous_call() {
    let client = IsabelleClient::connect(None, 1, "Test");
    let mut conn = Transcript::new(lines(&[
        "OK\n",
        "OK {\"purged\":[{\"node_name\":\"/a/T.thy\",\"theory_name\":\"T\"}],\"retained\":[]}\n",
    ]));
    let args = PurgeTheoryArgs::for_session("abc", &["T"]);
    match client.purge_theories(&mut conn, args, purged).unwrap() {
        SyncResult::Okay(res) => {
            assert_eq!(
                res.purged,
                vec![PurgedTheory { node_name: "/a/T.thy".to_string(), theory_name: "T".to_string() }]
            );
            assert!(res.retained.is_empty());
        },
        SyncResult::Error(()) => unreachable!(),
    }
    assert_eq!(
        conn.sent().as_slice(),
        b"Test\npurge_theories {\"session_id\":\"abc\",\"theories\":[\"T\"]}\n"
    );
}

#[test]
fn client_test_session_start_unknown() {
    let client = IsabelleClient::connect(None, 1, "Test");
    let arg = SessionBuildArgs::session("unknown_sessions");
    let mut conn = Transcript::new(lines(&[
        "OK\n",
        "OK {\"task\":\"s2\"}\n",
        "FAILED {\"task\":\"s2\",\"kind\":\"error\",\"message\":\"Undefined session(s)\"}\n",
    ]));
    let mut notes = Vec::new();
    let res = client
        .session_start(&mut conn, &mut notes, &arg, task, message, start_result, failed(nothing))
        .unwrap();
    assert!(matches!(res, AsyncResult::Failed(_)));
    assert_eq!(conn.sent().as_slice(), b"Test\nsession_start {\"session\":\"unknown_sessions\"}\n");
}

#[test]
fn client_use_theory_unknown() {
    let client = IsabelleClient::connect(None, 1, "Test");
    let mut conn = Transcript::new(lines(&[
        "OK\n",
        "OK {\"task\":\"u\"}\n",
        "FAILED {\"task\":\"u\",\"kind\":\"error\",\"message\":\"Cannot load theory file\"}\n",
    ]));
    let mut notes = Vec::new();
    let args = "{\"session_id\":\"abc\",\"theories\":[\"~~/src/HOL/foo\"]}";
    let got = client
        .use_theories(&mut conn, &mut notes, args, task, message, theory_results, failed(nothing))
        .unwrap();
    assert!(matches!(got, AsyncResult::Failed(_)));
}

#[test]
fn session_arguments_under_both_names() {
    let args: isabelle_client::commands::SessionBuildStartArgs =
        isabelle_client::commands::SessionBuildStartArgs::session("HOL");
    assert_eq!(args, SessionBuildArgs::session("HOL"));
}
