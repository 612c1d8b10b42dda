use snapenv::json::{parse_json, setting_text, Json};
use snapenv::launch::{exit_code, request_body, split_command};
use snapenv::resolve::{
    envfile_check, environment_writes, extract_payload, parse_response, plan_for, resolve, Plan,
    ResolveError,
};
use snapenv::text::{normalize_key, same_text, strip_one_quote_each_side};
use std::collections::HashMap;

fn outer_with_payload(payload: &str) -> Json {
    let quoted = serde_json::to_string(payload).unwrap();
    let body = format!("{{\"result\":{{\"stdout\":{}}}}}", quoted);
    parse_response(body.as_bytes()).unwrap()
}

fn resolve_payload(app: &str, payload: &str) -> Plan {
    resolve(app, &outer_with_payload(payload)).unwrap()
}

fn environment(plan: &Plan) -> HashMap<String, String> {
    let mut env = HashMap::new();
    for (k, v) in &plan.settings {
        env.insert(k.clone(), v.clone());
    }
    env
}

fn s(t: &str) -> String {
    t.to_string()
}

#[test]
fn end_to_end_resolution_for_app1() {
    let plan = resolve_payload("app1", r#"{"env":{"A":"1"},"apps":{"app1":{"env":{"B":"2"}}}}"#);
    let env = environment(&plan);
    assert_eq!(env.len(), 2);
    assert_eq!(env.get("A"), Some(&s("1")));
    assert_eq!(env.get("B"), Some(&s("2")));
    assert_eq!(plan.global_envfile, None);
    assert_eq!(plan.app_envfile, None);
}

#[test]
fn app_scope_wins_over_global() {
    let plan = resolve_payload("X", r#"{"env":{"FOO":1},"apps":{"X":{"env":{"foo":2}}}}"#);
    assert_eq!(plan.settings, vec![(s("FOO"), s("1")), (s("FOO"), s("2"))]);
    assert_eq!(environment(&plan).get("FOO"), Some(&s("2")));
}

#[test]
fn disjoint_scopes_give_the_union_normalized() {
    let plan = resolve_payload(
        "web",
        r#"{"env":{"log-level":"debug","port":8080},"apps":{"web":{"env":{"use-tls":true}},"db":{"env":{"x":"y"}}}}"#,
    );
    let env = environment(&plan);
    assert_eq!(env.len(), 3);
    assert_eq!(env.get("LOG_LEVEL"), Some(&s("debug")));
    assert_eq!(env.get("PORT"), Some(&s("8080")));
    assert_eq!(env.get("USE_TLS"), Some(&s("true")));
}

#[test]
fn other_apps_are_ignored() {
    let plan = resolve_payload("a", r#"{"apps":{"b":{"env":{"K":"v"},"envfile":"/b.env"}}}"#);
    assert!(plan.settings.is_empty());
    assert_eq!(plan.app_envfile, None);
}

#[test]
fn envfiles_are_read_from_both_scopes() {
    let plan = resolve_payload("a", r#"{"envfile":"/g.env","apps":{"a":{"envfile":"/a.env"}}}"#);
    assert_eq!(plan.global_envfile, Some(s("/g.env")));
    assert_eq!(plan.app_envfile, Some(s("/a.env")));
}

#[test]
fn non_string_envfile_is_ignored() {
    let plan = resolve_payload("a", r#"{"envfile":3,"apps":{"a":{"envfile":null}}}"#);
    assert_eq!(plan.global_envfile, None);
    assert_eq!(plan.app_envfile, None);
}

#[test]
fn normalization_uppercases_and_replaces_hyphens() {
    assert_eq!(normalize_key("my-key"), "MY_KEY");
    assert_eq!(normalize_key("MY_KEY"), "MY_KEY");
    assert_eq!(normalize_key(&normalize_key("a-b-c")), normalize_key("a-b-c"));
    assert_eq!(normalize_key("abc"), "ABC");
    assert_eq!(normalize_key(""), "");
}

#[test]
fn colliding_keys_later_entry_wins() {
    let inner = Json::Object(vec![
        (s("my-key"), Json::Str(s("first"))),
        (s("MY_KEY"), Json::Str(s("second"))),
    ]);
    let plan = plan_for("app", Json::Object(vec![(s("env"), inner)]));
    assert_eq!(plan.settings, vec![(s("MY_KEY"), s("first")), (s("MY_KEY"), s("second"))]);
    assert_eq!(environment(&plan).get("MY_KEY"), Some(&s("second")));
}

#[test]
fn nested_values_are_skipped() {
    let plan = resolve_payload("a", r#"{"env":{"FOO":{"a":1},"LIST":[1,2],"BAR":"x"},"apps":{"a":{"env":{"DEEP":{"b":2}}}}}"#);
    assert_eq!(plan.settings, vec![(s("BAR"), s("x"))]);
    let keys: Vec<&str> = plan.skipped.iter().map(|(k, _)| k.as_str()).collect();
    assert_eq!(keys, vec!["FOO", "LIST", "DEEP"]);
    match &plan.skipped[0].1 {
        Json::Object(es) => {
            assert_eq!(es.len(), 1);
            assert_eq!(es[0].0, "a");
            assert!(matches!(&es[0].1, Json::Number(n) if n == "1"));
        }
        other => panic!("expected the skipped object, got {:?}", other),
    }
    assert!(matches!(&plan.skipped[1].1, Json::Array(items) if items.len() == 2));
    assert!(environment(&plan).get("FOO").is_none());
}

#[test]
fn missing_stdout_is_a_payload_error() {
    let doc = parse_response(br#"{"result":{}}"#).unwrap();
    assert_eq!(resolve("a", &doc).unwrap_err(), ResolveError::PayloadError);
    let doc = parse_response(br#"{"other":1}"#).unwrap();
    assert_eq!(resolve("a", &doc).unwrap_err(), ResolveError::PayloadError);
}

#[test]
fn non_string_stdout_is_a_payload_error() {
    let doc = parse_response(br#"{"result":{"stdout":{"env":{}}}}"#).unwrap();
    assert_eq!(extract_payload(&doc).unwrap_err(), ResolveError::PayloadError);
}

#[test]
fn malformed_stdout_is_a_payload_error() {
    let doc = outer_with_payload("{not json");
    assert_eq!(resolve("a", &doc).unwrap_err(), ResolveError::PayloadError);
}

#[test]
fn malformed_response_is_a_protocol_error() {
    assert_eq!(parse_response(b"<html>").unwrap_err(), ResolveError::ProtocolError);
    assert_eq!(parse_response(b"").unwrap_err(), ResolveError::ProtocolError);
}

#[test]
fn scalar_values_are_stringified() {
    assert_eq!(setting_text(&Json::Null), Some(s("null")));
    assert_eq!(setting_text(&Json::Bool(false)), Some(s("false")));
    assert_eq!(setting_text(&Json::Number(s("-2.5"))), Some(s("-2.5")));
    assert_eq!(setting_text(&Json::Str(s("plain"))), Some(s("plain")));
    assert_eq!(setting_text(&Json::Str(s("say \"hi\""))), Some(s("say \\\"hi\\\"")));
    assert_eq!(setting_text(&Json::Array(vec![])), None);
}

#[test]
fn parsed_numbers_keep_their_text() {
    let plan = resolve_payload("a", r#"{"env":{"N":12,"F":1.5,"Z":null}}"#);
    let env = environment(&plan);
    assert_eq!(env.get("N"), Some(&s("12")));
    assert_eq!(env.get("F"), Some(&s("1.5")));
    assert_eq!(env.get("Z"), Some(&s("null")));
}

#[test]
fn one_quote_is_stripped_from_each_side() {
    assert_eq!(strip_one_quote_each_side("\"\"x\"\""), "\"x\"");
    assert_eq!(strip_one_quote_each_side("\"x"), "x");
    assert_eq!(strip_one_quote_each_side("\""), "");
    assert_eq!(strip_one_quote_each_side("abc"), "abc");
}

#[test]
fn text_comparison() {
    assert!(same_text("env", "env"));
    assert!(!same_text("env", "envfile"));
    assert!(!same_text("Env", "env"));
}

#[test]
fn request_body_names_context_and_query() {
    assert_eq!(
        request_body("ctx1"),
        r#"{"context-id":"ctx1","args":["get","env","envfile","apps"]}"#
    );
    assert_eq!(
        request_body("a\"b"),
        r#"{"context-id":"a\"b","args":["get","env","envfile","apps"]}"#
    );
}

#[test]
fn parse_json_reads_objects() {
    let j = parse_json(br#"{"k":[true]}"#).unwrap();
    match j {
        Json::Object(es) => {
            assert_eq!(es.len(), 1);
            assert_eq!(es[0].0, "k");
        }
        _ => panic!("expected an object"),
    }
    assert!(parse_json(b"{").is_none());
}

#[test]
fn command_line_is_split() {
    let args = vec![s("launcher"), s("true"), s("-x"), s("y")];
    let (cmd, rest) = split_command(&args).unwrap();
    assert_eq!(cmd, "true");
    assert_eq!(rest, vec![s("-x"), s("y")]);
    assert_eq!(split_command(&vec![s("launcher"), s("true")]), Some((s("true"), vec![])));
    assert_eq!(split_command(&vec![s("launcher")]), None);
}

#[test]
fn exit_code_falls_back_to_one() {
    assert_eq!(exit_code(Some(0)), 0);
    assert_eq!(exit_code(Some(42)), 42);
    assert_eq!(exit_code(None), 1);
}

#[test]
fn inline_settings_win_over_file_values() {
    let plan = resolve_payload("a", r#"{"envfile":"/g.env","env":{"shared":"inline"}}"#);
    let mut env: HashMap<String, String> = HashMap::new();
    env.insert(s("SHARED"), s("from-file"));
    env.insert(s("ONLY_FILE"), s("kept"));
    for (k, v) in &plan.settings {
        env.insert(k.clone(), v.clone());
    }
    assert_eq!(env.get("SHARED"), Some(&s("inline")));
    assert_eq!(env.get("ONLY_FILE"), Some(&s("kept")));
}

#[test]
fn colliding_keys_in_parsed_document_later_entry_wins() {
    let plan = resolve_payload("X", r#"{"env": {"my-key": "a", "MY_KEY": "b"}}"#);
    assert_eq!(plan.settings, vec![(s("MY_KEY"), s("a")), (s("MY_KEY"), s("b"))]);
    assert_eq!(environment(&plan).get("MY_KEY"), Some(&s("b")));
}

#[test]
fn parsed_objects_keep_document_order() {
    match parse_json(br#"{"z":1,"a":2}"#).unwrap() {
        Json::Object(es) => {
            assert_eq!(es[0].0, "z");
            assert_eq!(es[1].0, "a");
        }
        _ => panic!("expected an object"),
    }
}

#[test]
fn envfile_check_errors() {
    assert_eq!(envfile_check(false, false), Err(ResolveError::NotFoundError));
    assert_eq!(envfile_check(true, false), Err(ResolveError::NotReadableError));
    assert_eq!(envfile_check(true, true), Ok(()));
}

#[test]
fn environment_writes_put_settings_after_files() {
    let plan = resolve_payload("a", r#"{"env":{"shared":"inline"}}"#);
    let files = vec![(s("SHARED"), s("from-file")), (s("ONLY_FILE"), s("kept"))];
    let writes = environment_writes(files, plan.settings);
    assert_eq!(
        writes,
        vec![(s("SHARED"), s("from-file")), (s("ONLY_FILE"), s("kept")), (s("SHARED"), s("inline"))]
    );
    let mut env: HashMap<String, String> = HashMap::new();
    for (k, v) in writes {
        env.insert(k, v);
    }
    assert_eq!(env.get("SHARED"), Some(&s("inline")));
    assert_eq!(env.get("ONLY_FILE"), Some(&s("kept")));
}

#[test]
fn control_characters_are_escaped_in_values() {
    assert_eq!(
        setting_text(&Json::Str(s("a\nb\u{1}\t\\"))),
        Some(s("a\\nb\\u0001\\t\\\\"))
    );
}
