use secrets_reveal::command::{RevealAction, RevealEvent};
use secrets_reveal::render::{item_format_for, render_all, render_json_list, render_single, sanitize_value};
use secrets_reveal::resolve::{AppAction, AppEvent, AppResolver};
use secrets_reveal::{CmdAppSecretsReveal, ItemFormat, ListFormat, RevealError, Secret};

fn cmd() -> CmdAppSecretsReveal {
    CmdAppSecretsReveal {
        secret_name: None,
        app_id: None,
        app_dir_path: None,
        all: false,
        quiet: false,
        non_interactive: true,
        fmt: None,
    }
}

fn secret(name: &str, value: &str) -> Secret {
    Secret::new(name.to_string(), value.to_string())
}

fn printed(a: RevealAction) -> String {
    match a {
        RevealAction::Print(s) => s,
        _ => panic!("expected output"),
    }
}

fn failure(a: RevealAction) -> RevealError {
    match a {
        RevealAction::Fail(e) => e,
        _ => panic!("expected a failure"),
    }
}

fn is_remote(a: &RevealAction) -> bool {
    matches!(
        a,
        RevealAction::ResolveApp(_) | RevealAction::FetchSecret { .. } | RevealAction::FetchAll { .. }
    )
}

#[test]
fn single_secret_prints_bare_value() {
    let mut c = cmd();
    c.app_id = Some("app_123".to_string());
    c.secret_name = Some("DB_PASSWORD".to_string());
    let (mut s, a) = c.begin();
    assert!(matches!(&a, RevealAction::ResolveApp(id) if id == "app_123"));
    let a = s.step(RevealEvent::App(AppEvent::Resolved(Ok("app_123".to_string()))));
    assert!(matches!(&a, RevealAction::FetchSecret { app_id, name } if app_id == "app_123" && name == "DB_PASSWORD"));
    let a = s.step(RevealEvent::Fetched(Ok("s3cr3t".to_string())));
    assert_eq!(printed(a), "s3cr3t");
    assert!(s.is_finished());
}

#[test]
fn all_secrets_print_escaped_assignments() {
    let mut c = cmd();
    c.app_id = Some("app_123".to_string());
    c.all = true;
    let (mut s, _) = c.begin();
    let a = s.step(RevealEvent::App(AppEvent::Resolved(Ok("app_123".to_string()))));
    assert!(matches!(&a, RevealAction::FetchAll { app_id } if app_id == "app_123"));
    let list = vec![secret("API_KEY", "a\"b"), secret("TOKEN", "xyz")];
    let out = printed(s.step(RevealEvent::Listed(Ok(list))));
    let lines: Vec<&str> = out.lines().collect();
    assert_eq!(lines, vec!["API_KEY=\"a\\\"b\"", "TOKEN=\"xyz\""]);
}

#[test]
fn non_interactive_without_app_id_fails_without_remote_call() {
    let (mut s, a) = cmd().begin();
    assert!(matches!(a, RevealAction::CurrentDir));
    let a = s.step(RevealEvent::App(AppEvent::CurrentDir(Some("/work".to_string()))));
    assert!(matches!(&a, RevealAction::ReadConfig(d) if d == "/work"));
    let a = s.step(RevealEvent::App(AppEvent::Config(None)));
    assert!(!is_remote(&a));
    assert_eq!(failure(a), RevealError::MissingAppId);
    assert!(s.is_finished());
}

#[test]
fn app_dir_config_is_read_before_prompting() {
    let mut c = cmd();
    c.app_dir_path = Some("proj".to_string());
    c.non_interactive = false;
    c.secret_name = Some("K".to_string());
    let (mut s, a) = c.begin();
    assert!(matches!(&a, RevealAction::ReadConfig(d) if d == "proj"));
    let a = s.step(RevealEvent::App(AppEvent::Config(Some("cached".to_string()))));
    assert!(matches!(&a, RevealAction::FetchSecret { app_id, name } if app_id == "cached" && name == "K"));
}

#[test]
fn interactive_prompts_for_app_and_name() {
    let mut c = cmd();
    c.non_interactive = false;
    let (mut s, _) = c.begin();
    s.step(RevealEvent::App(AppEvent::CurrentDir(Some("/w".to_string()))));
    let a = s.step(RevealEvent::App(AppEvent::Config(None)));
    assert!(matches!(a, RevealAction::PromptApp));
    let a = s.step(RevealEvent::App(AppEvent::Prompted(Some("my-app".to_string()))));
    assert!(matches!(&a, RevealAction::ResolveApp(x) if x == "my-app"));
    let a = s.step(RevealEvent::App(AppEvent::Resolved(Ok("id9".to_string()))));
    assert!(matches!(a, RevealAction::PromptSecretName));
    let a = s.step(RevealEvent::SecretName(Some("S".to_string())));
    assert!(matches!(&a, RevealAction::FetchSecret { app_id, name } if app_id == "id9" && name == "S"));
}

#[test]
fn unreadable_prompt_is_input_error() {
    let mut c = cmd();
    c.non_interactive = false;
    c.app_id = Some("a".to_string());
    let (mut s, _) = c.begin();
    s.step(RevealEvent::App(AppEvent::Resolved(Ok("a".to_string()))));
    assert_eq!(failure(s.step(RevealEvent::SecretName(None))), RevealError::Input);
}

#[test]
fn missing_secret_name_when_non_interactive() {
    let mut c = cmd();
    c.app_id = Some("a".to_string());
    let (mut s, _) = c.begin();
    let a = s.step(RevealEvent::App(AppEvent::Resolved(Ok("a".to_string()))));
    assert_eq!(failure(a), RevealError::MissingSecretName);
}

#[test]
fn name_with_all_is_rejected_before_anything() {
    let mut c = cmd();
    c.app_id = Some("a".to_string());
    c.secret_name = Some("n".to_string());
    c.all = true;
    assert_eq!(c.validate(), Err(RevealError::NameWithAll));
    let (s, a) = c.begin();
    assert_eq!(failure(a), RevealError::NameWithAll);
    assert!(s.is_finished());
}

#[test]
fn app_id_with_app_dir_is_rejected() {
    let mut c = cmd();
    c.app_id = Some("a".to_string());
    c.app_dir_path = Some("d".to_string());
    assert_eq!(c.validate(), Err(RevealError::AppIdWithAppDir));
    let (_, a) = c.begin();
    assert_eq!(failure(a), RevealError::AppIdWithAppDir);
}

#[test]
fn explicit_app_id_is_resolved_remotely_only() {
    let (mut r, a) = AppResolver::start(Some("x".to_string()), None, false);
    assert!(matches!(&a, AppAction::Resolve(id) if id == "x"));
    let a = r.step(AppEvent::Resolved(Err(RevealError::Resolution)));
    assert!(matches!(a, AppAction::Fail(RevealError::Resolution)));
    assert!(r.is_finished());
}

#[test]
fn unknown_current_dir_is_io_error() {
    let (mut s, _) = cmd().begin();
    assert_eq!(failure(s.step(RevealEvent::App(AppEvent::CurrentDir(None)))), RevealError::Io);
}

#[test]
fn fetch_errors_are_passed_on() {
    let mut c = cmd();
    c.app_id = Some("a".to_string());
    c.secret_name = Some("n".to_string());
    let (mut s, _) = c.begin();
    s.step(RevealEvent::App(AppEvent::Resolved(Ok("a".to_string()))));
    assert_eq!(failure(s.step(RevealEvent::Fetched(Err(RevealError::NotFound)))), RevealError::NotFound);

    let mut c = cmd();
    c.app_id = Some("a".to_string());
    c.all = true;
    let (mut s, _) = c.begin();
    s.step(RevealEvent::App(AppEvent::Resolved(Ok("a".to_string()))));
    assert_eq!(failure(s.step(RevealEvent::Listed(Err(RevealError::Api)))), RevealError::Api);
}

#[test]
fn item_table_single_is_unsupported() {
    let s = secret("A", "v");
    assert_eq!(render_single(&s, Some(ListFormat::ItemTable)), Err(RevealError::UnsupportedFormat));
    assert_eq!(item_format_for(ListFormat::ItemTable), Err(RevealError::UnsupportedFormat));
    assert_eq!(item_format_for(ListFormat::Yaml), Ok(ItemFormat::Yaml));

    let mut c = cmd();
    c.app_id = Some("a".to_string());
    c.secret_name = Some("A".to_string());
    c.fmt = Some(ListFormat::ItemTable);
    let (mut st, _) = c.begin();
    st.step(RevealEvent::App(AppEvent::Resolved(Ok("a".to_string()))));
    assert_eq!(failure(st.step(RevealEvent::Fetched(Ok("v".to_string())))), RevealError::UnsupportedFormat);
}

#[test]
fn single_secret_formats() {
    let s = secret("A", "x\"y");
    assert_eq!(render_single(&s, None), Ok("x\"y".to_string()));
    assert_eq!(
        render_single(&s, Some(ListFormat::Json)),
        Ok("{\"name\":\"A\",\"value\":\"x\\\"y\"}\n".to_string())
    );
    assert_eq!(
        render_single(&s, Some(ListFormat::Yaml)),
        Ok("name: \"A\"\nvalue: \"x\\\"y\"\n\n".to_string())
    );
    assert_eq!(
        render_single(&s, Some(ListFormat::Table)),
        Ok("name | value\nA | x\"y\n\n".to_string())
    );
}

#[test]
fn list_formats() {
    let list = vec![secret("A", "1"), secret("B", "2")];
    assert_eq!(
        render_all(&list, Some(ListFormat::Json)),
        "[{\"name\":\"A\",\"value\":\"1\"},{\"name\":\"B\",\"value\":\"2\"}]\n"
    );
    assert_eq!(
        render_all(&list, Some(ListFormat::Yaml)),
        "- name: \"A\"\n  value: \"1\"\n- name: \"B\"\n  value: \"2\"\n\n"
    );
    assert_eq!(render_all(&list, Some(ListFormat::Table)), "name | value\nA | 1\nB | 2\n\n");
    assert_eq!(
        render_all(&list, Some(ListFormat::ItemTable)),
        "name: A\nvalue: 1\n\nname: B\nvalue: 2\n\n\n"
    );
}

#[test]
fn empty_list_formats() {
    let list: Vec<Secret> = Vec::new();
    assert_eq!(render_all(&list, None), "");
    assert_eq!(render_all(&list, Some(ListFormat::Json)), "[]\n");
    assert_eq!(render_all(&list, Some(ListFormat::Yaml)), "[]\n");
    assert_eq!(render_json_list(&list), "[]");
}

#[test]
fn json_text_reads_back_to_same_pairs() {
    let list = vec![secret("K\"1", "line\nbreak"), secret("K2", "back\\slash\ttab")];
    let text = render_json_list(&list);
    assert_eq!(
        text,
        "[{\"name\":\"K\\\"1\",\"value\":\"line\\nbreak\"},{\"name\":\"K2\",\"value\":\"back\\\\slash\\ttab\"}]"
    );
}

#[test]
fn sanitize_escapes_quotes_backslashes_and_breaks() {
    assert_eq!(sanitize_value("plain"), "plain");
    assert_eq!(sanitize_value("a\"b"), "a\\\"b");
    assert_eq!(sanitize_value("a\\b"), "a\\\\b");
    assert_eq!(sanitize_value("l1\nl2\r"), "l1\\nl2\\r");
    assert_eq!(sanitize_value("héllo✓"), "héllo✓");
    assert_eq!(sanitize_value(""), "");
}

#[test]
fn error_messages_are_readable() {
    assert_eq!(
        RevealError::MissingAppId.message(),
        "No app id given. Use the `--app_id` flag to specify one."
    );
    assert_eq!(
        RevealError::UnsupportedFormat.message(),
        "The 'item-table' format is not available for single values."
    );
    assert!(!RevealError::Api.message().is_empty());
}

#[test]
fn json_rendering_parses_back_to_same_pairs() {
    let list = vec![
        secret("API_KEY", "a\"b"),
        secret("TOKEN", "xyz"),
        secret("MULTI", "l1\nl2\r\t\\end"),
        secret("UNI", "héllo ✓"),
    ];
    let text = render_all(&list, Some(ListFormat::Json));
    let parsed: serde_json::Value = serde_json::from_str(&text).unwrap();
    let items = parsed.as_array().unwrap();
    let mut got: Vec<(String, String)> = items
        .iter()
        .map(|o| {
            (
                o.get("name").unwrap().as_str().unwrap().to_string(),
                o.get("value").unwrap().as_str().unwrap().to_string(),
            )
        })
        .collect();
    let mut want: Vec<(String, String)> = list.iter().map(|s| (s.name.clone(), s.value.clone())).collect();
    got.sort();
    want.sort();
    assert_eq!(got, want);
}

#[test]
fn sanitize_escapes_control_characters() {
    assert_eq!(sanitize_value("a\u{1}b\u{1b}"), "a\\u0001b\\u001b");
    assert_eq!(sanitize_value("\u{7f}\u{85}\u{b}\u{c}\u{0}"), "\\u007f\\u0085\\u000b\\u000c\\u0000");
    let out = sanitize_value("x\u{1}\u{1b}[31m\u{9f}y");
    assert!(!out.chars().any(|c| c.is_control()));
}

#[test]
fn sanitize_escapes_shell_expansions() {
    assert_eq!(sanitize_value("$HOME `id`"), "\\$HOME \\`id\\`");
}

#[test]
fn assignment_lines_hold_no_control_characters() {
    let list = vec![secret("A", "\u{1}"), secret("B", "x\u{1b}y$z")];
    let out = render_all(&list, None);
    assert_eq!(out, "A=\"\\u0001\"\nB=\"x\\u001by\\$z\"\n");
    assert_eq!(out.lines().count(), 2);
}

#[test]
fn json_with_control_characters_parses_back() {
    let list = vec![
        secret("CTRL", "a\u{1}b\u{1b}c"),
        secret("C1", "\u{7f}\u{85}\u{9f}\u{0}"),
        secret("SHELL", "$x `y`"),
    ];
    let text = render_all(&list, Some(ListFormat::Json));
    assert!(text.contains("\\u0001") && text.contains("\\u001b"));
    assert!(text.contains("$x `y`"));
    let parsed: serde_json::Value = serde_json::from_str(&text).unwrap();
    let items = parsed.as_array().unwrap();
    let mut got: Vec<(String, String)> = items
        .iter()
        .map(|o| {
            (
                o.get("name").unwrap().as_str().unwrap().to_string(),
                o.get("value").unwrap().as_str().unwrap().to_string(),
            )
        })
        .collect();
    let mut want: Vec<(String, String)> = list.iter().map(|s| (s.name.clone(), s.value.clone())).collect();
    got.sort();
    want.sort();
    assert_eq!(got, want);

    let single = render_single(&secret("CTRL", "a\u{1}b"), Some(ListFormat::Json)).unwrap();
    let v: serde_json::Value = serde_json::from_str(&single).unwrap();
    assert_eq!(v.get("value").unwrap().as_str().unwrap(), "a\u{1}b");
}

#[test]
fn yaml_escapes_control_characters() {
    assert_eq!(
        render_single(&secret("A", "\u{1}"), Some(ListFormat::Yaml)),
        Ok("name: \"A\"\nvalue: \"\\u0001\"\n\n".to_string())
    );
}
