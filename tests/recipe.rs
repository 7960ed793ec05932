use server_model::template::{render_template, Scope};
use server_model::{
    parse_duration, Command, CredentialSource, Effect, EmailField, Event, FlowConfig, FlowError,
    ReminderFlow, Step, ValueRef,
};

fn invalid(recipe: &str) -> String {
    match FlowConfig::from_yaml(recipe) {
        Err(FlowError::InvalidConfig(reason)) => reason,
        Err(other) => panic!("expected an invalid configuration, got {:?}", other),
        Ok(cfg) => panic!("expected an invalid configuration, got {:?}", cfg),
    }
}

fn scope(pairs: &[(&str, &str)]) -> Scope {
    let mut s = Scope::new();
    for (k, v) in pairs {
        s.insert(k.to_string(), v.to_string());
    }
    s
}

#[test]
fn duration_boundaries() {
    assert_eq!(parse_duration("0s").map(|d| d.as_secs()), Some(0));
    assert!(parse_duration("").is_none());
    assert_eq!(parse_duration("10").map(|d| d.as_secs()), Some(10));
    assert!(parse_duration("10x").is_none());
    assert!(parse_duration("1 0m").is_none());
}

#[test]
fn duration_units() {
    assert_eq!(parse_duration("10m").map(|d| d.as_secs()), Some(600));
    assert_eq!(parse_duration("2h").map(|d| d.as_secs()), Some(7200));
    assert_eq!(parse_duration("1d").map(|d| d.as_secs()), Some(86400));
    assert_eq!(parse_duration(" 7s ").map(|d| d.as_secs()), Some(7));
    assert!(parse_duration("m").is_none());
    assert!(parse_duration("5ms").is_none());
    assert!(parse_duration("18446744073709551616").is_none());
    assert!(parse_duration("18446744073709551615d").is_none());
    assert_eq!(
        parse_duration("18446744073709551615").map(|d| d.as_secs()),
        Some(18446744073709551615)
    );
}

#[test]
fn template_boundaries() {
    let vars = scope(&[("x", "y")]);
    let none = Scope::new();
    assert_eq!(render_template("{{x}}", &vars, &none, &none).unwrap(), "y");
    assert_eq!(render_template("{{ x }}", &vars, &none, &none).unwrap(), "y");
    match render_template("{{}}", &vars, &none, &none) {
        Err(FlowError::InvalidTemplate(d)) => assert_eq!(d, "empty placeholder in template"),
        other => panic!("expected an empty placeholder error, got {:?}", other),
    }
    match render_template("a{{x", &vars, &none, &none) {
        Err(FlowError::InvalidTemplate(d)) => assert_eq!(d, "unclosed placeholder in template"),
        other => panic!("expected an unclosed placeholder error, got {:?}", other),
    }
}

#[test]
fn template_scope_order_and_no_rescan() {
    let vars = scope(&[("a", "{{b}}")]);
    let creds = scope(&[("a", "cred"), ("b", "secret")]);
    let env = scope(&[("b", "env"), ("c", "E")]);
    assert_eq!(
        render_template("<{{a}}|{{b}}|{{c}}>", &vars, &creds, &env).unwrap(),
        "<{{b}}|secret|E>"
    );
    match render_template("x {{ nope }} {{}}", &vars, &creds, &env) {
        Err(FlowError::MissingVariable(n)) => assert_eq!(n, "nope"),
        other => panic!("expected a missing variable, got {:?}", other),
    }
    assert_eq!(render_template("plain } { text", &vars, &creds, &env).unwrap(), "plain } { text");
}

#[test]
fn empty_credentials_are_valid() {
    for recipe in ["run_every: 1m\ncredentials: {}\nsteps: []\n", "run_every: 1m\ncredentials:\nsteps: []\n"] {
        let cfg = FlowConfig::from_yaml(recipe).unwrap();
        assert!(cfg.credentials.is_empty());
        assert!(cfg.steps.is_empty());
        assert_eq!(cfg.run_every.as_secs(), 60);
    }
}

#[test]
fn recipe_is_read_as_written() {
    let recipe = r#"
run_every: "2h"
credentials:
  bot:
    value: token
  docs:
    env: DOCS
steps:
  - type: google_sheet
    sheet_id: { credential: bot }
    worksheet: { var: tab }
    cell: { row: 7, column: 0 }
    store_as: cell
  - type: email
    account: { value: "me@example.com" }
    field: recipient
    regex: "x"
"#;
    let cfg = FlowConfig::from_yaml(recipe).unwrap();
    assert_eq!(cfg.run_every.as_secs(), 7200);
    assert_eq!(
        cfg.credentials,
        vec![
            ("bot".to_string(), CredentialSource::Value("token".into())),
            ("docs".to_string(), CredentialSource::EnvVar("DOCS".into())),
        ]
    );
    match &cfg.steps[0] {
        Step::GoogleSheet(s) => {
            assert_eq!(s.sheet_id, ValueRef::Credential("bot".into()));
            assert_eq!(s.worksheet, Some(ValueRef::Variable("tab".into())));
            assert_eq!((s.cell.row, s.cell.column), (7, 0));
            assert_eq!(s.store_as, "cell");
            assert_eq!(s.credentials, None);
        }
        other => panic!("expected a sheet step, got {:?}", other),
    }
    match &cfg.steps[1] {
        Step::Email(s) => {
            assert_eq!(s.account, ValueRef::Literal("me@example.com".into()));
            assert_eq!(s.field, EmailField::Recipient);
            assert_eq!(s.store_as, None);
        }
        other => panic!("expected an email step, got {:?}", other),
    }
    let names = cfg.env_requests().to_vec();
    assert_eq!(names, vec!["DOCS".to_string()]);
}

#[test]
fn recipe_round_trips_through_its_document() {
    let recipe = r#"
run_every: "10m"
credentials:
  google_docs: { env: GOOGLE_DOCS_TOKEN }
  telegram_bot: { value: "tg" }
steps:
  - type: google_sheet
    sheet_id: { env: SHEET_ID }
    cell: { row: 2, column: 3 }
    store_as: sheet_value
    credentials: google_docs
  - type: email
    account: "alerts@example.com"
    field: subject
    regex: "Alert {{sheet_value}}"
    store_as: email_subject
  - type: telegram
    chat_id: "@channel"
    message: { var: email_subject }
    credentials: telegram_bot
"#;
    let cfg = FlowConfig::from_yaml(recipe).unwrap();
    let again = FlowConfig::from_doc(&cfg.to_doc()).unwrap();
    assert_eq!(again, cfg);
}

#[test]
fn recipe_errors() {
    assert_eq!(invalid("run_every: soon\nsteps: []\n"), "invalid run_every value");
    assert_eq!(invalid("steps: []\n"), "missing field 'run_every'");
    assert_eq!(invalid("run_every: 1m\n"), "missing field 'steps'");
    assert_eq!(
        invalid("run_every: 1m\ncredentials:\n  k: { value: a, env: B }\nsteps: []\n"),
        "credential 'k': credential must specify either 'value' or 'env'"
    );
    assert_eq!(
        invalid("run_every: 1m\ncredentials:\n  k: {}\nsteps: []\n"),
        "credential 'k': credential must specify 'value' or 'env'"
    );
    assert_eq!(
        invalid("run_every: 1m\ncredentials:\n  k: { var: a }\nsteps: []\n"),
        "credential 'k': credential may only specify 'value' or 'env'"
    );
    assert_eq!(
        invalid("run_every: 1m\nsteps:\n  - type: telegram\n    chat_id: { env: A, var: B }\n    message: m\n"),
        "step 1: field 'chat_id': value reference must specify only one source"
    );
    assert_eq!(
        invalid("run_every: 1m\nsteps:\n  - type: telegram\n    chat_id: { other: A }\n    message: m\n"),
        "step 1: field 'chat_id': unknown field 'other', expected one of 'value', 'env', 'credential', 'var'"
    );
    assert_eq!(
        invalid("run_every: 1m\nsteps:\n  - type: fax\n"),
        "step 1: unknown step type 'fax'"
    );
    assert_eq!(
        invalid("run_every: 1m\nsteps:\n  - type: google_sheet\n    sheet_id: s\n    cell: { row: -1, column: 0 }\n    store_as: v\n"),
        "step 1: field 'row' must be an unsigned 32-bit integer"
    );
    assert!(FlowConfig::from_yaml("invalid: [").is_err());
}

#[test]
fn yaml_text_is_read_into_a_recipe() {
    let cfg = FlowConfig::from_yaml("run_every: 3d\nsteps:\n  - type: telegram\n    chat_id: 42\n    message: hi\n");
    assert_eq!(
        cfg.map(|c| c.steps.len()).map_err(|e| e.message()),
        Err("invalid configuration: step 1: field 'chat_id': expected a string or a value reference map".to_string())
    );
    let cfg = FlowConfig::from_yaml("run_every: 3d\nsteps:\n  - type: telegram\n    chat_id: \"42\"\n    message: hi\n").unwrap();
    assert_eq!(cfg.run_every.as_secs(), 259200);
    match FlowConfig::from_yaml("invalid: [") {
        Err(FlowError::InvalidConfig(reason)) => assert!(!reason.is_empty()),
        other => panic!("expected a YAML error, got {:?}", other),
    }
}

#[test]
fn error_messages() {
    let cases = vec![
        (FlowError::ConfigLoad("gone".into()), "failed to load configuration: gone"),
        (FlowError::InvalidConfig("bad".into()), "invalid configuration: bad"),
        (FlowError::MissingEnvVar("E".into()), "environment variable 'E' is required"),
        (FlowError::MissingCredential("c".into()), "credential 'c' is not defined"),
        (FlowError::MissingVariable("v".into()), "value for 'v' is not available"),
        (FlowError::InvalidTemplate("t".into()), "template error: t"),
        (
            FlowError::StepFailure { step_index: 9, message: "boom".into() },
            "step 10 failed: boom",
        ),
    ];
    for (err, msg) in cases {
        assert_eq!(err.message(), msg);
    }
}

fn run_single_step(recipe: &str) -> (ReminderFlow, Command) {
    let mut flow = ReminderFlow::new();
    let tag = match flow.start() {
        Command::Do(Effect::LoadConfig { tag, .. }) => tag,
        other => panic!("unexpected command: {:?}", other),
    };
    let cmd = flow.on_event(Event::ConfigLoaded { tag, path: "cfg".into(), contents: recipe.into() });
    (flow, cmd)
}

#[test]
fn undefined_credential_fails() {
    let (_, cmd) = run_single_step(
        "run_every: 1m\nsteps:\n  - type: telegram\n    chat_id: c\n    message: m\n    credentials: nope\n",
    );
    match cmd {
        Command::Done(Err(msg)) => assert_eq!(msg, "credential 'nope' is not defined"),
        other => panic!("expected failure, got {:?}", other),
    }
}

#[test]
fn empty_placeholder_fails_the_run() {
    let (_, cmd) = run_single_step(
        "run_every: 1m\nsteps:\n  - type: telegram\n    chat_id: c\n    message: \"{{ }}\"\n",
    );
    match cmd {
        Command::Done(Err(msg)) => assert_eq!(msg, "template error: empty placeholder in template"),
        other => panic!("expected failure, got {:?}", other),
    }
}

#[test]
fn step_failures_are_reported_one_based() {
    let recipe = "run_every: 1m\nsteps:\n  - type: google_sheet\n    sheet_id: s\n    cell: { row: 1, column: 1 }\n    store_as: v\n";
    let (mut flow, cmd) = run_single_step(recipe);
    let tag = match cmd {
        Command::Do(Effect::FetchGoogleSheetCell(r)) => r.tag,
        other => panic!("expected sheet fetch, got {:?}", other),
    };
    match flow.on_event(Event::StepCompleted { tag, value: None }) {
        Command::Done(Err(msg)) => assert_eq!(msg, "step 1 failed: missing value in step result"),
        other => panic!("expected failure, got {:?}", other),
    }
    let (mut flow, cmd) = run_single_step(recipe);
    let tag = match cmd {
        Command::Do(Effect::FetchGoogleSheetCell(r)) => r.tag,
        other => panic!("expected sheet fetch, got {:?}", other),
    };
    match flow.on_event(Event::StepFailed { tag, error: "timeout".into() }) {
        Command::Done(Err(msg)) => assert_eq!(msg, "step 1 failed: timeout"),
        other => panic!("expected failure, got {:?}", other),
    }
}

#[test]
fn email_without_store_as_accepts_no_match() {
    let recipe = "run_every: 3s\nsteps:\n  - type: email\n    account: a\n    field: sender\n    regex: r\n";
    let (mut flow, cmd) = run_single_step(recipe);
    let tag = match cmd {
        Command::Do(Effect::SearchEmails(r)) => {
            assert_eq!(r.field, EmailField::Sender);
            r.tag
        }
        other => panic!("expected email search, got {:?}", other),
    };
    match flow.on_event(Event::StepCompleted { tag, value: None }) {
        Command::Do(Effect::StartTimer { duration, .. }) => assert_eq!(duration.as_secs(), 3),
        other => panic!("expected timer, got {:?}", other),
    }
}
