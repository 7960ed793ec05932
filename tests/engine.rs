use server_model::{Command, EffId, Effect, Event, ReminderFlow};

fn happy_recipe() -> String {
    r#"
run_every: "10m"
credentials:
  google_docs:
    env: GOOGLE_DOCS_TOKEN
  telegram_bot:
    env: TELEGRAM_BOT_TOKEN
steps:
  - type: google_sheet
    sheet_id:
      env: SHEET_ID
    cell:
      row: 2
      column: 3
    store_as: sheet_value
    credentials: google_docs
  - type: email
    account: "alerts@example.com"
    field: subject
    regex: "Alert {{sheet_value}}"
    store_as: email_subject
  - type: telegram
    chat_id: "@channel"
    message: "We saw {{email_subject}}"
    credentials: telegram_bot
"#
    .to_string()
}

fn effect_tag(cmd: &Command) -> EffId {
    match cmd {
        Command::Do(Effect::LoadConfig { tag, .. }) => *tag,
        Command::Do(Effect::ReadEnvVar { tag, .. }) => *tag,
        Command::Do(Effect::FetchGoogleSheetCell(r)) => r.tag,
        Command::Do(Effect::SearchEmails(r)) => r.tag,
        Command::Do(Effect::SendTelegramMessage(r)) => r.tag,
        Command::Do(Effect::StartTimer { tag, .. }) => *tag,
        other => panic!("expected an effect, got {:?}", other),
    }
}

fn load(flow: &mut ReminderFlow, recipe: &str) -> Command {
    let tag = effect_tag(&flow.start());
    flow.on_event(Event::ConfigLoaded { tag, path: "cfg".into(), contents: recipe.to_string() })
}

fn answer_env(flow: &mut ReminderFlow, mut cmd: Command) -> Command {
    loop {
        match cmd {
            Command::Do(Effect::ReadEnvVar { name, tag }) => {
                let value = format!("{}-value", name);
                cmd = flow.on_event(Event::EnvVarLoaded { tag, name, value: Some(value) });
            }
            other => return other,
        }
    }
}

fn failure(cmd: Command) -> String {
    match cmd {
        Command::Done(Err(msg)) => msg,
        other => panic!("expected failure, got {:?}", other),
    }
}

#[test]
fn tags_are_unique_and_increasing() {
    let mut flow = ReminderFlow::new();
    let mut tags = Vec::new();
    let first = flow.start();
    tags.push(effect_tag(&first));
    let mut cmd = flow.on_event(Event::ConfigLoaded {
        tag: tags[0],
        path: "cfg".into(),
        contents: happy_recipe(),
    });
    for _ in 0..12 {
        let tag = effect_tag(&cmd);
        tags.push(tag);
        cmd = match &cmd {
            Command::Do(Effect::ReadEnvVar { name, .. }) => flow.on_event(Event::EnvVarLoaded {
                tag,
                name: name.clone(),
                value: Some("v".into()),
            }),
            Command::Do(Effect::StartTimer { .. }) => flow.on_event(Event::TimerFired { tag }),
            _ => flow.on_event(Event::StepCompleted { tag, value: Some("x".into()) }),
        };
    }
    for i in 0..tags.len() {
        for j in (i + 1)..tags.len() {
            assert_ne!(tags[i], tags[j]);
        }
    }
}

#[test]
fn done_is_absorbing() {
    let mut flow = ReminderFlow::new();
    let tag = effect_tag(&flow.start());
    let msg = failure(flow.on_event(Event::ConfigLoadFailed { tag, error: "missing".into() }));
    assert_eq!(msg, "failed to load configuration: missing");
    assert!(matches!(flow.on_event(Event::TimerFired { tag }), Command::Wait));
    assert!(matches!(
        flow.on_event(Event::ConfigLoaded { tag, path: "p".into(), contents: happy_recipe() }),
        Command::Wait
    ));
    match flow.start() {
        Command::Done(Err(again)) => assert_eq!(again, msg),
        other => panic!("expected the same failure, got {:?}", other),
    }
    assert_eq!(flow.done(), Err(msg));
}

#[test]
fn mismatched_tags_are_ignored() {
    let mut flow = ReminderFlow::new();
    let config_tag = effect_tag(&flow.start());
    let loaded = load_happy_into_started(&mut flow, config_tag);
    let cmd = answer_env(&mut flow, loaded);
    let sheet_tag = effect_tag(&cmd);
    assert!(matches!(
        flow.on_event(Event::StepCompleted { tag: config_tag, value: Some("x".into()) }),
        Command::Wait
    ));
    assert!(matches!(
        flow.on_event(Event::StepFailed { tag: config_tag, error: "boom".into() }),
        Command::Wait
    ));
    assert!(matches!(flow.on_event(Event::TimerFired { tag: sheet_tag }), Command::Wait));
    assert!(matches!(
        flow.on_event(Event::StepCompleted { tag: sheet_tag, value: Some("2024".into()) }),
        Command::Do(Effect::SearchEmails(_))
    ));
}

#[test]
fn duplicate_completion_is_stale() {
    let mut flow = ReminderFlow::new();
    let loaded = load_happy_into(&mut flow);
    let cmd = answer_env(&mut flow, loaded);
    let sheet_tag = effect_tag(&cmd);
    let first = flow.on_event(Event::StepCompleted {
        tag: sheet_tag,
        value: Some("2024-05-01".into()),
    });
    assert!(matches!(first, Command::Do(Effect::SearchEmails(_))));
    let second = flow.on_event(Event::StepCompleted {
        tag: sheet_tag,
        value: Some("2024-05-01".into()),
    });
    assert!(matches!(second, Command::Wait));
}

fn load_happy_into(flow: &mut ReminderFlow) -> Command {
    load(flow, &happy_recipe())
}

fn load_happy_into_started(flow: &mut ReminderFlow, tag: EffId) -> Command {
    flow.on_event(Event::ConfigLoaded { tag, path: "cfg".into(), contents: happy_recipe() })
}

#[test]
fn env_vars_are_read_in_ascending_order() {
    let recipe = r#"
run_every: "1m"
credentials:
  zed:
    env: ZED
  alpha:
    env: ALPHA
steps:
  - type: telegram
    chat_id:
      env: MID
    message:
      env: ALPHA
"#;
    let mut flow = ReminderFlow::new();
    let mut cmd = load(&mut flow, recipe);
    let mut names = Vec::new();
    while let Command::Do(Effect::ReadEnvVar { name, tag }) = cmd {
        names.push(name.clone());
        cmd = flow.on_event(Event::EnvVarLoaded { tag, name, value: Some("v".into()) });
    }
    assert_eq!(names, vec!["ALPHA".to_string(), "MID".to_string(), "ZED".to_string()]);
    match cmd {
        Command::Do(Effect::SendTelegramMessage(r)) => {
            assert_eq!(r.chat_id, "v");
            assert_eq!(r.message, "v");
        }
        other => panic!("expected telegram send, got {:?}", other),
    }
}

#[test]
fn each_cycle_starts_without_variables() {
    let recipe = r#"
run_every: "5s"
credentials:
  v:
    value: from-credential
steps:
  - type: telegram
    chat_id: "@c"
    message: "{{v}}"
  - type: google_sheet
    sheet_id: "s"
    cell: { row: 1, column: 1 }
    store_as: v
"#;
    let mut flow = ReminderFlow::new();
    let cmd = load(&mut flow, recipe);
    let tag = match cmd {
        Command::Do(Effect::SendTelegramMessage(r)) => {
            assert_eq!(r.message, "from-credential");
            r.tag
        }
        other => panic!("expected telegram send, got {:?}", other),
    };
    let cmd = flow.on_event(Event::StepCompleted { tag, value: None });
    let tag = effect_tag(&cmd);
    let cmd = flow.on_event(Event::StepCompleted { tag, value: Some("from-sheet".into()) });
    let timer = match cmd {
        Command::Do(Effect::StartTimer { duration, tag }) => {
            assert_eq!(duration.as_secs(), 5);
            tag
        }
        other => panic!("expected timer, got {:?}", other),
    };
    match flow.on_event(Event::TimerFired { tag: timer }) {
        Command::Do(Effect::SendTelegramMessage(r)) => assert_eq!(r.message, "from-credential"),
        other => panic!("expected telegram send, got {:?}", other),
    }
}

#[test]
fn env_and_credentials_are_reused_across_cycles() {
    let mut flow = ReminderFlow::new();
    let loaded = load_happy_into(&mut flow);
    let mut cmd = answer_env(&mut flow, loaded);
    for _ in 0..3 {
        let tag = effect_tag(&cmd);
        cmd = flow.on_event(Event::StepCompleted { tag, value: Some("x".into()) });
    }
    let timer = effect_tag(&cmd);
    match flow.on_event(Event::TimerFired { tag: timer }) {
        Command::Do(Effect::FetchGoogleSheetCell(r)) => {
            assert_eq!(r.sheet_id, "SHEET_ID-value");
            assert_eq!(r.credentials.as_deref(), Some("GOOGLE_DOCS_TOKEN-value"));
        }
        other => panic!("expected sheet fetch without env reads, got {:?}", other),
    }
}
