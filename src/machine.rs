//! The workflow state machine in mathematical form: what each call does to the
//! engine's state and which command it returns.

use vstd::prelude::*;
use crate::error::{error_message, ErrorView};
use crate::names::ascending;
use crate::parse::config_from_text;
use crate::protocol::{discovery_view, CommandView, EffectView, EventView};
use crate::recipe::{env_names, ConfigView, RefView, SourceView, StepView};
use crate::template::{lookup, render};

verus! {

/// The environment variables a recipe reads, in strictly ascending order.
pub open spec fn env_listing(c: ConfigView) -> Seq<Seq<char>> {
    choose|s: Seq<Seq<char>>| ascending(s) && s.to_set() == env_names(c)
}

/// The lifecycle stage of a workflow; tags are numbers.
pub enum StageView {
    Init,
    WaitingConfig(nat),
    LoadingEnv,
    Running,
    WaitingTimer(nat),
    Done(Result<(), Seq<char>>),
}

/// The step whose effect is outstanding.
pub struct PendingView {
    pub step_index: nat,
    pub tag: nat,
    pub store_as: Option<Seq<char>>,
    pub require_value: bool,
}

/// The state of one cycle.
pub struct RunView {
    pub step_index: nat,
    pub variables: Seq<(Seq<char>, Seq<char>)>,
    pub pending: Option<PendingView>,
}

/// The whole state of a workflow.
pub struct FlowView {
    pub stage: StageView,
    /// The number the next tag will carry.
    pub next_tag: nat,
    pub config: Option<ConfigView>,
    /// Environment values read so far.
    pub env: Seq<(Seq<char>, Seq<char>)>,
    /// Credentials, resolved to their secrets.
    pub creds: Seq<(Seq<char>, Seq<char>)>,
    /// Environment variables still to be read, in order.
    pub pending_env: Seq<Seq<char>>,
    /// The environment variable being read, and the tag of that read.
    pub current_env: Option<(Seq<char>, nat)>,
    pub run: Option<RunView>,
}

/// What holds of every state the engine reaches: issued tags are below
/// `next_tag`; a cycle exists exactly while running, and then has at most one
/// outstanding step, the current one; environment variables are queued in
/// ascending order, after the one being read.
pub open spec fn inv(s: FlowView) -> bool {
    &&& s.next_tag >= 1
    &&& (s.stage is Running <==> s.run is Some)
    &&& match s.stage {
        StageView::Init => s.config is None,
        StageView::WaitingConfig(t) => t < s.next_tag && s.config is None,
        StageView::LoadingEnv => s.config is Some,
        StageView::Running => s.config is Some,
        StageView::WaitingTimer(t) => t < s.next_tag && s.config is Some,
        StageView::Done(_) => true,
    }
    &&& match s.run {
        Some(run) => match s.config {
            Some(cfg) => run.step_index <= cfg.steps.len() && match run.pending {
                Some(p) => p.step_index == run.step_index && run.step_index < cfg.steps.len()
                    && p.tag < s.next_tag,
                None => true,
            },
            None => false,
        },
        None => true,
    }
    &&& match s.current_env {
        Some((n, t)) => t < s.next_tag && s.stage is LoadingEnv && (s.pending_env.len() > 0
            ==> crate::names::text_less(n, s.pending_env[0])),
        None => true,
    }
    &&& ascending(s.pending_env)
}

/// The state a new engine starts in.
pub open spec fn initial_view() -> FlowView {
    FlowView {
        stage: StageView::Init,
        next_tag: 1,
        config: None,
        env: Seq::empty(),
        creds: Seq::empty(),
        pending_env: Seq::empty(),
        current_env: None,
        run: None,
    }
}

/// Ends the workflow with the message of `e`.
pub open spec fn fail(s: FlowView, e: ErrorView) -> (FlowView, CommandView) {
    let m = error_message(e);
    (FlowView { stage: StageView::Done(Err(m)), run: None, ..s }, CommandView::Done(Err(m)))
}

/// `start`: from `Init`, ask for the recipe; once done, report the outcome.
pub open spec fn start_spec(s: FlowView) -> (FlowView, CommandView) {
    match s.stage {
        StageView::Init => (
            FlowView { stage: StageView::WaitingConfig(s.next_tag), next_tag: s.next_tag + 1, ..s },
            CommandView::Do(EffectView::LoadConfig { discovery: discovery_view(), tag: s.next_tag }),
        ),
        StageView::Done(res) => (s, CommandView::Done(res)),
        _ => (s, CommandView::Wait),
    }
}

/// The secret of the credential `name`.
pub open spec fn credential_spec(creds: Seq<(Seq<char>, Seq<char>)>, name: Seq<char>) -> Result<
    Seq<char>,
    ErrorView,
> {
    match lookup(creds, name) {
        Some(v) => Ok(v),
        None => Err(ErrorView::MissingCredential(name)),
    }
}

/// The secret of an optional credential name.
pub open spec fn opt_credential(creds: Seq<(Seq<char>, Seq<char>)>, name: Option<Seq<char>>) -> Result<
    Option<Seq<char>>,
    ErrorView,
> {
    match name {
        Some(n) => match credential_spec(creds, n) {
            Ok(v) => Ok(Some(v)),
            Err(e) => Err(e),
        },
        None => Ok(None),
    }
}

/// The string a value reference stands for. Typed references read only their
/// own scope; a literal is rendered as a template against all three.
pub open spec fn resolve_spec(
    r: RefView,
    vars: Seq<(Seq<char>, Seq<char>)>,
    creds: Seq<(Seq<char>, Seq<char>)>,
    env: Seq<(Seq<char>, Seq<char>)>,
) -> Result<Seq<char>, ErrorView> {
    match r {
        RefView::Literal(t) => render(t, vars, creds, env),
        RefView::Env(n) => match lookup(env, n) {
            Some(v) => Ok(v),
            None => Err(ErrorView::MissingEnvVar(n)),
        },
        RefView::Credential(n) => credential_spec(creds, n),
        RefView::Variable(n) => match lookup(vars, n) {
            Some(v) => Ok(v),
            None => Err(ErrorView::MissingVariable(n)),
        },
    }
}

/// An optional value reference, resolved.
pub open spec fn opt_resolve(
    r: Option<RefView>,
    vars: Seq<(Seq<char>, Seq<char>)>,
    creds: Seq<(Seq<char>, Seq<char>)>,
    env: Seq<(Seq<char>, Seq<char>)>,
) -> Result<Option<Seq<char>>, ErrorView> {
    match r {
        Some(x) => match resolve_spec(x, vars, creds, env) {
            Ok(v) => Ok(Some(v)),
            Err(e) => Err(e),
        },
        None => Ok(None),
    }
}

/// The outstanding step and the effect that a step issues with tag `tag`, its
/// references resolved against the same variables; or the first resolution
/// failure, in field order.
pub open spec fn step_effect(
    step: StepView,
    vars: Seq<(Seq<char>, Seq<char>)>,
    creds: Seq<(Seq<char>, Seq<char>)>,
    env: Seq<(Seq<char>, Seq<char>)>,
    index: nat,
    tag: nat,
) -> Result<(PendingView, EffectView), ErrorView> {
    match step {
        StepView::GoogleSheet { sheet_id, worksheet, cell, store_as, credentials } => match resolve_spec(
            sheet_id,
            vars,
            creds,
            env,
        ) {
            Err(e) => Err(e),
            Ok(sheet_id) => match opt_resolve(worksheet, vars, creds, env) {
                Err(e) => Err(e),
                Ok(worksheet) => match opt_credential(creds, credentials) {
                    Err(e) => Err(e),
                    Ok(credentials) => Ok(
                        (
                            PendingView {
                                step_index: index,
                                tag,
                                store_as: Some(store_as),
                                require_value: true,
                            },
                            EffectView::FetchGoogleSheetCell {
                                sheet_id,
                                worksheet,
                                cell,
                                credentials,
                                tag,
                            },
                        ),
                    ),
                },
            },
        },
        StepView::Email { account, field, regex, store_as, credentials } => match resolve_spec(
            account,
            vars,
            creds,
            env,
        ) {
            Err(e) => Err(e),
            Ok(account) => match resolve_spec(regex, vars, creds, env) {
                Err(e) => Err(e),
                Ok(regex) => match opt_credential(creds, credentials) {
                    Err(e) => Err(e),
                    Ok(credentials) => Ok(
                        (
                            PendingView {
                                step_index: index,
                                tag,
                                store_as,
                                require_value: store_as is Some,
                            },
                            EffectView::SearchEmails { account, field, regex, credentials, tag },
                        ),
                    ),
                },
            },
        },
        StepView::Telegram { chat_id, message, credentials } => match resolve_spec(
            chat_id,
            vars,
            creds,
            env,
        ) {
            Err(e) => Err(e),
            Ok(chat_id) => match resolve_spec(message, vars, creds, env) {
                Err(e) => Err(e),
                Ok(message) => match opt_credential(creds, credentials) {
                    Err(e) => Err(e),
                    Ok(credentials) => Ok(
                        (
                            PendingView {
                                step_index: index,
                                tag,
                                store_as: None,
                                require_value: false,
                            },
                            EffectView::SendTelegramMessage { chat_id, message, credentials, tag },
                        ),
                    ),
                },
            },
        },
    }
}

/// Moves the cycle on: wait while a step is outstanding; after the last step,
/// start the timer; otherwise issue the current step's effect.
pub open spec fn advance_spec(s: FlowView) -> (FlowView, CommandView) {
    match s.config {
        None => (s, CommandView::Wait),
        Some(cfg) => match s.run {
            None => (s, CommandView::Wait),
            Some(run) => if run.pending is Some {
                (s, CommandView::Wait)
            } else if run.step_index >= cfg.steps.len() {
                (
                    FlowView {
                        run: None,
                        stage: StageView::WaitingTimer(s.next_tag),
                        next_tag: s.next_tag + 1,
                        ..s
                    },
                    CommandView::Do(EffectView::StartTimer { secs: cfg.run_every, tag: s.next_tag }),
                )
            } else {
                match step_effect(
                    cfg.steps[run.step_index as int],
                    run.variables,
                    s.creds,
                    s.env,
                    run.step_index,
                    s.next_tag,
                ) {
                    Ok((p, eff)) => (
                        FlowView {
                            next_tag: s.next_tag + 1,
                            run: Some(RunView { pending: Some(p), ..run }),
                            ..s
                        },
                        CommandView::Do(eff),
                    ),
                    Err(e) => fail(s, e),
                }
            },
        },
    }
}

/// A new cycle: no variables, the first step, nothing outstanding.
pub open spec fn fresh_run() -> RunView {
    RunView { step_index: 0, variables: Seq::empty(), pending: None }
}

/// Starts a cycle and advances it.
pub open spec fn start_run_spec(s: FlowView) -> (FlowView, CommandView) {
    if s.config is None {
        (s, CommandView::Wait)
    } else {
        advance_spec(FlowView { run: Some(fresh_run()), stage: StageView::Running, ..s })
    }
}

/// `acc` followed by the credentials resolved in recipe order.
pub open spec fn resolve_creds(
    acc: Seq<(Seq<char>, Seq<char>)>,
    cs: Seq<(Seq<char>, SourceView)>,
    env: Seq<(Seq<char>, Seq<char>)>,
) -> Result<Seq<(Seq<char>, Seq<char>)>, ErrorView>
    decreases cs.len(),
{
    if cs.len() == 0 {
        Ok(acc)
    } else {
        match cs[0].1 {
            SourceView::Value(v) => resolve_creds(acc.push((cs[0].0, v)), cs.drop_first(), env),
            SourceView::EnvVar(n) => match lookup(env, n) {
                Some(v) => resolve_creds(acc.push((cs[0].0, v)), cs.drop_first(), env),
                None => Err(ErrorView::MissingEnvVar(n)),
            },
        }
    }
}

/// Reads the next environment variable, or, when all are read, resolves the
/// credentials and starts the first cycle.
pub open spec fn fetch_env_spec(s: FlowView) -> (FlowView, CommandView) {
    if s.current_env is Some {
        (s, CommandView::Wait)
    } else if s.pending_env.len() > 0 {
        let name = s.pending_env[0];
        (
            FlowView {
                pending_env: s.pending_env.drop_first(),
                current_env: Some((name, s.next_tag)),
                next_tag: s.next_tag + 1,
                ..s
            },
            CommandView::Do(EffectView::ReadEnvVar { name, tag: s.next_tag }),
        )
    } else {
        match s.config {
            None => start_run_spec(s),
            Some(cfg) => match resolve_creds(Seq::empty(), cfg.credentials, s.env) {
                Ok(creds) => start_run_spec(FlowView { creds, ..s }),
                Err(e) => fail(s, e),
            },
        }
    }
}

/// The state once a recipe is accepted: its environment variables queued,
/// nothing read or resolved yet.
pub open spec fn loading_view(s: FlowView, c: ConfigView) -> FlowView {
    FlowView {
        config: Some(c),
        env: Seq::empty(),
        creds: Seq::empty(),
        pending_env: env_listing(c),
        current_env: None,
        stage: StageView::LoadingEnv,
        ..s
    }
}

/// The message of a step that had to yield a value and yielded none.
pub open spec fn missing_value(index: nat) -> ErrorView {
    ErrorView::StepFailure { step_index: index, message: "missing value in step result"@ }
}

/// `on_event`: an event whose tag or kind does not fit the current stage is
/// ignored, and the answer is `Wait`; so is every event once the workflow is done.
pub open spec fn on_event_spec(s: FlowView, e: EventView) -> (FlowView, CommandView) {
    match s.stage {
        StageView::WaitingConfig(t) => match e {
            EventView::ConfigLoaded { tag, contents, .. } => if tag == t {
                match config_from_text(contents) {
                    Ok(c) => fetch_env_spec(loading_view(s, c)),
                    Err(err) => fail(s, err),
                }
            } else {
                (s, CommandView::Wait)
            },
            EventView::ConfigLoadFailed { tag, error } => if tag == t {
                fail(s, ErrorView::ConfigLoad(error))
            } else {
                (s, CommandView::Wait)
            },
            _ => (s, CommandView::Wait),
        },
        StageView::LoadingEnv => match e {
            EventView::EnvVarLoaded { tag, name, value } => match s.current_env {
                Some((n, t)) => if t == tag && n == name {
                    match value {
                        Some(v) => fetch_env_spec(
                            FlowView { env: s.env.push((name, v)), current_env: None, ..s },
                        ),
                        None => fail(
                            FlowView { current_env: None, ..s },
                            ErrorView::MissingEnvVar(n),
                        ),
                    }
                } else {
                    (s, CommandView::Wait)
                },
                None => (s, CommandView::Wait),
            },
            _ => (s, CommandView::Wait),
        },
        StageView::Running => match s.run {
            None => (s, CommandView::Wait),
            Some(run) => match run.pending {
                None => (s, CommandView::Wait),
                Some(p) => match e {
                    EventView::StepCompleted { tag, value } => if tag != p.tag {
                        (s, CommandView::Wait)
                    } else {
                        let cleared = FlowView { run: Some(RunView { pending: None, ..run }), ..s };
                        match p.store_as {
                            Some(name) => match value {
                                Some(v) => advance_spec(
                                    FlowView {
                                        run: Some(
                                            RunView {
                                                step_index: run.step_index + 1,
                                                variables: run.variables.push((name, v)),
                                                pending: None,
                                            },
                                        ),
                                        ..s
                                    },
                                ),
                                None => fail(cleared, missing_value(p.step_index)),
                            },
                            None => if p.require_value && value is None {
                                fail(cleared, missing_value(p.step_index))
                            } else {
                                advance_spec(
                                    FlowView {
                                        run: Some(
                                            RunView {
                                                step_index: run.step_index + 1,
                                                pending: None,
                                                ..run
                                            },
                                        ),
                                        ..s
                                    },
                                )
                            },
                        }
                    },
                    EventView::StepFailed { tag, error } => if tag == p.tag {
                        fail(
                            s,
                            ErrorView::StepFailure { step_index: p.step_index, message: error },
                        )
                    } else {
                        (s, CommandView::Wait)
                    },
                    _ => (s, CommandView::Wait),
                },
            },
        },
        StageView::WaitingTimer(t) => match e {
            EventView::TimerFired { tag } => if tag == t {
                start_run_spec(s)
            } else {
                (s, CommandView::Wait)
            },
            _ => (s, CommandView::Wait),
        },
        StageView::Init => (s, CommandView::Wait),
        StageView::Done(_) => (s, CommandView::Wait),
    }
}

} // verus!
