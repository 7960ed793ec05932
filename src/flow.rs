//! The workflow engine: it parses the recipe, plans effects, matches the
//! host's events to them, and schedules the next cycle. It performs no I/O.

use vstd::prelude::*;
use crate::error::{outcome, FlowError};
use crate::machine::{
    advance_spec, env_listing, inv, fail, fetch_env_spec, initial_view, on_event_spec, opt_credential,
    opt_resolve, resolve_creds, resolve_spec, credential_spec, start_run_spec, start_spec,
    step_effect, FlowView, PendingView, RunView, StageView,
};
use crate::names::{ascending, lemma_ascending_unique};
use crate::protocol::{
    config_discovery, Command, CommandView, EffId, Effect, EmailSearchRequest, Event, GoogleSheetRequest,
    TelegramRequest,
};
use crate::recipe::{env_names, opt_view, CredentialSource, FlowConfig, Step, ValueRef};
use crate::template::{render_template, Scope};

verus! {

/// The lifecycle stage of a workflow.
enum Stage {
    Init,
    WaitingConfig { tag: EffId },
    LoadingEnv,
    Running,
    WaitingTimer { tag: EffId },
    Done(Result<(), String>),
}

spec fn stage_view(s: Stage) -> StageView {
    match s {
        Stage::Init => StageView::Init,
        Stage::WaitingConfig { tag } => StageView::WaitingConfig(tag@),
        Stage::LoadingEnv => StageView::LoadingEnv,
        Stage::Running => StageView::Running,
        Stage::WaitingTimer { tag } => StageView::WaitingTimer(tag@),
        Stage::Done(Ok(())) => StageView::Done(Ok(())),
        Stage::Done(Err(m)) => StageView::Done(Err(m@)),
    }
}

/// The step whose effect is outstanding.
struct PendingStep {
    step_index: usize,
    tag: EffId,
    store_as: Option<String>,
    require_value: bool,
}

/// The state of one cycle.
struct RunState {
    step_index: usize,
    variables: Scope,
    pending: Option<PendingStep>,
}

spec fn pending_view(p: Option<PendingStep>) -> Option<PendingView> {
    match p {
        Some(p) => Some(
            PendingView {
                step_index: p.step_index as nat,
                tag: p.tag@,
                store_as: opt_view(p.store_as),
                require_value: p.require_value,
            },
        ),
        None => None,
    }
}

spec fn run_view(r: Option<RunState>) -> Option<RunView> {
    match r {
        Some(r) => Some(
            RunView {
                step_index: r.step_index as nat,
                variables: r.variables@,
                pending: pending_view(r.pending),
            },
        ),
        None => None,
    }
}

/// One reminder workflow, driven by `start` and `on_event`.
pub struct ReminderFlow {
    stage: Stage,
    next_tag: u64,
    config: Option<FlowConfig>,
    env_values: Scope,
    resolved_credentials: Scope,
    pending_env: Vec<String>,
    current_env: Option<(String, EffId)>,
    run_state: Option<RunState>,
}

impl View for ReminderFlow {
    type V = FlowView;

    closed spec fn view(&self) -> FlowView {
        FlowView {
            stage: stage_view(self.stage),
            next_tag: self.next_tag as nat,
            config: match self.config {
                Some(c) => Some(c@),
                None => None,
            },
            env: self.env_values@,
            creds: self.resolved_credentials@,
            pending_env: self.pending_env@.map_values(|n: String| n@),
            current_env: match self.current_env {
                Some((n, t)) => Some((n@, t@)),
                None => None,
            },
            run: run_view(self.run_state),
        }
    }
}

fn clone_opt(o: &Option<String>) -> (r: Option<String>)
    ensures
        opt_view(r) == opt_view(*o),
{
    match o {
        Some(s) => Some(s.clone()),
        None => None,
    }
}

impl ReminderFlow {
    /// A workflow that has not started.
    pub fn new() -> (r: ReminderFlow)
        ensures
            r@ == initial_view(),
            inv(r@),
    {
        proof {
            crate::laws::lemma_initial_inv();
        }
        let r = ReminderFlow {
            stage: Stage::Init,
            next_tag: 1,
            config: None,
            env_values: Scope::new(),
            resolved_credentials: Scope::new(),
            pending_env: Vec::new(),
            current_env: None,
            run_state: None,
        };
        assert(r@.pending_env =~= Seq::<Seq<char>>::empty());
        r
    }

    /// Hands out the next tag.
    fn next_tag(&mut self) -> (r: EffId)
        requires
            old(self)@.next_tag < u64::MAX,
        ensures
            r@ == old(self)@.next_tag,
            final(self)@ == (FlowView { next_tag: old(self)@.next_tag + 1, ..old(self)@ }),
    {
        let id = EffId::numbered(self.next_tag);
        self.next_tag = self.next_tag + 1;
        id
    }

    /// Ends the workflow with `err`.
    fn finish_error(&mut self, err: FlowError) -> (r: Command)
        ensures
            (final(self)@, r@) == fail(old(self)@, err@),
    {
        let msg = err.message();
        self.stage = Stage::Done(Err(msg.clone()));
        self.run_state = None;
        Command::Done(Err(msg))
    }

    /// A new tag can still be issued; `start` and `on_event` need it, since
    /// each issues at most one.
    pub fn has_tag_room(&self) -> (r: bool)
        ensures
            r == (self@.next_tag < u64::MAX),
    {
        self.next_tag < u64::MAX
    }

    /// The outcome so far: the failure once the workflow has failed, else `Ok`.
    pub fn done(&self) -> (r: Result<(), String>)
        ensures
            match self@.stage {
                StageView::Done(Err(m)) => r matches Err(x) && x@ == m,
                _ => r is Ok,
            },
    {
        match &self.stage {
            Stage::Done(Err(m)) => Err(m.clone()),
            _ => Ok(()),
        }
    }

    /// Starts the workflow: the first call asks the host for the recipe.
    pub fn start(&mut self) -> (r: Command)
        requires
            inv(old(self)@),
            old(self)@.next_tag < u64::MAX,
        ensures
            (final(self)@, r@) == start_spec(old(self)@),
            inv(final(self)@),
    {
        proof {
            crate::laws::lemma_start_inv(self@);
        }
        match &self.stage {
            Stage::Init => {
                let tag = self.next_tag();
                self.stage = Stage::WaitingConfig { tag };
                Command::Do(Effect::LoadConfig { discovery: config_discovery(), tag })
            },
            Stage::Done(Ok(())) => Command::Done(Ok(())),
            Stage::Done(Err(m)) => Command::Done(Err(m.clone())),
            _ => Command::Wait,
        }
    }

    /// Issues the effect of the current step, which must exist and have
    /// nothing outstanding.
    fn execute_step(&mut self, step_index: usize) -> (r: Result<Command, FlowError>)
        requires
            old(self)@.next_tag < u64::MAX,
            old(self)@.config is Some,
            old(self)@.run matches Some(run) && run.pending is None && run.step_index
                == step_index,
            step_index < old(self)@.config->0.steps.len(),
        ensures
            match step_effect(
                old(self)@.config->0.steps[step_index as int],
                old(self)@.run->0.variables,
                old(self)@.creds,
                old(self)@.env,
                step_index as nat,
                old(self)@.next_tag,
            ) {
                Ok((p, eff)) => r matches Ok(c) && c@ == CommandView::Do(eff) && final(self)@ == (
                FlowView {
                    next_tag: old(self)@.next_tag + 1,
                    run: Some(RunView { pending: Some(p), ..old(self)@.run->0 }),
                    ..old(self)@
                }),
                Err(e) => r matches Err(f) && f@ == e && final(self)@ == old(self)@,
            },
    {
        let tag = EffId::numbered(self.next_tag);
        let result = match (&self.config, &self.run_state) {
            (Some(cfg), Some(run)) => step_request(
                self,
                &cfg.steps[step_index],
                &run.variables,
                step_index,
                tag,
            ),
            _ => {
                return Err(FlowError::InvalidConfig(String::from_str("configuration missing")));
            },
        };
        match result {
            Err(e) => Err(e),
            Ok((pending, effect)) => {
                self.next_tag = self.next_tag + 1;
                let mut run = self.run_state.take().unwrap();
                run.pending = Some(pending);
                self.run_state = Some(run);
                Ok(Command::Do(effect))
            },
        }
    }

    /// Moves the cycle on; see [`advance_spec`].
    fn advance_run(&mut self) -> (r: Command)
        requires
            old(self)@.next_tag < u64::MAX,
        ensures
            (final(self)@, r@) == advance_spec(old(self)@),
    {
        let (run_every, steps_len) = match &self.config {
            Some(cfg) => (cfg.run_every, cfg.steps.len()),
            None => {
                return Command::Wait;
            },
        };
        let step_index = match &self.run_state {
            None => {
                return Command::Wait;
            },
            Some(run) => {
                if run.pending.is_some() {
                    return Command::Wait;
                }
                run.step_index
            },
        };
        if step_index >= steps_len {
            self.run_state = None;
            let tag = self.next_tag();
            self.stage = Stage::WaitingTimer { tag };
            return Command::Do(Effect::StartTimer { duration: run_every, tag });
        }
        match self.execute_step(step_index) {
            Ok(cmd) => cmd,
            Err(err) => self.finish_error(err),
        }
    }

    /// Starts a cycle with no variables and advances it.
    fn start_run(&mut self) -> (r: Command)
        requires
            old(self)@.next_tag < u64::MAX,
        ensures
            (final(self)@, r@) == start_run_spec(old(self)@),
    {
        if self.config.is_none() {
            return Command::Wait;
        }
        self.run_state = Some(RunState { step_index: 0, variables: Scope::new(), pending: None });
        self.stage = Stage::Running;
        self.advance_run()
    }

    /// Resolves every credential to its secret, in recipe order.
    fn finalize_credentials(&mut self) -> (r: Result<(), FlowError>)
        ensures
            match old(self)@.config {
                None => r is Ok && final(self)@ == old(self)@,
                Some(cfg) => match resolve_creds(Seq::empty(), cfg.credentials, old(self)@.env) {
                    Ok(c) => r is Ok && final(self)@ == (FlowView { creds: c, ..old(self)@ }),
                    Err(e) => r matches Err(f) && f@ == e && final(self)@ == old(self)@,
                },
            },
    {
        let mut resolved = Scope::new();
        {
            let cfg = match &self.config {
                Some(c) => c,
                None => {
                    return Ok(());
                },
            };
            let ghost cs = cfg@.credentials;
            let ghost env = self@.env;
            let mut i: usize = 0;
            assert(cs.skip(0) == cs);
            while i < cfg.credentials.len()
                invariant
                    i <= cfg.credentials@.len(),
                    cs == cfg@.credentials,
                    env == self.env_values@,
                    self@ == old(self)@,
                    old(self)@.config == Some(cfg@),
                    resolve_creds(Seq::empty(), cs, env) == resolve_creds(
                        resolved@,
                        cs.skip(i as int),
                        env,
                    ),
                decreases cfg.credentials@.len() - i,
            {
                assert(cs.skip(i as int)[0] == cs[i as int]);
                assert(cs.skip(i as int).drop_first() == cs.skip(i + 1));
                let name = &cfg.credentials[i].0;
                let value = match &cfg.credentials[i].1 {
                    CredentialSource::Value(v) => v.clone(),
                    CredentialSource::EnvVar(n) => match self.env_values.get(n) {
                        Some(v) => v,
                        None => {
                            return Err(FlowError::MissingEnvVar(n.clone()));
                        },
                    },
                };
                resolved.insert(name.clone(), value);
                i = i + 1;
            }
            assert(cs.skip(i as int).len() == 0);
        }
        self.resolved_credentials = resolved;
        Ok(())
    }

    /// Queues the recipe's environment variables in ascending order and forgets
    /// what was read or resolved before.
    fn prepare_env_requests(&mut self)
        requires
            old(self)@.config is Some,
        ensures
            final(self)@ == (FlowView {
                env: Seq::empty(),
                creds: Seq::empty(),
                pending_env: env_listing(old(self)@.config->0),
                current_env: None,
                ..old(self)@
            }),
    {
        self.env_values = Scope::new();
        self.resolved_credentials = Scope::new();
        self.current_env = None;
        let names = match &self.config {
            Some(cfg) => {
                let set = cfg.env_requests();
                let names = set.to_vec();
                proof {
                    let listed = names@.map_values(|n: String| n@);
                    assert(ascending(listed) && listed.to_set() == env_names(cfg@));
                    let chosen = env_listing(cfg@);
                    assert(ascending(chosen) && chosen.to_set() == env_names(cfg@));
                    lemma_ascending_unique(listed, chosen);
                }
                names
            },
            None => Vec::new(),
        };
        self.pending_env = names;
    }

    /// Reads the next environment variable, or resolves the credentials and
    /// starts the first cycle; see [`fetch_env_spec`].
    fn fetch_next_env_or_start_run(&mut self) -> (r: Command)
        requires
            old(self)@.next_tag < u64::MAX,
        ensures
            (final(self)@, r@) == fetch_env_spec(old(self)@),
    {
        if self.current_env.is_some() {
            return Command::Wait;
        }
        if self.pending_env.len() > 0 {
            let ghost before = self.pending_env@;
            let name = self.pending_env.remove(0);
            assert(self.pending_env@.map_values(|n: String| n@) =~= before.map_values(
                |n: String| n@,
            ).drop_first());
            let tag = self.next_tag();
            self.current_env = Some((name.clone(), tag));
            return Command::Do(Effect::ReadEnvVar { name, tag });
        }
        match self.finalize_credentials() {
            Ok(()) => self.start_run(),
            Err(err) => self.finish_error(err),
        }
    }

    /// Handles the host's reply to an effect and returns what to do next; see
    /// [`on_event_spec`]. An event whose tag or kind does not fit the current
    /// stage changes nothing and yields `Wait`.
    pub fn on_event(&mut self, event: Event) -> (r: Command)
        requires
            inv(old(self)@),
            old(self)@.next_tag < u64::MAX,
        ensures
            (final(self)@, r@) == on_event_spec(old(self)@, event@),
            inv(final(self)@),
    {
        proof {
            crate::laws::lemma_event_inv(self@, event@);
        }
        match &self.stage {
            Stage::WaitingConfig { tag } => {
                let expected = *tag;
                match event {
                    Event::ConfigLoaded { tag, contents, .. } => {
                        proof {
                            EffId::lemma_view_injective(tag, expected);
                        }
                        if tag != expected {
                            return Command::Wait;
                        }
                        match FlowConfig::from_yaml(contents.as_str()) {
                            Ok(cfg) => {
                                self.config = Some(cfg);
                                self.prepare_env_requests();
                                self.stage = Stage::LoadingEnv;
                                self.fetch_next_env_or_start_run()
                            },
                            Err(err) => self.finish_error(err),
                        }
                    },
                    Event::ConfigLoadFailed { tag, error } => {
                        proof {
                            EffId::lemma_view_injective(tag, expected);
                        }
                        if tag != expected {
                            return Command::Wait;
                        }
                        self.finish_error(FlowError::ConfigLoad(error))
                    },
                    _ => Command::Wait,
                }
            },
            Stage::LoadingEnv => match event {
                Event::EnvVarLoaded { tag, name, value } => {
                    let fits = match &self.current_env {
                        Some((n, t)) => {
                            proof {
                                EffId::lemma_view_injective(*t, tag);
                            }
                            *t == tag && *n == name
                        },
                        None => false,
                    };
                    if !fits {
                        return Command::Wait;
                    }
                    let (expected_name, _) = self.current_env.take().unwrap();
                    match value {
                        Some(v) => {
                            self.env_values.insert(name, v);
                            self.fetch_next_env_or_start_run()
                        },
                        None => self.finish_error(FlowError::MissingEnvVar(expected_name)),
                    }
                },
                _ => Command::Wait,
            },
            Stage::Running => self.on_step_event(event),
            Stage::WaitingTimer { tag } => {
                let expected = *tag;
                match event {
                    Event::TimerFired { tag } => {
                        proof {
                            EffId::lemma_view_injective(tag, expected);
                        }
                        if tag == expected {
                            self.start_run()
                        } else {
                            Command::Wait
                        }
                    },
                    _ => Command::Wait,
                }
            },
            Stage::Init => Command::Wait,
            Stage::Done(_) => Command::Wait,
        }
    }

    /// Handles an event while a cycle runs.
    fn on_step_event(&mut self, event: Event) -> (r: Command)
        requires
            inv(old(self)@),
            old(self)@.stage is Running,
            old(self)@.next_tag < u64::MAX,
        ensures
            (final(self)@, r@) == on_event_spec(old(self)@, event@),
    {
        let steps_len = match &self.config {
            Some(cfg) => cfg.steps.len(),
            None => 0,
        };
        let (pending_tag, pending_index, store_as, require_value) = match &self.run_state {
            None => {
                return Command::Wait;
            },
            Some(run) => match &run.pending {
                None => {
                    return Command::Wait;
                },
                Some(p) => (p.tag, p.step_index, clone_opt(&p.store_as), p.require_value),
            },
        };
        match event {
            Event::StepCompleted { tag, value } => {
                proof {
                    EffId::lemma_view_injective(tag, pending_tag);
                }
                if tag != pending_tag {
                    return Command::Wait;
                }
                let mut run = self.run_state.take().unwrap();
                assert(run.step_index < steps_len);
                run.pending = None;
                match store_as {
                    Some(name) => match value {
                        Some(v) => {
                            run.variables.insert(name, v);
                            run.step_index = run.step_index + 1;
                            self.run_state = Some(run);
                            self.advance_run()
                        },
                        None => {
                            self.run_state = Some(run);
                            self.finish_error(
                                FlowError::StepFailure {
                                    step_index: pending_index,
                                    message: String::from_str("missing value in step result"),
                                },
                            )
                        },
                    },
                    None => {
                        if require_value && value.is_none() {
                            self.run_state = Some(run);
                            self.finish_error(
                                FlowError::StepFailure {
                                    step_index: pending_index,
                                    message: String::from_str("missing value in step result"),
                                },
                            )
                        } else {
                            run.step_index = run.step_index + 1;
                            self.run_state = Some(run);
                            self.advance_run()
                        }
                    },
                }
            },
            Event::StepFailed { tag, error } => {
                proof {
                    EffId::lemma_view_injective(tag, pending_tag);
                }
                if tag == pending_tag {
                    self.finish_error(
                        FlowError::StepFailure { step_index: pending_index, message: error },
                    )
                } else {
                    Command::Wait
                }
            },
            _ => Command::Wait,
        }
    }

    /// The secret of the credential `name`.
    fn credential_value(&self, name: &String) -> (r: Result<String, FlowError>)
        ensures
            outcome(r, credential_spec(self@.creds, name@)),
    {
        match self.resolved_credentials.get(name) {
            Some(v) => Ok(v),
            None => Err(FlowError::MissingCredential(name.clone())),
        }
    }

    /// The secret of an optional credential name.
    fn credential_opt(&self, name: &Option<String>) -> (r: Result<Option<String>, FlowError>)
        ensures
            match opt_credential(self@.creds, opt_view(*name)) {
                Ok(v) => r matches Ok(x) && opt_view(x) == v,
                Err(e) => r matches Err(f) && f@ == e,
            },
    {
        match name {
            Some(n) => match self.credential_value(n) {
                Ok(v) => Ok(Some(v)),
                Err(e) => Err(e),
            },
            None => Ok(None),
        }
    }

    /// Renders a template against `variables`, then the credentials, then the
    /// environment values.
    fn render_template(&self, template: &str, variables: &Scope) -> (r: Result<String, FlowError>)
        ensures
            outcome(r, crate::template::render(template@, variables@, self@.creds, self@.env)),
    {
        render_template(template, variables, &self.resolved_credentials, &self.env_values)
    }

    /// The string that `value` stands for.
    fn resolve_value(&self, value: &ValueRef, variables: &Scope) -> (r: Result<String, FlowError>)
        ensures
            outcome(r, resolve_spec(value@, variables@, self@.creds, self@.env)),
    {
        match value {
            ValueRef::Literal(template) => self.render_template(template.as_str(), variables),
            ValueRef::Env(name) => match self.env_values.get(name) {
                Some(v) => Ok(v),
                None => Err(FlowError::MissingEnvVar(name.clone())),
            },
            ValueRef::Credential(name) => self.credential_value(name),
            ValueRef::Variable(name) => match variables.get(name) {
                Some(v) => Ok(v),
                None => Err(FlowError::MissingVariable(name.clone())),
            },
        }
    }

    /// The string that an optional reference stands for.
    fn resolve_opt(&self, value: &Option<ValueRef>, variables: &Scope) -> (r: Result<
        Option<String>,
        FlowError,
    >)
        ensures
            match opt_resolve(
                crate::recipe::opt_ref_view(*value),
                variables@,
                self@.creds,
                self@.env,
            ) {
                Ok(v) => r matches Ok(x) && opt_view(x) == v,
                Err(e) => r matches Err(f) && f@ == e,
            },
    {
        match value {
            Some(v) => match self.resolve_value(v, variables) {
                Ok(s) => Ok(Some(s)),
                Err(e) => Err(e),
            },
            None => Ok(None),
        }
    }
}

/// The outstanding step and the effect for `step`, issued with `tag`.
fn step_request(
    flow: &ReminderFlow,
    step: &Step,
    variables: &Scope,
    step_index: usize,
    tag: EffId,
) -> (r: Result<(PendingStep, Effect), FlowError>)
    ensures
        match step_effect(step@, variables@, flow@.creds, flow@.env, step_index as nat, tag@) {
            Ok((p, eff)) => r matches Ok((ep, ee)) && pending_view(Some(ep)) == Some(p) && ee@
                == eff,
            Err(e) => r matches Err(f) && f@ == e,
        },
{
    match step {
        Step::GoogleSheet(s) => {
            let sheet_id = match flow.resolve_value(&s.sheet_id, variables) {
                Ok(v) => v,
                Err(e) => {
                    return Err(e);
                },
            };
            let worksheet = match flow.resolve_opt(&s.worksheet, variables) {
                Ok(v) => v,
                Err(e) => {
                    return Err(e);
                },
            };
            let credentials = match flow.credential_opt(&s.credentials) {
                Ok(v) => v,
                Err(e) => {
                    return Err(e);
                },
            };
            let pending = PendingStep {
                step_index,
                tag,
                store_as: Some(s.store_as.clone()),
                require_value: true,
            };
            let effect = Effect::FetchGoogleSheetCell(
                GoogleSheetRequest { sheet_id, worksheet, cell: s.cell, credentials, tag },
            );
            Ok((pending, effect))
        },
        Step::Email(s) => {
            let account = match flow.resolve_value(&s.account, variables) {
                Ok(v) => v,
                Err(e) => {
                    return Err(e);
                },
            };
            let regex = match flow.resolve_value(&s.regex, variables) {
                Ok(v) => v,
                Err(e) => {
                    return Err(e);
                },
            };
            let credentials = match flow.credential_opt(&s.credentials) {
                Ok(v) => v,
                Err(e) => {
                    return Err(e);
                },
            };
            let pending = PendingStep {
                step_index,
                tag,
                store_as: clone_opt(&s.store_as),
                require_value: s.store_as.is_some(),
            };
            let effect = Effect::SearchEmails(
                EmailSearchRequest { account, field: s.field, regex, credentials, tag },
            );
            Ok((pending, effect))
        },
        Step::Telegram(s) => {
            let chat_id = match flow.resolve_value(&s.chat_id, variables) {
                Ok(v) => v,
                Err(e) => {
                    return Err(e);
                },
            };
            let message = match flow.resolve_value(&s.message, variables) {
                Ok(v) => v,
                Err(e) => {
                    return Err(e);
                },
            };
            let credentials = match flow.credential_opt(&s.credentials) {
                Ok(v) => v,
                Err(e) => {
                    return Err(e);
                },
            };
            let pending = PendingStep { step_index, tag, store_as: None, require_value: false };
            let effect = Effect::SendTelegramMessage(
                TelegramRequest { chat_id, message, credentials, tag },
            );
            Ok((pending, effect))
        },
    }
}

} // verus!
