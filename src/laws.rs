//! What holds of every run of the engine, stated over its mathematical model
//! and proved.

use vstd::prelude::*;
use crate::error::ErrorView;
use crate::machine::{
    advance_spec, env_listing, fail, fetch_env_spec, fresh_run, initial_view, inv, loading_view,
    on_event_spec, start_run_spec, start_spec, step_effect, FlowView, RunView, StageView,
};
use crate::names::{ascending, lemma_listing_exists, text_less};
use crate::protocol::{CommandView, EffectView, EventView, effect_tag, event_tag};
use crate::recipe::{creds_env, env_names, source_env, step_env, steps_env, ConfigView};

verus! {

proof fn lemma_creds_env_finite(cs: Seq<(Seq<char>, crate::recipe::SourceView)>)
    ensures
        creds_env(cs).finite(),
    decreases cs.len(),
{
    if cs.len() > 0 {
        lemma_creds_env_finite(cs.drop_last());
        assert(source_env(cs.last().1).finite());
    }
}

proof fn lemma_steps_env_finite(ss: Seq<crate::recipe::StepView>)
    ensures
        steps_env(ss).finite(),
    decreases ss.len(),
{
    if ss.len() > 0 {
        lemma_steps_env_finite(ss.drop_last());
        assert(step_env(ss.last()).finite());
    }
}

/// The environment variables of a recipe are read in strictly ascending order,
/// each exactly once: the queue is the ascending listing of every name the
/// recipe reads.
pub proof fn lemma_env_listing(c: ConfigView)
    ensures
        ascending(env_listing(c)),
        env_listing(c).to_set() == env_names(c),
{
    lemma_creds_env_finite(c.credentials);
    lemma_steps_env_finite(c.steps);
    lemma_listing_exists(env_names(c));
}

/// The number of the tag an engine expects an event to carry, if any.
pub open spec fn expected_tag(s: FlowView) -> Option<nat> {
    match s.stage {
        StageView::WaitingConfig(t) => Some(t),
        StageView::LoadingEnv => match s.current_env {
            Some((_, t)) => Some(t),
            None => None,
        },
        StageView::Running => match s.run {
            Some(run) => match run.pending {
                Some(p) => Some(p.tag),
                None => None,
            },
            None => None,
        },
        StageView::WaitingTimer(t) => Some(t),
        _ => None,
    }
}

proof fn lemma_fail_inv(s: FlowView, e: ErrorView)
    requires
        inv(s),
        s.current_env is None,
    ensures
        inv(fail(s, e).0),
        fail(s, e).0.next_tag == s.next_tag,
        expected_tag(fail(s, e).0) is None,
{
}

proof fn lemma_advance_inv(s: FlowView)
    requires
        inv(s),
        s.stage is Running,
        s.current_env is None,
    ensures
        inv(advance_spec(s).0),
        advance_spec(s).1 is Do ==> effect_tag(advance_spec(s).1->Do_0) == s.next_tag
            && advance_spec(s).0.next_tag == s.next_tag + 1,
        !(advance_spec(s).1 is Do) ==> advance_spec(s).0.next_tag == s.next_tag,
        advance_spec(s).0.env == s.env && advance_spec(s).0.creds == s.creds,
        match expected_tag(advance_spec(s).0) {
            Some(t) => t == s.next_tag || expected_tag(s) == Some(t),
            None => true,
        },
{
    let cfg = s.config->0;
    let run = s.run->0;
    if run.pending is None && run.step_index < cfg.steps.len() {
        let r = step_effect(
            cfg.steps[run.step_index as int],
            run.variables,
            s.creds,
            s.env,
            run.step_index,
            s.next_tag,
        );
        match r {
            Ok((p, eff)) => {
                assert(p.tag == s.next_tag && p.step_index == run.step_index);
                assert(effect_tag(eff) == s.next_tag);
            },
            Err(e) => {
                lemma_fail_inv(s, e);
            },
        }
    }
}

proof fn lemma_start_run_inv(s: FlowView)
    requires
        inv(FlowView { stage: StageView::Running, run: Some(fresh_run()), ..s }) || s.config is None,
        s.current_env is None,
    ensures
        s.config is Some ==> inv(start_run_spec(s).0),
        start_run_spec(s).1 is Do ==> effect_tag(start_run_spec(s).1->Do_0) == s.next_tag
            && start_run_spec(s).0.next_tag == s.next_tag + 1,
        !(start_run_spec(s).1 is Do) ==> start_run_spec(s).0.next_tag == s.next_tag,
        start_run_spec(s).0.env == s.env && start_run_spec(s).0.creds == s.creds,
        s.config is Some ==> match expected_tag(start_run_spec(s).0) {
            Some(t) => t == s.next_tag,
            None => true,
        },
{
    if s.config is Some {
        lemma_advance_inv(FlowView { stage: StageView::Running, run: Some(fresh_run()), ..s });
    }
}

proof fn lemma_fetch_env_inv(s: FlowView)
    requires
        inv(s),
        s.stage is LoadingEnv,
    ensures
        inv(fetch_env_spec(s).0),
        fetch_env_spec(s).1 is Do ==> effect_tag(fetch_env_spec(s).1->Do_0) == s.next_tag
            && fetch_env_spec(s).0.next_tag == s.next_tag + 1,
        !(fetch_env_spec(s).1 is Do) ==> fetch_env_spec(s).0.next_tag == s.next_tag,
        match expected_tag(fetch_env_spec(s).0) {
            Some(t) => t == s.next_tag || expected_tag(s) == Some(t),
            None => true,
        },
{
    if s.current_env is None && s.pending_env.len() > 0 {
        let s2 = fetch_env_spec(s).0;
        assert(ascending(s2.pending_env)) by {
            assert forall|i: int| 0 <= i < s2.pending_env.len() - 1 implies text_less(
                #[trigger] s2.pending_env[i],
                s2.pending_env[i + 1],
            ) by {
                assert(s2.pending_env[i] == s.pending_env[i + 1]);
            }
        }
        assert(s2.pending_env.len() > 0 ==> text_less(s.pending_env[0], s2.pending_env[0])) by {
            if s2.pending_env.len() > 0 {
                assert(s2.pending_env[0] == s.pending_env[1]);
            }
        }
    } else if s.current_env is None {
        match crate::machine::resolve_creds(Seq::empty(), s.config->0.credentials, s.env) {
            Ok(creds) => {
                lemma_start_run_inv(FlowView { creds, ..s });
            },
            Err(e) => {
                lemma_fail_inv(s, e);
            },
        }
    }
}

/// A new engine satisfies the invariant.
pub proof fn lemma_initial_inv()
    ensures
        inv(initial_view()),
{
}

/// `start` keeps the invariant, and issues at most one tag: the next one.
pub proof fn lemma_start_inv(s: FlowView)
    requires
        inv(s),
    ensures
        inv(start_spec(s).0),
        start_spec(s).1 is Do ==> effect_tag(start_spec(s).1->Do_0) == s.next_tag
            && start_spec(s).0.next_tag == s.next_tag + 1,
        !(start_spec(s).1 is Do) ==> start_spec(s).0.next_tag == s.next_tag,
{
}

/// Every event keeps the invariant: at most one step is outstanding, and none
/// between cycles. Each event issues at most one tag, the next one, so tags
/// only grow; after the event the engine expects no tag or a tag that is new
/// or that it expected before.
pub proof fn lemma_event_inv(s: FlowView, e: EventView)
    requires
        inv(s),
    ensures
        inv(on_event_spec(s, e).0),
        on_event_spec(s, e).1 is Do ==> effect_tag(on_event_spec(s, e).1->Do_0) == s.next_tag
            && on_event_spec(s, e).0.next_tag == s.next_tag + 1,
        !(on_event_spec(s, e).1 is Do) ==> on_event_spec(s, e).0.next_tag == s.next_tag,
        match expected_tag(on_event_spec(s, e).0) {
            Some(t) => t == s.next_tag || expected_tag(s) == Some(t),
            None => true,
        },
{
    match s.stage {
        StageView::WaitingConfig(t) => {
            match e {
                EventView::ConfigLoaded { tag, contents, .. } => {
                    if tag == t {
                        match crate::parse::config_from_text(contents) {
                            Ok(c) => {
                                lemma_env_listing(c);
                                lemma_fetch_env_inv(loading_view(s, c));
                            },
                            Err(err) => lemma_fail_inv(s, err),
                        }
                    }
                },
                EventView::ConfigLoadFailed { tag, error } => {
                    if tag == t {
                        lemma_fail_inv(s, ErrorView::ConfigLoad(error));
                    }
                },
                _ => {},
            }
        },
        StageView::LoadingEnv => {
            match e {
                EventView::EnvVarLoaded { tag, name, value } => {
                    match s.current_env {
                        Some((n, t)) => {
                            if t == tag && n == name {
                                match value {
                                    Some(v) => {
                                        lemma_fetch_env_inv(
                                            FlowView {
                                                env: s.env.push((name, v)),
                                                current_env: None,
                                                ..s
                                            },
                                        );
                                    },
                                    None => {
                                        lemma_fail_inv(
                                            FlowView { current_env: None, ..s },
                                            ErrorView::MissingEnvVar(n),
                                        );
                                    },
                                }
                            }
                        },
                        None => {},
                    }
                },
                _ => {},
            }
        },
        StageView::Running => {
            let run = s.run->0;
            match run.pending {
                Some(p) => {
                    let cleared = FlowView { run: Some(RunView { pending: None, ..run }), ..s };
                    match e {
                        EventView::StepCompleted { tag, value } => {
                            if tag == p.tag {
                                match p.store_as {
                                    Some(name) => match value {
                                        Some(v) => {
                                            lemma_advance_inv(
                                                FlowView {
                                                    run: Some(
                                                        RunView {
                                                            step_index: run.step_index + 1,
                                                            variables: run.variables.push(
                                                                (name, v),
                                                            ),
                                                            pending: None,
                                                        },
                                                    ),
                                                    ..s
                                                },
                                            );
                                        },
                                        None => {
                                            lemma_fail_inv(
                                                cleared,
                                                crate::machine::missing_value(p.step_index),
                                            );
                                        },
                                    },
                                    None => {
                                        if p.require_value && value is None {
                                            lemma_fail_inv(
                                                cleared,
                                                crate::machine::missing_value(p.step_index),
                                            );
                                        } else {
                                            lemma_advance_inv(
                                                FlowView {
                                                    run: Some(
                                                        RunView {
                                                            step_index: run.step_index + 1,
                                                            pending: None,
                                                            ..run
                                                        },
                                                    ),
                                                    ..s
                                                },
                                            );
                                        }
                                    },
                                }
                            }
                        },
                        EventView::StepFailed { tag, error } => {
                            if tag == p.tag {
                                lemma_fail_inv(
                                    s,
                                    ErrorView::StepFailure { step_index: p.step_index, message: error },
                                );
                            }
                        },
                        _ => {},
                    }
                },
                None => {},
            }
        },
        StageView::WaitingTimer(t) => {
            match e {
                EventView::TimerFired { tag } => {
                    if tag == t {
                        lemma_start_run_inv(s);
                    }
                },
                _ => {},
            }
        },
        _ => {},
    }
}

/// The state after feeding the events one by one.
pub open spec fn feed(s: FlowView, es: Seq<EventView>) -> FlowView
    decreases es.len(),
{
    if es.len() == 0 {
        s
    } else {
        feed(on_event_spec(s, es[0]).0, es.drop_first())
    }
}

/// The tags of the effects emitted while feeding the events, in order.
pub open spec fn issued(s: FlowView, es: Seq<EventView>) -> Seq<nat>
    decreases es.len(),
{
    if es.len() == 0 {
        Seq::empty()
    } else {
        let (s1, c) = on_event_spec(s, es[0]);
        (if c is Do {
            seq![effect_tag(c->Do_0)]
        } else {
            Seq::empty()
        }) + issued(s1, es.drop_first())
    }
}

/// Tags are never reused: over any sequence of events, the emitted tags
/// strictly increase, start at the engine's next tag and stay below the one
/// it will hand out next.
pub proof fn lemma_tags_unique(s: FlowView, es: Seq<EventView>)
    requires
        inv(s),
    ensures
        forall|i: int, j: int|
            0 <= i < j < issued(s, es).len() ==> issued(s, es)[i] < issued(s, es)[j],
        forall|i: int|
            0 <= i < issued(s, es).len() ==> s.next_tag <= #[trigger] issued(s, es)[i] < feed(
                s,
                es,
            ).next_tag,
        s.next_tag <= feed(s, es).next_tag,
    decreases es.len(),
{
    if es.len() > 0 {
        let (s1, c) = on_event_spec(s, es[0]);
        lemma_event_inv(s, es[0]);
        lemma_tags_unique(s1, es.drop_first());
        let rest = issued(s1, es.drop_first());
        let head = if c is Do {
            seq![effect_tag(c->Do_0)]
        } else {
            Seq::<nat>::empty()
        };
        assert(issued(s, es) == head + rest);
        assert forall|i: int|
            0 <= i < issued(s, es).len() implies s.next_tag <= #[trigger] issued(s, es)[i] < feed(
                s,
                es,
            ).next_tag by {
            if i >= head.len() {
                assert(issued(s, es)[i] == rest[i - head.len()]);
            }
        }
        assert forall|i: int, j: int|
            0 <= i < j < issued(s, es).len() implies issued(s, es)[i] < issued(s, es)[j] by {
            if i >= head.len() {
                assert(issued(s, es)[i] == rest[i - head.len()]);
                assert(issued(s, es)[j] == rest[j - head.len()]);
            } else {
                assert(issued(s, es)[j] == rest[j - head.len()]);
                assert(s1.next_tag <= rest[j - head.len()]);
            }
        }
    }
}

/// Every state reached from a state satisfying the invariant satisfies it:
/// outside a running cycle there is no cycle state, so nothing is outstanding
/// between cycles; within a cycle at most one step is outstanding, and it is
/// the current one.
pub proof fn lemma_one_pending_step(s: FlowView, es: Seq<EventView>)
    requires
        inv(s),
    ensures
        inv(feed(s, es)),
        !(feed(s, es).stage is Running) ==> feed(s, es).run is None,
        feed(s, es).run matches Some(run) ==> (run.pending matches Some(p) ==> p.step_index
            == run.step_index),
    decreases es.len(),
{
    if es.len() > 0 {
        lemma_event_inv(s, es[0]);
        lemma_one_pending_step(on_event_spec(s, es[0]).0, es.drop_first());
    }
}

/// Once done, the engine stays as it is: events yield `Wait`, and `start`
/// reports the outcome again.
pub proof fn lemma_done_absorbing(s: FlowView, e: EventView)
    requires
        s.stage is Done,
    ensures
        on_event_spec(s, e) == (s, CommandView::Wait),
        start_spec(s) == (s, CommandView::Done(s.stage->Done_0)),
{
}

/// An event whose tag is not the one the engine expects changes nothing and
/// yields `Wait`.
pub proof fn lemma_mismatched_tag(s: FlowView, e: EventView)
    requires
        expected_tag(s) != Some(event_tag(e)),
    ensures
        on_event_spec(s, e) == (s, CommandView::Wait),
{
}

/// A new cycle starts with no variables: when the timer fires, the first step
/// is planned from an empty variable scope.
pub proof fn lemma_cycle_starts_empty(s: FlowView, t: nat)
    requires
        inv(s),
        s.stage == StageView::WaitingTimer(t),
    ensures
        on_event_spec(s, EventView::TimerFired { tag: t }) == advance_spec(
            FlowView {
                stage: StageView::Running,
                run: Some(RunView { step_index: 0, variables: Seq::empty(), pending: None }),
                ..s
            },
        ),
{
}

/// Environment variables are read in strictly ascending order: each read the
/// engine asks for names a variable after the one it was reading.
pub proof fn lemma_env_reads_ascending(s: FlowView, e: EventView)
    requires
        inv(s),
        s.current_env is Some,
        on_event_spec(s, e).1 matches CommandView::Do(EffectView::ReadEnvVar { .. }),
    ensures
        match s.current_env {
            Some((n, _)) => text_less(n, on_event_spec(s, e).1->Do_0->ReadEnvVar_name),
            None => true,
        },
{
}

/// Environment values and resolved credentials are read once: no event in a
/// later stage changes them, so every cycle uses the same ones.
pub proof fn lemma_scopes_kept(s: FlowView, e: EventView)
    requires
        inv(s),
        s.stage is Running || s.stage is WaitingTimer,
    ensures
        on_event_spec(s, e).0.env == s.env,
        on_event_spec(s, e).0.creds == s.creds,
{
    match s.stage {
        StageView::WaitingTimer(t) => {
            if e == (EventView::TimerFired { tag: t }) {
                lemma_start_run_inv(s);
            }
        },
        _ => {
            let run = s.run->0;
            if let Some(p) = run.pending {
                if let EventView::StepCompleted { tag, value } = e {
                    if tag == p.tag {
                        lemma_completion_advances(s, value);
                    }
                }
            }
        },
    }
}

proof fn lemma_completion_advances(s: FlowView, value: Option<Seq<char>>)
    requires
        inv(s),
        s.stage is Running,
        s.run->0.pending is Some,
    ensures
        ({
            let s1 = on_event_spec(
                s,
                EventView::StepCompleted { tag: s.run->0.pending->0.tag, value },
            ).0;
            &&& inv(s1)
            &&& s1.env == s.env && s1.creds == s.creds
            &&& match expected_tag(s1) {
                Some(t) => t == s.next_tag,
                None => true,
            }
        }),
{
    let run = s.run->0;
    let p = run.pending->0;
    let cleared = FlowView { run: Some(RunView { pending: None, ..run }), ..s };
    match p.store_as {
        Some(name) => match value {
            Some(v) => {
                lemma_advance_inv(
                    FlowView {
                        run: Some(
                            RunView {
                                step_index: run.step_index + 1,
                                variables: run.variables.push((name, v)),
                                pending: None,
                            },
                        ),
                        ..s
                    },
                );
            },
            None => {
                lemma_fail_inv(cleared, crate::machine::missing_value(p.step_index));
            },
        },
        None => {
            if p.require_value && value is None {
                lemma_fail_inv(cleared, crate::machine::missing_value(p.step_index));
            } else {
                lemma_advance_inv(
                    FlowView {
                        run: Some(RunView { step_index: run.step_index + 1, pending: None, ..run }),
                        ..s
                    },
                );
            }
        },
    }
}

/// Feeding the same completion event twice: the first call moves the engine
/// on, the second finds its tag stale and yields `Wait`.
pub proof fn lemma_duplicate_completion(s: FlowView, value: Option<Seq<char>>)
    requires
        inv(s),
        s.stage is Running,
        s.run->0.pending is Some,
    ensures
        ({
            let e = EventView::StepCompleted { tag: s.run->0.pending->0.tag, value };
            let s1 = on_event_spec(s, e).0;
            &&& s1 != s
            &&& on_event_spec(s1, e) == (s1, CommandView::Wait)
        }),
{
    let p = s.run->0.pending->0;
    let e = EventView::StepCompleted { tag: p.tag, value };
    lemma_completion_advances(s, value);
    let s1 = on_event_spec(s, e).0;
    assert(expected_tag(s) == Some(p.tag));
    assert(expected_tag(s1) != Some(p.tag));
    lemma_mismatched_tag(s1, e);
}

} // verus!
