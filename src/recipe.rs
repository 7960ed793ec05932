//! The recipe model: run interval, credentials and steps, and the environment
//! variables a recipe needs.

use vstd::prelude::*;
use crate::duration::Duration;
use crate::names::NameSet;
use crate::protocol::{CellRef, EmailField};

verus! {

/// A reference to a string value.
#[derive(Debug, Clone, PartialEq, Eq)]
pub enum ValueRef {
    /// A template that may hold `{{name}}` placeholders.
    Literal(String),
    /// An environment value.
    Env(String),
    /// A resolved credential.
    Credential(String),
    /// A variable captured by an earlier step of the same cycle.
    Variable(String),
}

/// The mathematical form of a [`ValueRef`].
pub enum RefView {
    Literal(Seq<char>),
    Env(Seq<char>),
    Credential(Seq<char>),
    Variable(Seq<char>),
}

impl View for ValueRef {
    type V = RefView;

    open spec fn view(&self) -> RefView {
        match self {
            ValueRef::Literal(s) => RefView::Literal(s@),
            ValueRef::Env(s) => RefView::Env(s@),
            ValueRef::Credential(s) => RefView::Credential(s@),
            ValueRef::Variable(s) => RefView::Variable(s@),
        }
    }
}

/// Where a credential's secret comes from.
#[derive(Debug, Clone, PartialEq, Eq)]
pub enum CredentialSource {
    Value(String),
    EnvVar(String),
}

/// The mathematical form of a [`CredentialSource`].
pub enum SourceView {
    Value(Seq<char>),
    EnvVar(Seq<char>),
}

impl View for CredentialSource {
    type V = SourceView;

    open spec fn view(&self) -> SourceView {
        match self {
            CredentialSource::Value(s) => SourceView::Value(s@),
            CredentialSource::EnvVar(s) => SourceView::EnvVar(s@),
        }
    }
}

/// Reads one cell of a spreadsheet and stores it.
#[derive(Debug, Clone, PartialEq, Eq)]
pub struct GoogleSheetStep {
    pub sheet_id: ValueRef,
    pub worksheet: Option<ValueRef>,
    pub cell: CellRef,
    pub store_as: String,
    pub credentials: Option<String>,
}

/// Searches an email account with a regular expression.
#[derive(Debug, Clone, PartialEq, Eq)]
pub struct EmailStep {
    pub account: ValueRef,
    pub field: EmailField,
    pub regex: ValueRef,
    pub store_as: Option<String>,
    pub credentials: Option<String>,
}

/// Sends a chat message.
#[derive(Debug, Clone, PartialEq, Eq)]
pub struct TelegramStep {
    pub chat_id: ValueRef,
    pub message: ValueRef,
    pub credentials: Option<String>,
}

/// One action of a recipe.
#[derive(Debug, Clone, PartialEq, Eq)]
pub enum Step {
    GoogleSheet(GoogleSheetStep),
    Email(EmailStep),
    Telegram(TelegramStep),
}

/// The view of an optional string.
pub open spec fn opt_view(o: Option<String>) -> Option<Seq<char>> {
    match o {
        Some(s) => Some(s@),
        None => None,
    }
}

/// The view of an optional value reference.
pub open spec fn opt_ref_view(o: Option<ValueRef>) -> Option<RefView> {
    match o {
        Some(r) => Some(r@),
        None => None,
    }
}

/// The mathematical form of a [`Step`].
pub enum StepView {
    GoogleSheet {
        sheet_id: RefView,
        worksheet: Option<RefView>,
        cell: CellRef,
        store_as: Seq<char>,
        credentials: Option<Seq<char>>,
    },
    Email {
        account: RefView,
        field: EmailField,
        regex: RefView,
        store_as: Option<Seq<char>>,
        credentials: Option<Seq<char>>,
    },
    Telegram { chat_id: RefView, message: RefView, credentials: Option<Seq<char>> },
}

impl View for Step {
    type V = StepView;

    open spec fn view(&self) -> StepView {
        match self {
            Step::GoogleSheet(s) => StepView::GoogleSheet {
                sheet_id: s.sheet_id@,
                worksheet: opt_ref_view(s.worksheet),
                cell: s.cell,
                store_as: s.store_as@,
                credentials: opt_view(s.credentials),
            },
            Step::Email(s) => StepView::Email {
                account: s.account@,
                field: s.field,
                regex: s.regex@,
                store_as: opt_view(s.store_as),
                credentials: opt_view(s.credentials),
            },
            Step::Telegram(s) => StepView::Telegram {
                chat_id: s.chat_id@,
                message: s.message@,
                credentials: opt_view(s.credentials),
            },
        }
    }
}

/// A parsed recipe.
#[derive(Debug, Clone, PartialEq, Eq)]
pub struct FlowConfig {
    pub run_every: Duration,
    /// Credential names and sources, in recipe order.
    pub credentials: Vec<(String, CredentialSource)>,
    pub steps: Vec<Step>,
}

/// The mathematical form of a [`FlowConfig`].
pub struct ConfigView {
    /// Seconds between the end of one cycle and the start of the next.
    pub run_every: nat,
    pub credentials: Seq<(Seq<char>, SourceView)>,
    pub steps: Seq<StepView>,
}

impl View for FlowConfig {
    type V = ConfigView;

    open spec fn view(&self) -> ConfigView {
        ConfigView {
            run_every: self.run_every.secs() as nat,
            credentials: self.credentials@.map_values(
                |c: (String, CredentialSource)| (c.0@, c.1@),
            ),
            steps: self.steps@.map_values(|s: Step| s@),
        }
    }
}

/// The environment variable that a reference reads, if any.
pub open spec fn ref_env(r: RefView) -> Set<Seq<char>> {
    match r {
        RefView::Env(n) => set![n],
        _ => Set::empty(),
    }
}

/// The environment variables that a step's references read.
pub open spec fn step_env(s: StepView) -> Set<Seq<char>> {
    match s {
        StepView::GoogleSheet { sheet_id, worksheet, .. } => ref_env(sheet_id).union(
            match worksheet {
                Some(w) => ref_env(w),
                None => Set::empty(),
            },
        ),
        StepView::Email { account, regex, .. } => ref_env(account).union(ref_env(regex)),
        StepView::Telegram { chat_id, message, .. } => ref_env(chat_id).union(ref_env(message)),
    }
}

/// The environment variable that a credential reads, if any.
pub open spec fn source_env(s: SourceView) -> Set<Seq<char>> {
    match s {
        SourceView::EnvVar(n) => set![n],
        SourceView::Value(_) => Set::empty(),
    }
}

/// The environment variables that the credentials read.
pub open spec fn creds_env(cs: Seq<(Seq<char>, SourceView)>) -> Set<Seq<char>>
    decreases cs.len(),
{
    if cs.len() == 0 {
        Set::empty()
    } else {
        creds_env(cs.drop_last()).union(source_env(cs.last().1))
    }
}

/// The environment variables that the steps read.
pub open spec fn steps_env(ss: Seq<StepView>) -> Set<Seq<char>>
    decreases ss.len(),
{
    if ss.len() == 0 {
        Set::empty()
    } else {
        steps_env(ss.drop_last()).union(step_env(ss.last()))
    }
}

/// Every environment variable that a recipe reads, through its credentials or
/// through the references of its steps.
pub open spec fn env_names(c: ConfigView) -> Set<Seq<char>> {
    creds_env(c.credentials).union(steps_env(c.steps))
}

impl ValueRef {
    /// Adds the environment variable this reference reads, if any, to `set`.
    pub fn collect_env(&self, set: &mut NameSet)
        requires
            old(set).wf(),
        ensures
            final(set).wf(),
            final(set)@.to_set() == old(set)@.to_set().union(ref_env(self@)),
    {
        if let ValueRef::Env(name) = self {
            set.insert(name.clone());
            assert(old(set)@.to_set().insert(name@) =~= old(set)@.to_set().union(ref_env(self@)));
        } else {
            assert(old(set)@.to_set() =~= old(set)@.to_set().union(ref_env(self@)));
        }
    }
}

impl Step {
    /// Adds the environment variables this step's references read to `set`.
    pub fn collect_env(&self, set: &mut NameSet)
        requires
            old(set).wf(),
        ensures
            final(set).wf(),
            final(set)@.to_set() == old(set)@.to_set().union(step_env(self@)),
    {
        match self {
            Step::GoogleSheet(step) => {
                step.sheet_id.collect_env(set);
                if let Some(ws) = &step.worksheet {
                    ws.collect_env(set);
                }
            },
            Step::Email(step) => {
                step.account.collect_env(set);
                step.regex.collect_env(set);
            },
            Step::Telegram(step) => {
                step.chat_id.collect_env(set);
                step.message.collect_env(set);
            },
        }
        assert(final(set)@.to_set() =~= old(set)@.to_set().union(step_env(self@)));
    }
}

impl FlowConfig {
    /// Every environment variable the recipe reads, in ascending order.
    pub fn env_requests(&self) -> (r: NameSet)
        ensures
            r.wf(),
            r@.to_set() == env_names(self@),
    {
        let mut set = NameSet::new();
        let mut i: usize = 0;
        assert(self@.credentials.take(0) =~= Seq::<(Seq<char>, SourceView)>::empty());
        assert(set@.to_set() =~= Set::<Seq<char>>::empty());
        while i < self.credentials.len()
            invariant
                i <= self.credentials@.len(),
                set.wf(),
                set@.to_set() == creds_env(self@.credentials.take(i as int)),
            decreases self.credentials@.len() - i,
        {
            assert(self@.credentials.take(i + 1).drop_last() == self@.credentials.take(i as int));
            if let CredentialSource::EnvVar(name) = &self.credentials[i].1 {
                set.insert(name.clone());
            }
            i = i + 1;
            assert(set@.to_set() =~= creds_env(self@.credentials.take(i as int)));
        }
        assert(self@.credentials.take(i as int) == self@.credentials);
        let ghost from_creds = set@.to_set();
        let mut j: usize = 0;
        assert(self@.steps.take(0) =~= Seq::<StepView>::empty());
        assert(from_creds.union(steps_env(self@.steps.take(0))) =~= from_creds);
        while j < self.steps.len()
            invariant
                j <= self.steps@.len(),
                set.wf(),
                set@.to_set() == from_creds.union(steps_env(self@.steps.take(j as int))),
            decreases self.steps@.len() - j,
        {
            assert(self@.steps.take(j + 1).drop_last() == self@.steps.take(j as int));
            self.steps[j].collect_env(&mut set);
            j = j + 1;
            assert(set@.to_set() =~= from_creds.union(steps_env(self@.steps.take(j as int))));
        }
        assert(self@.steps.take(j as int) == self@.steps);
        set
    }
}

} // verus!
