//! The messages exchanged with the host: effects the engine asks for, events
//! the host replies with, and the command returned after each call.

use vstd::prelude::*;
use crate::duration::Duration;

verus! {

/// The position of a spreadsheet cell.
#[derive(Debug, Clone, Copy, PartialEq, Eq, Structural)]
pub struct CellRef {
    pub row: u32,
    pub column: u32,
}

impl View for CellRef {
    type V = CellRef;

    open spec fn view(&self) -> CellRef {
        *self
    }
}

/// The part of an email that a search matches against.
#[derive(Debug, Clone, Copy, PartialEq, Eq, Structural)]
pub enum EmailField {
    Subject,
    Sender,
    Recipient,
}

impl View for EmailField {
    type V = EmailField;

    open spec fn view(&self) -> EmailField {
        *self
    }
}

/// Identifies one effect, so that the event answering it can be matched.
#[derive(Debug, Clone, Copy, PartialEq, Eq, Hash, Structural)]
pub struct EffId(u64);

impl View for EffId {
    type V = nat;

    closed spec fn view(&self) -> nat {
        self.0 as nat
    }
}

impl EffId {
    /// The identifier numbered `n`.
    pub(crate) fn numbered(n: u64) -> (r: EffId)
        ensures
            r@ == n,
    {
        EffId(n)
    }

    /// Identifiers are equal exactly when their numbers are.
    pub proof fn lemma_view_injective(a: EffId, b: EffId)
        ensures
            (a@ == b@) == (a == b),
    {
    }

    /// The number of an identifier fits in 64 bits.
    pub proof fn lemma_view_bounded(a: EffId)
        ensures
            a@ <= u64::MAX,
    {
    }
}

/// Where the host looks for the recipe: the environment variable named
/// `env_var`, then each of `fallback_paths` in turn.
#[derive(Debug, Clone, PartialEq, Eq)]
pub struct ConfigDiscovery {
    pub env_var: String,
    pub fallback_paths: Vec<String>,
}

impl View for ConfigDiscovery {
    type V = (Seq<char>, Seq<Seq<char>>);

    open spec fn view(&self) -> (Seq<char>, Seq<Seq<char>>) {
        (self.env_var@, self.fallback_paths@.map_values(|p: String| p@))
    }
}

/// The environment variable that may name the recipe's path.
pub const CONFIG_ENV_VAR: &'static str = "REMIND_CONFIG_PATH";

/// The first place to look for the recipe when the variable is unset.
pub const USER_CONFIG_PATH: &'static str = "~/.remind/config.yaml";

/// The second place to look for the recipe.
pub const SYSTEM_CONFIG_PATH: &'static str = "/etc/remind-config.yaml";

/// The discovery rule the engine hands to the host.
pub open spec fn discovery_view() -> (Seq<char>, Seq<Seq<char>>) {
    (CONFIG_ENV_VAR@, seq![USER_CONFIG_PATH@, SYSTEM_CONFIG_PATH@])
}

/// The discovery rule the engine hands to the host.
pub fn config_discovery() -> (r: ConfigDiscovery)
    ensures
        r@ == discovery_view(),
{
    let mut paths: Vec<String> = Vec::new();
    paths.push(String::from_str(USER_CONFIG_PATH));
    paths.push(String::from_str(SYSTEM_CONFIG_PATH));
    let r = ConfigDiscovery { env_var: String::from_str(CONFIG_ENV_VAR), fallback_paths: paths };
    assert(r@.1 =~= seq![USER_CONFIG_PATH@, SYSTEM_CONFIG_PATH@]);
    r
}

/// Fetch one spreadsheet cell.
#[derive(Debug, Clone)]
pub struct GoogleSheetRequest {
    pub sheet_id: String,
    pub worksheet: Option<String>,
    pub cell: CellRef,
    pub credentials: Option<String>,
    pub tag: EffId,
}

/// Search an email account for the first message whose `field` matches `regex`.
#[derive(Debug, Clone)]
pub struct EmailSearchRequest {
    pub account: String,
    pub field: EmailField,
    pub regex: String,
    pub credentials: Option<String>,
    pub tag: EffId,
}

/// Post a chat message.
#[derive(Debug, Clone)]
pub struct TelegramRequest {
    pub chat_id: String,
    pub message: String,
    pub credentials: Option<String>,
    pub tag: EffId,
}

/// Work the engine asks the host to perform.
#[derive(Debug, Clone)]
pub enum Effect {
    LoadConfig { discovery: ConfigDiscovery, tag: EffId },
    ReadEnvVar { name: String, tag: EffId },
    FetchGoogleSheetCell(GoogleSheetRequest),
    SearchEmails(EmailSearchRequest),
    SendTelegramMessage(TelegramRequest),
    StartTimer { duration: Duration, tag: EffId },
}

/// The mathematical form of an [`Effect`]; tags are numbers.
pub enum EffectView {
    LoadConfig { discovery: (Seq<char>, Seq<Seq<char>>), tag: nat },
    ReadEnvVar { name: Seq<char>, tag: nat },
    FetchGoogleSheetCell {
        sheet_id: Seq<char>,
        worksheet: Option<Seq<char>>,
        cell: CellRef,
        credentials: Option<Seq<char>>,
        tag: nat,
    },
    SearchEmails {
        account: Seq<char>,
        field: EmailField,
        regex: Seq<char>,
        credentials: Option<Seq<char>>,
        tag: nat,
    },
    SendTelegramMessage {
        chat_id: Seq<char>,
        message: Seq<char>,
        credentials: Option<Seq<char>>,
        tag: nat,
    },
    StartTimer { secs: nat, tag: nat },
}

impl View for Effect {
    type V = EffectView;

    open spec fn view(&self) -> EffectView {
        match self {
            Effect::LoadConfig { discovery, tag } => EffectView::LoadConfig {
                discovery: discovery@,
                tag: tag@,
            },
            Effect::ReadEnvVar { name, tag } => EffectView::ReadEnvVar { name: name@, tag: tag@ },
            Effect::FetchGoogleSheetCell(r) => EffectView::FetchGoogleSheetCell {
                sheet_id: r.sheet_id@,
                worksheet: crate::recipe::opt_view(r.worksheet),
                cell: r.cell,
                credentials: crate::recipe::opt_view(r.credentials),
                tag: r.tag@,
            },
            Effect::SearchEmails(r) => EffectView::SearchEmails {
                account: r.account@,
                field: r.field,
                regex: r.regex@,
                credentials: crate::recipe::opt_view(r.credentials),
                tag: r.tag@,
            },
            Effect::SendTelegramMessage(r) => EffectView::SendTelegramMessage {
                chat_id: r.chat_id@,
                message: r.message@,
                credentials: crate::recipe::opt_view(r.credentials),
                tag: r.tag@,
            },
            Effect::StartTimer { duration, tag } => EffectView::StartTimer {
                secs: duration.secs() as nat,
                tag: tag@,
            },
        }
    }
}

/// The tag of an effect.
pub open spec fn effect_tag(e: EffectView) -> nat {
    match e {
        EffectView::LoadConfig { tag, .. } => tag,
        EffectView::ReadEnvVar { tag, .. } => tag,
        EffectView::FetchGoogleSheetCell { tag, .. } => tag,
        EffectView::SearchEmails { tag, .. } => tag,
        EffectView::SendTelegramMessage { tag, .. } => tag,
        EffectView::StartTimer { tag, .. } => tag,
    }
}

/// The host's reply to an effect.
#[derive(Debug, Clone)]
pub enum Event {
    ConfigLoaded { tag: EffId, path: String, contents: String },
    ConfigLoadFailed { tag: EffId, error: String },
    EnvVarLoaded { tag: EffId, name: String, value: Option<String> },
    StepCompleted { tag: EffId, value: Option<String> },
    StepFailed { tag: EffId, error: String },
    TimerFired { tag: EffId },
}

/// The mathematical form of an [`Event`]; tags are numbers.
pub enum EventView {
    ConfigLoaded { tag: nat, path: Seq<char>, contents: Seq<char> },
    ConfigLoadFailed { tag: nat, error: Seq<char> },
    EnvVarLoaded { tag: nat, name: Seq<char>, value: Option<Seq<char>> },
    StepCompleted { tag: nat, value: Option<Seq<char>> },
    StepFailed { tag: nat, error: Seq<char> },
    TimerFired { tag: nat },
}

impl View for Event {
    type V = EventView;

    open spec fn view(&self) -> EventView {
        match self {
            Event::ConfigLoaded { tag, path, contents } => EventView::ConfigLoaded {
                tag: tag@,
                path: path@,
                contents: contents@,
            },
            Event::ConfigLoadFailed { tag, error } => EventView::ConfigLoadFailed {
                tag: tag@,
                error: error@,
            },
            Event::EnvVarLoaded { tag, name, value } => EventView::EnvVarLoaded {
                tag: tag@,
                name: name@,
                value: crate::recipe::opt_view(*value),
            },
            Event::StepCompleted { tag, value } => EventView::StepCompleted {
                tag: tag@,
                value: crate::recipe::opt_view(*value),
            },
            Event::StepFailed { tag, error } => EventView::StepFailed { tag: tag@, error: error@ },
            Event::TimerFired { tag } => EventView::TimerFired { tag: tag@ },
        }
    }
}

/// The tag an event answers.
pub open spec fn event_tag(e: EventView) -> nat {
    match e {
        EventView::ConfigLoaded { tag, .. } => tag,
        EventView::ConfigLoadFailed { tag, .. } => tag,
        EventView::EnvVarLoaded { tag, .. } => tag,
        EventView::StepCompleted { tag, .. } => tag,
        EventView::StepFailed { tag, .. } => tag,
        EventView::TimerFired { tag } => tag,
    }
}

/// What the engine tells the host after each call.
#[derive(Debug)]
pub enum Command {
    /// Perform this effect and report back with its tag.
    Do(Effect),
    /// Nothing to do until another event arrives.
    Wait,
    /// The workflow has ended.
    Done(Result<(), String>),
}

/// The mathematical form of a [`Command`].
pub enum CommandView {
    Do(EffectView),
    Wait,
    Done(Result<(), Seq<char>>),
}

impl View for Command {
    type V = CommandView;

    open spec fn view(&self) -> CommandView {
        match self {
            Command::Do(e) => CommandView::Do(e@),
            Command::Wait => CommandView::Wait,
            Command::Done(Ok(())) => CommandView::Done(Ok(())),
            Command::Done(Err(m)) => CommandView::Done(Err(m@)),
        }
    }
}

} // verus!
