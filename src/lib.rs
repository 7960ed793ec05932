//! A deterministic engine for periodic reminder workflows: a recipe of steps is
//! parsed, its effects are planned and handed to a host, and the host's replies
//! drive the engine from one step to the next.

pub mod backends;
pub mod doc;
pub mod duration;
pub mod emit;
pub mod error;
pub mod flow;
pub mod laws;
pub mod machine;
pub mod names;
pub mod parse;
pub mod protocol;
pub mod recipe;
pub mod template;
pub mod text;

pub use duration::{parse_duration, Duration};
pub use error::FlowError;
pub use flow::ReminderFlow;
pub use protocol::{
    config_discovery, CellRef, Command, ConfigDiscovery, EffId, Effect, EmailField,
    EmailSearchRequest, Event, GoogleSheetRequest, TelegramRequest, CONFIG_ENV_VAR,
    SYSTEM_CONFIG_PATH, USER_CONFIG_PATH,
};
pub use recipe::{CredentialSource, FlowConfig, Step, ValueRef};
