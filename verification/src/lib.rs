//! The decision core of a command palette: display names for actions, a
//! usage-biased catalog order, interception of special queries, and the
//! palette's selection and confirmation protocol.
//!
//! The palette ranks in three steps. [`CommandPaletteDelegate::update_matches`]
//! puts the catalog in usage order and says what to search for. The host runs
//! its string matcher and asks its interceptor. Then
//! [`CommandPaletteDelegate::apply_matches`] splices the answers into the
//! visible result list.

pub mod catalog;
pub mod command;
pub mod history;
pub mod humanize;
pub mod intercept;
pub mod matches;
pub mod palette;
pub mod ranking;
pub mod runnables;
pub mod text;

pub use catalog::{available_commands, CommandPaletteFilter};
pub use command::{Action, Command};
pub use history::HitCounts;
pub use humanize::humanize_action_name;
pub use intercept::{CommandInterceptResult, CommandPaletteInterceptor, InterceptorSlot};
pub use matches::{MatchQuery, StringMatch, StringMatchCandidate};
pub use palette::{CommandPaletteDelegate, RankingPass};
