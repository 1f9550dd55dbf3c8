//! Identity and permission resolution for a bot-list backend.
//!
//! The library holds the decisions of the service: the attribute directory
//! and the choice of a user's attribute, the tiered lookup of a user, and the
//! reconciliation of persisted flags with the roles a member holds. What
//! talks to the realtime sessions, to the store and to the network is left
//! to the caller, who asks on the library's behalf and hands back what came
//! of it.

pub mod avatar;
pub mod config;
pub mod database;
pub mod decimal;
pub mod flags;
pub mod getch;
pub mod identity;
pub mod index;
pub mod invite;
pub mod presence;
pub mod roles;
pub mod store;

pub use config::{Channels, Discord, Servers};
pub use database::{Collection, ConfigError, Database, Fault};
pub use flags::{Action, FlagSync, MainHandler, Outcome, Pending};
pub use getch::{Answer, Ask, Getch, IUser, User};
pub use identity::Identity;
pub use index::RoleIndex;
pub use invite::{GuildInviteQuery, InviteAnswer, InviteAsk, InviteRequest, InviteSearch};
pub use presence::{OnlineStatus, Status};
pub use roles::{Member, NormalRole, StaffRole};
