//! User accounts: the commands that manage them and the service that holds them.

pub mod account_manager;
pub mod command;

pub use account_manager::{AccountManager, NullAccountManager};
pub use command::AccountCommand;
