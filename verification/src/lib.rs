//! Verified core of the Google Workspace CLI helpers: service-alias
//! resolution and the Gmail one-click (RFC 8058) unsubscribe logic.
pub mod command;
pub mod error;
pub mod list_unsubscribe;
pub mod plan;
pub mod senders;
pub mod services;
pub mod text;

pub use error::GwsError;
pub use list_unsubscribe::parse_list_unsubscribe;
pub use services::{resolve_service, services, ServiceEntry};
