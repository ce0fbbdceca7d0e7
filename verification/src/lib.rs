//! Selection anchoring and annotation composition for rendered articles.

pub mod composer;
pub mod envelope;
pub mod gateway;
pub mod link;
pub mod page;
pub mod popover;
pub mod projector;
pub mod route;
pub mod text;
pub mod toast;
pub mod wire;
