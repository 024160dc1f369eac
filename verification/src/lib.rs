//! Verified core of a Webex API client: the Adaptive Card style keywords and
//! the decisions of the REST client (URLs, host prefixes, error replies and
//! pagination).

pub mod adaptive_card;
pub mod client;
pub mod text;
