//! Data types and decision logic of the AdEx validator stack: identifiers
//! and their text, channels, sentry events and responses, and the decisions
//! of the validator worker and the sentry, each with its contract.

pub mod adapter;
pub mod big_num;
pub mod campaign;
pub mod channel;
pub mod channel_routes;
pub mod checksum;
pub mod domain;
pub mod hex_text;
pub mod ids;
pub mod sentry;
pub mod sentry_interface;
pub mod spender;
pub mod test_util;
pub mod text;
