//! Client logic for the Loopia XML-RPC DNS API: building calls, classifying
//! replies and converting zone records to and from their wire form.

pub mod api;
pub mod error;
pub mod members;
pub mod record;
pub mod request;
pub mod text;
pub mod transport;
pub mod wire;

pub use record::{ZoneRecord, ZoneRecords};
