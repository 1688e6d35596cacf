//! A request/response mailbox carried by one shared remote document.
//!
//! A worker polls the document, hands the pending requests to handlers and
//! stages their responses; the next poll cycle writes them back. This crate
//! holds what a worker decides and computes. The calls that reach the
//! network are made by its caller, which reports their outcomes back.

pub mod blobs;
pub mod errors;
pub mod expiry;
pub mod gitee;
pub mod listener;
pub mod partition;
pub mod router;
pub mod trans_content;
pub mod trans_unit;

pub use crate::listener::BtpListener;
pub use crate::router::AppListener;
pub use crate::trans_content::TransUnitType;
