//! Builds an email message from addresses, headers, a plain and an HTML body
//! and attached files into a MIME document, and decides from the reply of an
//! SMTP server how sending ended.

pub mod address;
pub mod assemble;
pub mod base64;
pub mod boundary;
pub mod date;
pub mod display;
pub mod draft;
pub mod error;
pub mod laws;
pub mod part;
pub mod render;
pub mod send;

pub use crate::draft::Email;
pub use crate::error::Error;
