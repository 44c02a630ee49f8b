//! A vision-model adapter that turns an ordered list of screenshots into a
//! structured session summary: frame sampling, reply cleanup and schema
//! repair, request building and provider configuration.

pub mod sampling;
pub mod reply_text;
pub mod error;
pub mod summary;
pub mod repair;
pub mod provider;
