//! A verified core for a chat-relay bot: it decides which inbound messages
//! deserve a completion request, builds the JSON body of that request, reads
//! the completion endpoint's JSON reply, and chooses the text to send back.
//! The gateway connection and the HTTP transport live outside this crate.

pub mod data;
pub mod handler;
pub mod json;
