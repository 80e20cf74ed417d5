//! Decision logic of an opossum-picture chat bot: configuration, message
//! filters, routing of incoming messages, command handling and image choice.
//! The bot's network and database work stands outside this crate; everything
//! here computes on plain values and is verified.

pub mod config;
pub mod routing;
pub mod text;
pub mod util;
pub mod filters;
pub mod images;
pub mod handlers;
