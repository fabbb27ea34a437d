//! The command handler of the bot: reading interactions, deciding what to
//! store and what to answer.

pub mod common;
pub mod commands;
pub mod handler;
