//! Entity-to-item mapping for a DynamoDB single-table design, and the
//! decision logic of a Discord prediction bot built on top of it.

pub mod text;
pub mod table;
pub mod item;
pub mod request;
pub mod dynamo;
pub mod deez;
pub mod discord;
pub mod entity;
pub mod consumer;
pub mod hw;
pub mod hexcode;
pub mod signature;
pub mod receiver;
