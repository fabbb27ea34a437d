//! The Discord interaction and response payloads the bot reads and writes.
use vstd::prelude::*;
use crate::entity::user::User;

verus! {

/// An interaction Discord sends to the bot.
#[derive(Debug, Clone)]
pub struct InteractionBody {
    pub application_id: String,
    pub id: String,
    pub token: String,
    pub interaction_type: usize,
    pub version: usize,
    pub member: Option<Member>,
    pub data: Option<InteractionData>,
}

/// The guild member who invoked the interaction.
#[derive(Debug, Clone)]
pub struct Member {
    pub user: User,
}

/// The invoked command and its options.
#[derive(Debug, Clone)]
pub struct InteractionData {
    pub guild_id: String,
    pub id: String,
    pub name: String,
    pub data_type: usize,
    pub options: Option<Vec<CommandOption>>,
}

/// One option of a command, by name.
#[derive(Debug, Clone)]
pub struct CommandOption {
    pub name: String,
    pub option_type: usize,
    pub value: CommandOptionValue,
}

/// The value given for a command option.
#[derive(Debug, Clone)]
pub enum CommandOptionValue {
    STRING(String),
    USER(String),
    INTEGER(isize),
    BOOLEAN(bool),
}

impl CommandOptionValue {
    /// The text, if this is a string value.
    pub fn string(&self) -> (r: Option<&String>)
        ensures
            match self {
                CommandOptionValue::STRING(s) => r == Some(s),
                _ => r is None,
            },
    {
        match self {
            CommandOptionValue::STRING(s) => Some(s),
            _ => None,
        }
    }

    /// The flag, if this is a boolean value.
    pub fn boolean(&self) -> (r: Option<&bool>)
        ensures
            match self {
                CommandOptionValue::BOOLEAN(x) => r == Some(x),
                _ => r is None,
            },
    {
        match self {
            CommandOptionValue::BOOLEAN(x) => Some(x),
            _ => None,
        }
    }
}

/// The response to an interaction.
#[derive(Debug, Default)]
pub struct ResponseBody {
    pub response_type: usize,
    pub data: Option<ResponseData>,
}

/// The message the bot posts.
#[derive(Debug, Default)]
pub struct ResponseData {
    pub flags: Option<usize>,
    pub content: Option<String>,
    pub embeds: Option<Vec<Embed>>,
}

/// A rich embed of a message.
#[derive(Debug, Default)]
pub struct Embed {
    pub title: Option<String>,
    pub description: Option<String>,
    pub color: Option<usize>,
    pub url: Option<String>,
    pub fields: Option<Vec<Field>>,
}

/// A titled field of an embed.
#[derive(Debug, Default)]
pub struct Field {
    pub name: Option<String>,
    pub value: Option<String>,
    pub inline: Option<bool>,
}

} // verus!
