//! Reading muted members' messages aloud in a voice channel: the decisions
//! of the bot, the registry of the text channels it reads, the replies to its
//! commands and the addresses of the speech engine it calls.

pub mod commands;
pub mod event_handler;
pub mod subscriptions;
pub mod text;
pub mod voice;
