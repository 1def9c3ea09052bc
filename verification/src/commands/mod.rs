//! The commands of the bot.

pub mod zunda;
