//! State kept by a desktop assistant between sessions: settings, saved
//! conversations and folders, together with the rules for running shell
//! commands on the user's behalf, with every rule proved against its contract.

pub mod record;
pub mod sorting;
pub mod text;
pub mod persistence;
pub mod chat;
pub mod folder;
pub mod repository;
pub mod tool_flags;
pub mod settings;
pub mod command;
pub mod search;
pub mod system;
