//! What holds of the operations of the server, stated of what goes in and what comes out.

pub mod answers;
pub mod app;
pub mod bridge;
pub mod chats;
pub mod entries;
pub mod journal;
pub mod requests;
pub mod results;
pub mod settings;
pub mod texts;
pub mod tools;
pub mod turns;
pub mod usage;
