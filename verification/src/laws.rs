//! What holds of the library as a whole, stated on what goes in and what comes out.

pub mod captions;
pub mod choices;
pub mod claims;
pub mod commands;
pub mod details;
pub mod dialogue;
pub mod entities;
pub mod formats;
pub mod inputs;
pub mod limits;
pub mod lists;
pub mod messages;
pub mod searches;
pub mod senders;
pub mod services;
pub mod storage;
pub mod texts;
pub mod tokens;
pub mod updates;
