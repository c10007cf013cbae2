//! The messaging core of a desktop chat client: the commands it hands to the
//! backend, the typing-indicator coordinator, the windowed message loader and
//! the optimistic mutations applied before the backend answers.

pub mod chats;
pub mod command;
pub mod compose;
pub mod config;
pub mod model;
pub mod typing;
pub mod window;
