//! What the handlers of the events decide: which answer to give at once,
//! which outside work to ask for, and what to answer once it is done.

pub mod agent;
pub mod auth;
pub mod settings;
pub mod stack;
pub mod terminal;
