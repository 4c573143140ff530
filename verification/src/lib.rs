//! Decision logic of a compose-stack orchestrator: the stack model, the
//! terminal multiplexer, the image-update checker and the event router,
//! each stated over plain values and proved against its contract.

pub mod agent;
pub mod codec;
pub mod config;
pub mod decimal;
pub mod docker;
pub mod error;
pub mod handlers;
pub mod image_ref;
pub mod json;
pub mod keyed;
pub mod lists;
pub mod paths;
pub mod pieces;
pub mod primitives;
pub mod router;
pub mod session;
pub mod settings;
pub mod stack;
pub mod stack_laws;
pub mod stack_list;
pub mod state;
pub mod status;
pub mod terminal;
pub mod text;
pub mod token;
pub mod update_checker;
pub mod user;
