//! Console logic: intent parsing, conversation flow, request building and
//! the organisation tree, each with its contract.
pub mod text;
pub mod intent;
pub mod parse;
pub mod num;
pub mod llm;
pub mod conversation;
pub mod laws;
pub mod services;
pub mod module;
pub mod registry;
pub mod modules;
pub mod skill;
pub mod executor;
pub mod atlas;
pub mod theme;
pub mod cockpit;
pub mod people;
pub mod palette;
pub mod layout;
