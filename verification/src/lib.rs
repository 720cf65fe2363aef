//! A registry of uniquely identified tokens: who owns each one, who may move it
//! on the owner's behalf, and the notifications that record every change.

pub mod address;
pub mod codec;
pub mod events;
pub mod genesis;
pub mod laws;
pub mod registry;
pub mod rules;
pub mod token;
pub mod token_map;
pub mod wire;
