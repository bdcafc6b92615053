//! Conversation, wire-format and tool-chain logic for an agent that lets a
//! language model call a small set of local tools.
//!
//! - `conversation`: the log of turns, tool invocations and their results.
//! - `wire`: the provider-facing window of the log, where every tool-use
//!   block is answered by the next message.
//! - `protocol`: request bodies in the vendor's JSON format.
//! - `backend`: backend settings, response reading, transport failures and
//!   retries.
//! - `chain`: the tool chain of one exchange, as a state machine.
//! - `tools`, `command`, `actions`, `registry`: the built-in tools, command
//!   vetting, what each tool does, and the registry.
//! - `agent`: one conversation with its tools and backend.
//! - `json`, `text`: JSON string literals and character helpers.

pub mod actions;
pub mod agent;
pub mod backend;
pub mod chain;
pub mod command;
pub mod conversation;
pub mod json;
pub mod protocol;
pub mod registry;
pub mod text;
pub mod tools;
pub mod wire;
