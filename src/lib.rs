//! Turn orchestration for a tool-using chat assistant: conversation history,
//! generation responses and their delta merge, action extraction, retrieval
//! ranking and the per-turn control loop.

pub mod text;
pub mod vars;
pub mod error;
pub mod model_client;
pub mod conversation;
pub mod tools;
pub mod action_thought;
pub mod protocol;
pub mod web_search;
pub mod server;
pub mod thought_action_agent;
pub mod intent_detector;
pub mod guidance_client;
pub mod client;
