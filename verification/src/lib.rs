//! The core of an assistant that answers by running plans of tool calls: the
//! template dialect, plan documents and their checks, what a run does next, the
//! planner's and the solver's part in it, and the agent loop.
//!
//! Nothing here waits: each function takes what has come in so far and says what
//! follows. The caller performs it.

pub mod agent;
pub mod chat;
pub mod format;
pub mod json;
pub mod laws;
pub mod migrating;
pub mod pipeline;
pub mod prompts;
pub mod seqs;
pub mod shapes;
pub mod store;
pub mod template;
pub mod text;
pub mod toolbox;
pub mod tools;
pub mod value;
pub mod yaml;
