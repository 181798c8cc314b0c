//! Prompts that are not part of the plan pipeline.

pub mod chat;
