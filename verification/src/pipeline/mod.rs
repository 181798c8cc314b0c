//! The plan pipeline.

pub mod agent;
pub mod agent_loop;
pub mod ask;
pub mod authoring;
pub mod body;
pub mod calls;
pub mod catalog;
pub mod condition;
pub mod control;
pub mod decision;
pub mod doc;
pub mod engine;
pub mod exit;
pub mod file;
pub mod filing;
pub mod filter;
pub mod gate;
pub mod interlocutor;
pub mod iterate;
pub mod naming;
pub mod outline;
pub mod plan;
pub mod planner;
pub mod prompts;
pub mod reach;
pub mod record;
pub mod references;
pub mod resolve;
pub mod run;
pub mod run_body;
pub mod schema;
pub mod solver;
pub mod state;
pub mod written;
