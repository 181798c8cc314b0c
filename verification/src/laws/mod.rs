//! What the library promises, stated of inputs and results.

pub mod agents;
pub mod calling;
pub mod catalogs;
pub mod checking;
pub mod conversing;
pub mod documents;
pub mod drafting;
pub mod editing;
pub mod formats;
pub mod gating;
pub mod iteration;
pub mod messages;
pub mod naming;
pub mod objects;
pub mod reading;
pub mod reporting;
pub mod running;
pub mod telling;
pub mod templates;
