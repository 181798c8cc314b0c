//! What a store keeps: threads, and the observed output shapes of tools.

use crate::text::cat2;
use crate::value::{Data, Json};
use vstd::prelude::*;

verus! {

/// A conversation's header.
#[derive(Debug, PartialEq)]
pub struct ThreadMeta {
    pub id: String,
    pub title: String,
    /// Epoch milliseconds.
    pub created_at: i64,
    pub updated_at: i64,
    pub message_count: i64,
}

/// An observed (or declared) output shape for a tool.
#[derive(Debug, PartialEq)]
pub struct ToolShape {
    pub tool: String,
    pub schema: Data,
    pub example: Data,
    pub seen_count: i64,
}

/// The model of a [`ToolShape`].
pub struct ToolShapeView {
    pub tool: Seq<char>,
    pub schema: Json,
    pub example: Json,
    pub seen_count: int,
}

impl ToolShape {
    pub open spec fn view(&self) -> ToolShapeView {
        ToolShapeView {
            tool: self.tool@,
            schema: self.schema@,
            example: self.example@,
            seen_count: self.seen_count as int,
        }
    }
}

pub open spec fn shapes_view(s: Seq<ToolShape>) -> Seq<ToolShapeView> {
    Seq::new(s.len(), |i: int| s[i]@)
}

/// A store's failure.
#[derive(Debug, PartialEq)]
pub struct StoreError(pub String);

impl StoreError {
    /// The error in words.
    pub fn message(&self) -> (r: String)
        ensures
            r@ == "store error: "@ + self.0@,
    {
        cat2("store error: ", self.0.as_str())
    }
}

} // verus!
