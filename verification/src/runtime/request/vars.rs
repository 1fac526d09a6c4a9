//! System variable names (constants for consistency)
use vstd::prelude::*;

verus! {

pub const INITIAL_INPUT: &'static str = "INITIAL_INPUT";
pub const CURRENT_INPUT: &'static str = "CURRENT_INPUT";
pub const PREV_NODE: &'static str = "PREV_NODE";
pub const PREV_LAYER: &'static str = "PREV_LAYER";
pub const CURRENT_LAYER: &'static str = "CURRENT_LAYER";
pub const HOP_COUNT: &'static str = "HOP_COUNT";
pub const TIMESTAMP: &'static str = "TIMESTAMP";
pub const REQUEST_ID: &'static str = "REQUEST_ID";
pub const ROUTE_DECISION: &'static str = "ROUTE_DECISION";
pub const INPUT_LENGTH: &'static str = "INPUT_LENGTH";
pub const WORD_COUNT: &'static str = "WORD_COUNT";

} // verus!
