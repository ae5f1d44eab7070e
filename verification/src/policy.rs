//! The vocabulary of the tool policy that audit records and tool calls speak.

use crate::json::Json;
use vstd::prelude::*;

verus! {

/// How much harm a tool call could do.
#[derive(Debug, Clone, Copy, PartialEq, Eq, Structural)]
pub enum RiskClass {
    Low,
    Medium,
    High,
    Critical,
}

/// What the policy decides on a tool call.
#[derive(Debug, Clone, Copy, PartialEq, Eq, Structural)]
pub enum PolicyAction {
    Allow,
    Ask,
    Deny,
    Sandbox,
}

/// Where a tool call comes from.
#[derive(Debug, Clone, Copy, PartialEq, Eq, Structural)]
pub enum ToolRequestOrigin {
    Native,
}

/// A tool call as it is put before the policy.
#[derive(Debug, PartialEq, Eq)]
pub struct ToolRequest {
    pub call_id: String,
    pub tool_name: String,
    pub arguments: Json,
    pub origin: ToolRequestOrigin,
}

} // verus!
