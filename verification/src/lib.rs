//! Session-owned process supervision and tool-call auditing.

pub mod audit;
pub mod buffer;
pub mod canonical;
pub mod clock;
pub mod config;
pub mod digest;
pub mod error;
pub mod history;
pub mod json;
pub mod json_text;
pub mod laws;
pub mod monitor;
pub mod policy;
pub mod process;
pub mod redact;
pub mod supervisor;
pub mod text;
pub mod tool;
pub mod tool_schema;

pub use audit::{AuditLog, AuditRecord, AuditStatus, ToolEffect};
pub use config::ProcessSupervisorConfig;
pub use policy::{PolicyAction, RiskClass, ToolRequest, ToolRequestOrigin};
pub use process::{ProcessSnapshot, ProcessStatus};
pub use redact::redact_error;
pub use supervisor::ProcessSupervisor;
pub use tool::{process_tools, DevinProcessTool};
pub use tool_schema::process_tool_schema;
