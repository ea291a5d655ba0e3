//! Service layer: the rules that tie conversation, tools and context together.

pub mod approval;
pub mod assistant;
pub mod clipboard;
pub mod conversation;
pub mod mcp_bridge;
pub mod tools;

pub use approval::{AlwaysApprove, AlwaysDeny, PendingApprovals};
pub use assistant::AssistantService;
pub use clipboard::ClipboardContext;
pub use conversation::{to_chatml, ChatMessage, History, Role};
pub use tools::{ToolCall, ToolExecutor, ToolOutcome, ToolStep};
