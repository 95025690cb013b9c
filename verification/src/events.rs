//! The event stream of the supervised tool, as far as supervision reads it.
//!
//! The tool writes one JSON object per line. Here is what a line says once it
//! has been read: what a command printed, the arguments of a tool call and the
//! like are not kept, since nothing north of the bridge may see them.

use vstd::prelude::*;

verus! {

/// Token counts of a turn.
#[derive(Clone, Copy, Debug, PartialEq, Eq, Structural)]
pub struct Usage {
    /// Tokens read.
    pub input_tokens: i64,
    /// Of these, tokens that were cached.
    pub cached_input_tokens: i64,
    /// Tokens written.
    pub output_tokens: i64,
    /// Of these, tokens spent on reasoning.
    pub reasoning_output_tokens: i64,
}

/// How a command stands.
#[derive(Clone, Copy, Debug, PartialEq, Eq, Structural)]
pub enum CommandExecutionStatus {
    /// Still running.
    InProgress,
    /// Done.
    Completed,
    /// Failed.
    Failed,
    /// Not allowed.
    Declined,
}

/// How a patch stands.
#[derive(Clone, Copy, Debug, PartialEq, Eq, Structural)]
pub enum PatchApplyStatus {
    /// Being applied.
    InProgress,
    /// Applied.
    Completed,
    /// Not applied.
    Failed,
}

/// How a call of an MCP tool stands.
#[derive(Clone, Copy, Debug, PartialEq, Eq, Structural)]
pub enum McpToolCallStatus {
    /// Still running.
    InProgress,
    /// Done.
    Completed,
    /// Failed.
    Failed,
}

/// What an item of a turn is.
#[derive(Debug)]
#[allow(inconsistent_fields)]
pub enum ThreadItemDetails {
    /// Text from the model.
    AgentMessage {
        /// The text.
        text: String,
    },
    /// What the model thought.
    Reasoning {
        /// The text.
        text: String,
    },
    /// A command.
    CommandExecution {
        /// The command line.
        command: String,
        /// Its exit code, once it has one.
        exit_code: Option<i32>,
        /// How it stands.
        status: CommandExecutionStatus,
    },
    /// A patch.
    FileChange {
        /// The files it touches.
        paths: Vec<String>,
        /// How it stands.
        status: PatchApplyStatus,
    },
    /// A call of an MCP tool.
    McpToolCall {
        /// The server.
        server: String,
        /// The tool.
        tool: String,
        /// How it stands.
        status: McpToolCallStatus,
    },
    /// A search of the web.
    WebSearch {
        /// What was searched for.
        query: String,
    },
    /// A list of things to do.
    TodoList {
        /// How many there are.
        items: usize,
    },
    /// An error that did not end the turn.
    Error {
        /// What it says.
        message: String,
    },
    /// Anything else.
    Other {
        /// The name of its type, where it has one.
        kind: Option<String>,
    },
}

/// One event of the stream.
#[derive(Debug)]
pub enum ThreadEvent {
    /// The conversation has begun.
    ThreadStarted {
        /// Its id, with which it can be resumed.
        thread_id: String,
    },
    /// A turn has begun.
    TurnStarted,
    /// A turn is over.
    TurnCompleted {
        /// What it cost.
        usage: Usage,
    },
    /// A turn has failed.
    TurnFailed {
        /// Why.
        message: String,
    },
    /// An item has begun.
    ItemStarted {
        /// The item.
        item: ThreadItemDetails,
    },
    /// An item has changed.
    ItemUpdated {
        /// The item.
        item: ThreadItemDetails,
    },
    /// An item is over.
    ItemCompleted {
        /// The item.
        item: ThreadItemDetails,
    },
    /// The stream itself has failed.
    Error {
        /// Why.
        message: String,
    },
}

} // verus!
