use vstd::prelude::*;

verus! {

/// A free-form error message.
#[derive(Debug)]
pub struct CustomError {
    pub details: String,
}

impl CustomError {
    pub fn new(msg: &str) -> (r: CustomError)
        ensures
            r.details@ == msg@,
    {
        CustomError { details: msg.to_owned() }
    }

    /// The message this error carries.
    pub fn message(&self) -> (r: String)
        ensures
            r@ == self.details@,
    {
        self.details.clone()
    }
}

/// Every failure this library reports, one variant per kind so that callers
/// can choose to retry, abort or tell the model.
#[derive(Debug)]
pub enum MyError {
    /// The network call failed or timed out; the caller may retry.
    Transport(String),
    /// A response body did not match the expected schema.
    Decode(String),
    /// A response batch did not have the size of the request batch.
    Shape { expected: usize, actual: usize },
    /// The vector store reported a failure.
    Store(String),
    /// No registered tool has this name.
    UnknownTool(String),
    /// A tool call's arguments do not match the tool's parameter schema.
    Argument(String),
    /// A tool handler reported a failure.
    Execution(String),
    /// The model asked for tools more times in a row than the turn allows.
    ToolLoopExceeded { limit: u64 },
    /// Any other failure, with its message.
    Custom(CustomError),
}

impl MyError {
    /// A description of the failure, as a tool message shows it.
    pub open spec fn spec_message(&self) -> Seq<char> {
        match self {
            MyError::Transport(s) => "Request error: "@ + s@,
            MyError::Decode(s) => "Serialization error: "@ + s@,
            MyError::Shape { .. } => "the response batch does not match the request batch"@,
            MyError::Store(s) => "vector store error: "@ + s@,
            MyError::UnknownTool(s) => "unknown tool: "@ + s@,
            MyError::Argument(s) => "invalid arguments: "@ + s@,
            MyError::Execution(s) => "tool failed: "@ + s@,
            MyError::ToolLoopExceeded { .. } => "too many tool calls in a row"@,
            MyError::Custom(c) => "Custom error look closer: "@ + c.details@,
        }
    }

    pub fn message(&self) -> (r: String)
        ensures
            r@ == self.spec_message(),
    {
        match self {
            MyError::Transport(s) => String::from_str("Request error: ").concat(s.as_str()),
            MyError::Decode(s) => String::from_str("Serialization error: ").concat(s.as_str()),
            MyError::Shape { .. } => String::from_str(
                "the response batch does not match the request batch",
            ),
            MyError::Store(s) => String::from_str("vector store error: ").concat(s.as_str()),
            MyError::UnknownTool(s) => String::from_str("unknown tool: ").concat(s.as_str()),
            MyError::Argument(s) => String::from_str("invalid arguments: ").concat(s.as_str()),
            MyError::Execution(s) => String::from_str("tool failed: ").concat(s.as_str()),
            MyError::ToolLoopExceeded { .. } => String::from_str("too many tool calls in a row"),
            MyError::Custom(c) => String::from_str("Custom error look closer: ").concat(c.details.as_str()),
        }
    }
}

} // verus!
