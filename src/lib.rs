//! A conversational agent core: typed requests to a text-generation service,
//! an append-only conversation, a tool-call engine with schema validation, a
//! bounded turn loop, and the command plan for a vector store of embeddings.

pub mod chatbot;
pub mod conversation;
pub mod error;
pub mod html;
pub mod inference;
pub mod store;
pub mod text;
pub mod tools;

pub use error::{CustomError, MyError};
