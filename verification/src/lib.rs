//! A typed client library for a generative-language HTTP API.
//!
//! The library builds JSON request payloads (conversation turns, generation
//! parameters, tool declarations), and parses JSON, or server-sent-event
//! style streamed JSON, responses back into typed structures.  The JSON
//! wire format, the schema bridge for function declarations, and the
//! stream framing are all verified; the HTTP transport itself lives
//! outside the library.

pub mod client;
pub mod codec;
pub mod error;
pub mod json;
pub mod json_text;
pub mod models;
pub mod stream;
pub mod text;
pub mod tools;

pub use client::ContentBuilder;
pub use error::{Error, ErrorV};
pub use json::{JsonNumber, JsonV, JsonValue};
pub use models::{
    Candidate, CitationMetadata, CitationSource, Content, FunctionCallingConfig,
    FunctionCallingMode, GenerateContentRequest, GenerationConfig, GenerationResponse,
    HarmBlockThreshold, HarmCategory, Message, Part, PromptFeedback, Role, SafetyRating,
    SafetySetting, ToolConfig, UsageMetadata,
};
pub use tools::{
    value_to_function_parameters, FunctionCall, FunctionDeclaration, FunctionParameters,
    PropertyDetails, Tool,
};
