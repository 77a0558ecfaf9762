//! A tool-augmented chat orchestration library.
//!
//! The core is the bounded loop that alternates completion-provider calls
//! with model-requested tool execution ([`engine`]), the inline markup
//! protocol those requests travel in ([`parser`]), the ordered event stream
//! a request produces ([`stream`]), the tool result shaping ([`executor`],
//! [`search`], [`fetch`]) and the keyed session store backing multi-turn
//! state ([`store`]).


pub mod config;
pub mod engine;
pub mod errors;
pub mod executor;
pub mod fetch;
pub mod http_api;
pub mod ollama;
pub mod parser;
pub mod search;
pub mod session;
pub mod store;
pub mod stream;
pub mod text;

pub use config::AppConfig;
pub use engine::{build_messages, normalize_user_message, Engine, EngineAction, Outcome,
    MAX_TOOL_ITERATIONS, SYSTEM_PROMPT};
pub use errors::AppError;
pub use executor::{fetch_result_of, search_result_of, ToolResult};
pub use http_api::{ChatInput, HealthResponse};
pub use ollama::OllamaChatChunk;
pub use fetch::{check_body_size, check_content_length, clean_text, extract_text,
    format_fetch_error, format_result, process_fetch_body, validate_url, FETCH_TIMEOUT_SECS,
    MAX_CONTENT_SIZE, MAX_OUTPUT_CHARS};
pub use parser::{has_tool_calls, parse_tool_calls, CallView, ToolCall};
pub use search::{format_results, format_search_error, BraveSearchResponse, SearchResult,
    WebResults, SEARCH_RESULT_COUNT};
pub use session::{ChatMessage, MessageView, Role, Session, SessionView};
pub use store::{append_message, clear_session, create_session_manager, get_or_create_session,
    session_count, update_session, SessionManager};
pub use stream::{EventView, StreamEvent};
