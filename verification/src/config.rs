//! Process configuration.
//!
//! Loading from the environment is the application's job; the shape of the
//! configuration belongs to the library.

use vstd::prelude::*;

verus! {

/// Everything the process needs to run: provider addresses, the search
/// provider credential, where to listen, and the session timeout.
#[derive(Debug)]
pub struct AppConfig {
    pub ollama_url: String,
    pub ollama_model: String,
    pub brave_api_key: String,
    pub bind_address: String,
    pub session_timeout_mins: u64,
}

} // verus!
