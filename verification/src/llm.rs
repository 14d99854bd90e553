//! Chat-completion support: the request arguments and the verified parts of
//! the streaming response handling.  The HTTP calls themselves, and the
//! per-model command glue around them, belong to the embedding application.

use vstd::prelude::*;

pub mod api;
pub mod stt;
pub mod stt_realtime;

verus! {

/// The arguments of one chat request: the user's question and the prompt
/// that frames it.
pub struct FlowArgs {
    pub question: String,
    pub llm_prompt: String,
}

} // verus!
