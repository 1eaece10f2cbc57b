//! The value each configuration field takes when the file leaves it out.

use vstd::prelude::*;

verus! {

/// The instruction sent to the model when the file names none.
pub const DEFAULT_SYSTEM_PROMPT: &'static str = "You are a lossless text compressor for developer content. \
Output ONLY the compressed text, nothing else. \
Rules: \
1) Keep all error codes, file paths, line numbers and column numbers. \
2) Keep all variable names, type names and function names exactly. \
3) Remove decorative characters like arrows, pipes, carets and repeated dashes used only for visual formatting. \
4) Remove lines that only contain whitespace or visual separators. \
5) Keep the error message, the affected lines of code, and the location references. \
No explanations, no preamble.";

/// The server address used when the file names none.
pub open spec fn default_lm_studio_url() -> Seq<char> {
    "http://localhost:1234"@
}

/// The model used when the file names none.
pub open spec fn default_model() -> Seq<char> {
    "meta-llama-3-8b-instruct"@
}

/// The hotkey used when the file names none.
pub open spec fn default_hotkey() -> Seq<char> {
    "F14"@
}

/// The system prompt used when the file names none.
pub open spec fn default_system_prompt() -> Seq<char> {
    DEFAULT_SYSTEM_PROMPT@
}

/// The automatic trigger is off unless the file turns it on.
pub open spec fn default_auto_trigger() -> bool {
    false
}

/// The clipboard length, in characters, above which the automatic trigger fires.
pub open spec fn default_auto_threshold_chars() -> usize {
    2000
}

/// The largest number of tokens asked of the model.
pub open spec fn default_max_tokens() -> u32 {
    512
}

/// Logging to a file is off unless the file turns it on.
pub open spec fn default_log_to_file() -> bool {
    false
}

/// `http://localhost:1234`.
pub fn lm_studio_url() -> (s: String)
    ensures
        s@ == default_lm_studio_url(),
{
    String::from_str("http://localhost:1234")
}

/// `meta-llama-3-8b-instruct`.
pub fn model() -> (s: String)
    ensures
        s@ == default_model(),
{
    String::from_str("meta-llama-3-8b-instruct")
}

/// `F14`.
pub fn hotkey() -> (s: String)
    ensures
        s@ == default_hotkey(),
{
    String::from_str("F14")
}

/// Off.
pub fn auto_trigger() -> (b: bool)
    ensures
        b == default_auto_trigger(),
{
    false
}

/// 2000 characters.
pub fn auto_threshold_chars() -> (n: usize)
    ensures
        n == default_auto_threshold_chars(),
{
    2000
}

/// The built-in compression instruction, which is never empty.
pub fn system_prompt() -> (s: String)
    ensures
        s@ == default_system_prompt(),
        s@.len() > 0,
{
    proof {
        reveal_strlit(
            "You are a lossless text compressor for developer content. \
Output ONLY the compressed text, nothing else. \
Rules: \
1) Keep all error codes, file paths, line numbers and column numbers. \
2) Keep all variable names, type names and function names exactly. \
3) Remove decorative characters like arrows, pipes, carets and repeated dashes used only for visual formatting. \
4) Remove lines that only contain whitespace or visual separators. \
5) Keep the error message, the affected lines of code, and the location references. \
No explanations, no preamble.",
        );
    }
    String::from_str(DEFAULT_SYSTEM_PROMPT)
}

/// 512 tokens.
pub fn max_tokens() -> (n: u32)
    ensures
        n == default_max_tokens(),
{
    512
}

/// Off.
pub fn log_to_file() -> (b: bool)
    ensures
        b == default_log_to_file(),
{
    false
}

} // verus!
