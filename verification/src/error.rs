//! The crate's error type.
use vstd::prelude::*;

verus! {

/// Error raised by a stage of the pipeline, with its message.
#[derive(Debug, Clone)]
pub enum HexError {
    /// Recognition failure.
    Vision(String),
    /// Memory-system failure.
    Memory(String),
    /// Decision-engine failure.
    Engine(String),
    /// Language-model failure.
    Llm(String),
    /// Configuration loading failure.
    Config(String),
    /// Foreign-interface failure.
    Ffi(String),
}

/// Result type of the crate.
pub type HexResult<T> = Result<T, HexError>;

/// The label that precedes the message of each kind of error.
pub open spec fn error_label(e: HexError) -> Seq<char> {
    match e {
        HexError::Vision(_) => "识别错误: "@,
        HexError::Memory(_) => "记忆错误: "@,
        HexError::Engine(_) => "引擎错误: "@,
        HexError::Llm(_) => "LLM错误: "@,
        HexError::Config(_) => "配置错误: "@,
        HexError::Ffi(_) => "FFI错误: "@,
    }
}

/// The message carried by an error.
pub open spec fn error_detail(e: HexError) -> Seq<char> {
    match e {
        HexError::Vision(m) => m@,
        HexError::Memory(m) => m@,
        HexError::Engine(m) => m@,
        HexError::Llm(m) => m@,
        HexError::Config(m) => m@,
        HexError::Ffi(m) => m@,
    }
}

impl HexError {
    /// The printable form of the error: its label followed by its message.
    pub fn message(&self) -> (r: String)
        ensures
            r@ == error_label(*self) + error_detail(*self),
    {
        match self {
            HexError::Vision(m) => crate::text::cat("识别错误: ", m.as_str()),
            HexError::Memory(m) => crate::text::cat("记忆错误: ", m.as_str()),
            HexError::Engine(m) => crate::text::cat("引擎错误: ", m.as_str()),
            HexError::Llm(m) => crate::text::cat("LLM错误: ", m.as_str()),
            HexError::Config(m) => crate::text::cat("配置错误: ", m.as_str()),
            HexError::Ffi(m) => crate::text::cat("FFI错误: ", m.as_str()),
        }
    }
}

} // verus!
