//! The error of a compilation, and the exit code each kind maps to.
use vstd::prelude::*;
use crate::loader::{self, LoadError, LoadErrorView};
use crate::parse::ParseError;
use crate::safety::{self, SafetyError, SafetyErrorView};
use crate::text;

verus! {

/// Why a spec could not be compiled.
#[derive(Debug, Clone)]
pub enum CompileError {
    /// The document was refused; the reason as text.
    Parse(String),
    Load(LoadError),
    Safety(SafetyError),
}

pub enum CompileErrorView {
    Parse(Seq<char>),
    Load(LoadErrorView),
    Safety(SafetyErrorView),
}

impl View for CompileError {
    type V = CompileErrorView;

    open spec fn view(&self) -> CompileErrorView {
        match self {
            CompileError::Parse(m) => CompileErrorView::Parse(m@),
            CompileError::Load(e) => CompileErrorView::Load(e@),
            CompileError::Safety(e) => CompileErrorView::Safety(e@),
        }
    }
}

impl From<ParseError> for CompileError {
    fn from(value: ParseError) -> (r: Self) {
        match value {
            ParseError::Parse(msg) => CompileError::Parse(msg),
        }
    }
}

impl vstd::std_specs::convert::FromSpecImpl<ParseError> for CompileError {
    open spec fn obeys_from_spec() -> bool {
        true
    }

    open spec fn from_spec(v: ParseError) -> CompileError {
        match v {
            ParseError::Parse(msg) => CompileError::Parse(msg),
        }
    }
}

impl From<LoadError> for CompileError {
    fn from(value: LoadError) -> (r: Self) {
        CompileError::Load(value)
    }
}

impl vstd::std_specs::convert::FromSpecImpl<LoadError> for CompileError {
    open spec fn obeys_from_spec() -> bool {
        true
    }

    open spec fn from_spec(v: LoadError) -> CompileError {
        CompileError::Load(v)
    }
}

impl From<SafetyError> for CompileError {
    fn from(value: SafetyError) -> (r: Self) {
        CompileError::Safety(value)
    }
}

impl vstd::std_specs::convert::FromSpecImpl<SafetyError> for CompileError {
    open spec fn obeys_from_spec() -> bool {
        true
    }

    open spec fn from_spec(v: SafetyError) -> CompileError {
        CompileError::Safety(v)
    }
}

/// The exit code of each kind: 1 for a refused document, the load error's own
/// code, 3 for a refused source.
pub open spec fn compile_exit_code(e: CompileErrorView) -> i32 {
    match e {
        CompileErrorView::Parse(_) => 1,
        CompileErrorView::Load(l) => if l is Safety {
            3
        } else {
            4
        },
        CompileErrorView::Safety(_) => 3,
    }
}

impl CompileError {
    /// The process exit code for this error (`compile_exit_code`).
    pub fn exit_code(&self) -> (r: i32)
        ensures
            r == compile_exit_code(self@),
    {
        match self {
            CompileError::Parse(_) => 1,
            CompileError::Load(e) => e.exit_code(),
            CompileError::Safety(_) => 3,
        }
    }

    /// The text the error is reported with.
    pub fn message(&self) -> (r: String)
        ensures
            r@ == match self@ {
                CompileErrorView::Parse(m) => "failed to parse OpenAPI document: "@ + m,
                CompileErrorView::Load(e) => loader::load_message(e),
                CompileErrorView::Safety(e) => safety::safety_message(e),
            },
    {
        match self {
            CompileError::Parse(m) => text::cat("failed to parse OpenAPI document: ", m.as_str()),
            CompileError::Load(e) => e.message(),
            CompileError::Safety(e) => e.message(),
        }
    }
}

} // verus!
