//! The command-line tool's error kinds and process exit codes.
use vstd::prelude::*;

verus! {

/// Process exit codes of the command-line tool.
#[derive(Debug, Clone, Copy, PartialEq, Eq, Structural)]
pub enum ExitCode {
    Success,
    Usage,
    Policy,
    SupplyChain,
    Upstream,
    Interrupted,
}

pub open spec fn exit_number(c: ExitCode) -> i32 {
    match c {
        ExitCode::Success => 0,
        ExitCode::Usage => 1,
        ExitCode::Policy => 2,
        ExitCode::SupplyChain => 3,
        ExitCode::Upstream => 4,
        ExitCode::Interrupted => 130,
    }
}

impl ExitCode {
    /// The number the process exits with: 0, 1, 2, 3, 4, or 130 when interrupted.
    pub fn code(&self) -> (r: i32)
        ensures
            r == exit_number(*self),
    {
        match self {
            ExitCode::Success => 0,
            ExitCode::Usage => 1,
            ExitCode::Policy => 2,
            ExitCode::SupplyChain => 3,
            ExitCode::Upstream => 4,
            ExitCode::Interrupted => 130,
        }
    }
}

/// An error of the command-line tool, with the message shown to the user.
#[derive(Debug, Clone)]
pub enum CliError {
    Usage(String),
    Policy(String),
    SupplyChain(String),
    Upstream(String),
    Io(String),
}

pub enum CliErrorView {
    Usage(Seq<char>),
    Policy(Seq<char>),
    SupplyChain(Seq<char>),
    Upstream(Seq<char>),
    Io(Seq<char>),
}

impl View for CliError {
    type V = CliErrorView;

    open spec fn view(&self) -> CliErrorView {
        match self {
            CliError::Usage(m) => CliErrorView::Usage(m@),
            CliError::Policy(m) => CliErrorView::Policy(m@),
            CliError::SupplyChain(m) => CliErrorView::SupplyChain(m@),
            CliError::Upstream(m) => CliErrorView::Upstream(m@),
            CliError::Io(m) => CliErrorView::Io(m@),
        }
    }
}

/// The message of an error, whatever its kind.
pub open spec fn cli_message(e: CliErrorView) -> Seq<char> {
    match e {
        CliErrorView::Usage(m) => m,
        CliErrorView::Policy(m) => m,
        CliErrorView::SupplyChain(m) => m,
        CliErrorView::Upstream(m) => m,
        CliErrorView::Io(m) => m,
    }
}

/// The exit code of each kind: usage and I/O errors exit 1.
pub open spec fn cli_exit(e: CliErrorView) -> ExitCode {
    match e {
        CliErrorView::Usage(_) => ExitCode::Usage,
        CliErrorView::Io(_) => ExitCode::Usage,
        CliErrorView::Policy(_) => ExitCode::Policy,
        CliErrorView::SupplyChain(_) => ExitCode::SupplyChain,
        CliErrorView::Upstream(_) => ExitCode::Upstream,
    }
}

impl CliError {
    pub fn usage(msg: &str) -> (r: Self)
        ensures
            r@ == CliErrorView::Usage(msg@),
    {
        CliError::Usage(msg.to_owned())
    }

    pub fn policy(msg: &str) -> (r: Self)
        ensures
            r@ == CliErrorView::Policy(msg@),
    {
        CliError::Policy(msg.to_owned())
    }

    pub fn supply(msg: &str) -> (r: Self)
        ensures
            r@ == CliErrorView::SupplyChain(msg@),
    {
        CliError::SupplyChain(msg.to_owned())
    }

    pub fn upstream(msg: &str) -> (r: Self)
        ensures
            r@ == CliErrorView::Upstream(msg@),
    {
        CliError::Upstream(msg.to_owned())
    }

    pub fn io(msg: &str) -> (r: Self)
        ensures
            r@ == CliErrorView::Io(msg@),
    {
        CliError::Io(msg.to_owned())
    }

    /// The exit code for this error (`cli_exit`).
    pub fn exit_code(&self) -> (r: ExitCode)
        ensures
            r == cli_exit(self@),
    {
        match self {
            CliError::Usage(_) | CliError::Io(_) => ExitCode::Usage,
            CliError::Policy(_) => ExitCode::Policy,
            CliError::SupplyChain(_) => ExitCode::SupplyChain,
            CliError::Upstream(_) => ExitCode::Upstream,
        }
    }

    /// The message shown to the user.
    pub fn message(&self) -> (r: String)
        ensures
            r@ == cli_message(self@),
    {
        match self {
            CliError::Usage(m) => m.clone(),
            CliError::Policy(m) => m.clone(),
            CliError::SupplyChain(m) => m.clone(),
            CliError::Upstream(m) => m.clone(),
            CliError::Io(m) => m.clone(),
        }
    }
}

} // verus!
