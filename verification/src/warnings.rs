//! Findings of the compiler about operations, and the operations it skips.
use vstd::prelude::*;
use crate::urls::opt_str_view;

verus! {

/// What a finding is about.
#[derive(Clone, Copy, Debug, PartialEq, Eq, Structural)]
pub enum WarningCode {
    UnresolvedRef,
    RecursiveSchema,
    LargeSchema,
    NoJsonResponse,
    MissingResponseSchema,
    MissingRequestSchema,
    NoServers,
    AuthUnsupported,
    Deprecated,
    Destructive,
    WeakDescription,
    UnsupportedStyle,
    NameCollision,
    AllOfUnflattened,
    Discriminator,
    UnsupportedMethod,
    Streaming,
    BinaryBody,
    DuplicateOperationId,
    MissingOperationId,
    ToolExplosion,
}

/// How much a finding weighs.
#[derive(Clone, Copy, Debug, PartialEq, Eq, Structural)]
pub enum Severity {
    Info,
    Warn,
    Blocking,
}

/// A finding. `severity` is `None` where the finding takes the default
/// severity of its code, which the IR defines.
pub struct Warning {
    pub code: WarningCode,
    pub severity: Option<Severity>,
    pub operation_id: Option<String>,
    pub method: Option<String>,
    pub path: Option<String>,
    pub message: String,
}

pub struct WarningView {
    pub code: WarningCode,
    pub severity: Option<Severity>,
    pub operation_id: Option<Seq<char>>,
    pub method: Option<Seq<char>>,
    pub path: Option<Seq<char>>,
    pub message: Seq<char>,
}

impl View for Warning {
    type V = WarningView;

    open spec fn view(&self) -> WarningView {
        WarningView {
            code: self.code,
            severity: self.severity,
            operation_id: opt_str_view(self.operation_id),
            method: opt_str_view(self.method),
            path: opt_str_view(self.path),
            message: self.message@,
        }
    }
}

pub open spec fn warnings_view(v: Seq<Warning>) -> Seq<WarningView> {
    Seq::new(v.len(), |i: int| v[i]@)
}

/// An operation that is not compiled, and why.
pub struct SkippedOperation {
    pub method: String,
    pub path: String,
    pub operation_id: Option<String>,
    pub codes: Vec<WarningCode>,
}

pub struct SkippedView {
    pub method: Seq<char>,
    pub path: Seq<char>,
    pub operation_id: Option<Seq<char>>,
    pub codes: Seq<WarningCode>,
}

impl View for SkippedOperation {
    type V = SkippedView;

    open spec fn view(&self) -> SkippedView {
        SkippedView {
            method: self.method@,
            path: self.path@,
            operation_id: opt_str_view(self.operation_id),
            codes: self.codes@,
        }
    }
}

pub open spec fn skipped_view(v: Seq<SkippedOperation>) -> Seq<SkippedView> {
    Seq::new(v.len(), |i: int| v[i]@)
}

/// A finding with its code's default severity.
pub open spec fn warn_spec(
    code: WarningCode,
    operation_id: Option<Seq<char>>,
    method: Option<Seq<char>>,
    path: Option<Seq<char>>,
    message: Seq<char>,
) -> WarningView {
    WarningView { code, severity: None, operation_id, method, path, message }
}

fn opt_owned(o: Option<&str>) -> (r: Option<String>)
    ensures
        opt_str_view(r) == crate::names::opt_view(o),
{
    match o {
        Some(s) => Some(s.to_owned()),
        None => None,
    }
}

/// A finding with its code's default severity (`warn_spec`).
pub fn warn(
    code: WarningCode,
    operation_id: Option<String>,
    method: Option<&str>,
    path: Option<&str>,
    message: String,
) -> (r: Warning)
    ensures
        r@ == warn_spec(
            code,
            opt_str_view(operation_id),
            crate::names::opt_view(method),
            crate::names::opt_view(path),
            message@,
        ),
{
    Warning {
        code,
        severity: None,
        operation_id,
        method: opt_owned(method),
        path: opt_owned(path),
        message,
    }
}

/// Records a skipped operation: a finding with the code, and the operation
/// with that one code.
pub fn skip(
    skipped: &mut Vec<SkippedOperation>,
    warnings: &mut Vec<Warning>,
    method: &str,
    path: &str,
    operation_id: Option<String>,
    code: WarningCode,
    message: &str,
)
    ensures
        warnings_view(final(warnings)@) == warnings_view(old(warnings)@).push(
            warn_spec(
                code,
                opt_str_view(operation_id),
                Some(method@),
                Some(path@),
                message@,
            ),
        ),
        skipped_view(final(skipped)@) == skipped_view(old(skipped)@).push(
            SkippedView {
                method: method@,
                path: path@,
                operation_id: opt_str_view(operation_id),
                codes: seq![code],
            },
        ),
{
    let ghost w0 = warnings_view(warnings@);
    let ghost s0 = skipped_view(skipped@);
    let id2 = match &operation_id {
        Some(s) => Some(s.clone()),
        None => None,
    };
    warnings.push(warn(code, id2, Some(method), Some(path), message.to_owned()));
    assert(warnings_view(warnings@) =~= w0.push(warnings@.last()@));
    let mut codes: Vec<WarningCode> = Vec::new();
    codes.push(code);
    skipped.push(
        SkippedOperation { method: method.to_owned(), path: path.to_owned(), operation_id, codes },
    );
    assert(skipped@.last()@.codes =~= seq![code]);
    assert(skipped_view(skipped@) =~= s0.push(skipped@.last()@));
}

} // verus!
