//! Assembly diagnostics.  A fatal error carries the 1-based number and
//! verbatim text of the offending source line, together with what went
//! wrong.

use vstd::prelude::*;

verus! {

/// What went wrong, with the offending token where there is one.
#[derive(Debug)]
pub enum RasmErrorKind {
    /// A token that is neither label, constant, dictionary entry nor
    /// numeric literal.
    UnknownSymbol(Vec<char>),
    /// A numeric literal with invalid digits or a value over 8 bits.
    MalformedLiteral(Vec<char>),
    /// A `LABEL` directive for a name that is already bound.
    DuplicateLabel(Vec<char>),
    /// A `LABEL` or `CONST` directive with too few operands.
    TruncatedDirective,
    /// A constant whose replacement chain never becomes stable.
    ConstantCycle(Vec<char>),
}

/// The mathematical content of [`RasmErrorKind`].
#[verifier::ext_equal]
pub enum RasmErrorKindView {
    UnknownSymbol(Seq<char>),
    MalformedLiteral(Seq<char>),
    DuplicateLabel(Seq<char>),
    TruncatedDirective,
    ConstantCycle(Seq<char>),
}

impl View for RasmErrorKind {
    type V = RasmErrorKindView;

    open spec fn view(&self) -> RasmErrorKindView {
        match self {
            RasmErrorKind::UnknownSymbol(t) => RasmErrorKindView::UnknownSymbol(t@),
            RasmErrorKind::MalformedLiteral(t) => RasmErrorKindView::MalformedLiteral(t@),
            RasmErrorKind::DuplicateLabel(t) => RasmErrorKindView::DuplicateLabel(t@),
            RasmErrorKind::TruncatedDirective => RasmErrorKindView::TruncatedDirective,
            RasmErrorKind::ConstantCycle(t) => RasmErrorKindView::ConstantCycle(t@),
        }
    }
}

/// A fatal assembly error: the whole assembly fails with this single
/// diagnostic and produces no partial output.
#[derive(Debug)]
pub struct RasmError {
    pub line_number: u32,
    pub line: Vec<char>,
    pub kind: RasmErrorKind,
}

/// The mathematical content of [`RasmError`].
#[verifier::ext_equal]
pub struct RasmErrorView {
    pub line_number: u32,
    pub line: Seq<char>,
    pub kind: RasmErrorKindView,
}

impl View for RasmError {
    type V = RasmErrorView;

    open spec fn view(&self) -> RasmErrorView {
        RasmErrorView { line_number: self.line_number, line: self.line@, kind: self.kind@ }
    }
}

impl RasmError {
    pub fn new(line_number: u32, line: Vec<char>, kind: RasmErrorKind) -> (r: Self)
        ensures
            r@ == (RasmErrorView { line_number, line: line@, kind: kind@ }),
    {
        Self { line_number, line, kind }
    }
}

} // verus!
