//! One classified source line of an assembly program, kept so that a
//! diagnostic can cite the original line by number and text.

use crate::rasm_text::views_of;
use vstd::prelude::*;

verus! {

/// The directive carried by a tag line.
#[derive(Clone, Copy, Debug, PartialEq, Eq, Structural)]
pub enum RasmTag {
    Const,
    Label,
    Untagged,
}

/// The classification of a source line.
#[derive(Clone, Copy, Debug, PartialEq, Eq, Structural)]
pub enum LineType {
    Empty,
    Tag,
    Code,
}

/// A classified source line.
pub struct RasmLine {
    pub comment: Vec<char>,
    pub tag_type: RasmTag,
    pub line_type: LineType,
    pub tags: Vec<Vec<char>>,
    pub code_parts: Vec<Vec<char>>,
    pub line_number: u32,
    pub original_line: Vec<char>,
}

/// The mathematical content of a classified source line.
#[verifier::ext_equal]
pub struct LineView {
    pub comment: Seq<char>,
    pub tag_type: RasmTag,
    pub line_type: LineType,
    pub tags: Seq<Seq<char>>,
    pub code_parts: Seq<Seq<char>>,
    pub line_number: u32,
    pub original_line: Seq<char>,
}

impl View for RasmLine {
    type V = LineView;

    open spec fn view(&self) -> LineView {
        LineView {
            comment: self.comment@,
            tag_type: self.tag_type,
            line_type: self.line_type,
            tags: views_of(self.tags@),
            code_parts: views_of(self.code_parts@),
            line_number: self.line_number,
            original_line: self.original_line@,
        }
    }
}

impl RasmLine {
    pub fn new(
        comment: Vec<char>,
        tag_type: RasmTag,
        line_type: LineType,
        tags: Vec<Vec<char>>,
        code_parts: Vec<Vec<char>>,
        line_number: u32,
        original_line: Vec<char>,
    ) -> (r: Self)
        ensures
            r@ == (LineView {
                comment: comment@,
                tag_type,
                line_type,
                tags: views_of(tags@),
                code_parts: views_of(code_parts@),
                line_number,
                original_line: original_line@,
            }),
    {
        Self { comment, tag_type, line_type, tags, code_parts, line_number, original_line }
    }
}

} // verus!
