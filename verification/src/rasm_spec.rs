//! The mathematical specification of the assembler: a pure function from
//! source text to either the emitted byte stream or a single diagnostic.
//!
//! The pipeline follows the two-pass design.  Each source line is split
//! off its comment, upper-cased and classified; in v2 mode the immediate
//! sugar and the stack macros are expanded.  Pass one collects the
//! constant and label tables and counts code lines; pass two resolves
//! each token of each code line to one byte.

use crate::rail_state::add8;
use crate::rasm_dictionary::translate_spec;
use crate::rasm_error::RasmErrorKindView;
use crate::rasm_error::RasmErrorView;
use crate::rasm_line::LineType;
use crate::rasm_line::LineView;
use crate::rasm_line::RasmTag;
use crate::rasm_text::has_prefix;
use crate::rasm_text::has_substring;
use crate::rasm_text::pair_sep;
use crate::rasm_text::split_keep;
use crate::rasm_text::trim_spec;
use crate::rasm_text::upper_seq;
use vstd::prelude::*;

verus! {

/// Line separator.
pub open spec fn nl_sep() -> spec_fn(char) -> bool {
    pair_sep('\n', '\n')
}

/// Comment separator.
pub open spec fn hash_sep() -> spec_fn(char) -> bool {
    pair_sep('#', '#')
}

/// Token separators.
pub open spec fn token_sep() -> spec_fn(char) -> bool {
    pair_sep(' ', '\t')
}

/// Additive sub-token separator.
pub open spec fn plus_sep() -> spec_fn(char) -> bool {
    pair_sep('+', '+')
}

/// The padding token of the v2 short forms.
pub open spec fn zero_tok() -> Seq<char> {
    "0"@
}

/// Split a line at its first `#`: the part before, trimmed and
/// upper-cased, is code; the part between the first and second `#`,
/// trimmed, is the comment.
pub open spec fn extract_comment_spec(raw: Seq<char>) -> (Seq<char>, Seq<char>) {
    let parts = split_keep(raw, hash_sep());
    if parts.len() > 1 {
        (upper_seq(trim_spec(parts[0])), trim_spec(parts[1]))
    } else {
        (upper_seq(trim_spec(raw)), Seq::empty())
    }
}

/// Each segment trimmed, empty segments dropped.
pub open spec fn trim_nonempty(parts: Seq<Seq<char>>) -> Seq<Seq<char>>
    decreases parts.len(),
{
    if parts.len() == 0 {
        Seq::empty()
    } else {
        let t = trim_spec(parts[0]);
        let rest = trim_nonempty(parts.drop_first());
        if t.len() == 0 {
            rest
        } else {
            seq![t] + rest
        }
    }
}

/// The whitespace-separated tokens of a code line.
pub open spec fn tokens_of(s: Seq<char>) -> Seq<Seq<char>> {
    trim_nonempty(split_keep(s, token_sep()))
}

/// Expansion of the v2 short mnemonic forms and stack macros.  The first
/// component is the (possibly re-padded) main token list, the second the
/// token lists of extra lines produced by a macro.
pub open spec fn preprocess_expand_spec(parts: Seq<Seq<char>>) -> (
    Seq<Seq<char>>,
    Seq<Seq<Seq<char>>>,
) {
    let op = parts[0];
    if has_substring(op, "JMP"@) {
        (
            if parts.len() == 2 {
                seq![parts[0], zero_tok(), zero_tok(), parts[1]]
            } else {
                parts
            },
            Seq::empty(),
        )
    } else if has_substring(op, "MOV"@) {
        (
            if parts.len() == 3 {
                seq![parts[0], parts[1], zero_tok(), parts[2]]
            } else {
                parts
            },
            Seq::empty(),
        )
    } else if has_substring(op, "NOOP"@) {
        (
            if parts.len() == 1 {
                seq![parts[0], zero_tok(), zero_tok(), zero_tok()]
            } else {
                parts
            },
            Seq::empty(),
        )
    } else if has_substring(op, "CALL"@) {
        (
            if parts.len() == 2 {
                seq![parts[0], parts[1], zero_tok(), zero_tok()]
            } else {
                parts
            },
            Seq::empty(),
        )
    } else if has_substring(op, "RET"@) {
        (
            if parts.len() == 1 {
                seq![parts[0], zero_tok(), zero_tok(), zero_tok()]
            } else {
                parts
            },
            Seq::empty(),
        )
    } else if has_substring(op, "S_POP"@) {
        (
            if parts.len() == 2 {
                seq![parts[0], zero_tok(), zero_tok(), parts[1]]
            } else {
                parts
            },
            Seq::empty(),
        )
    } else if has_substring(op, "S_PUSH"@) {
        (
            if parts.len() == 2 {
                seq![parts[0], parts[1], zero_tok(), zero_tok()]
            } else {
                parts
            },
            Seq::empty(),
        )
    } else if has_substring(op, "HALT"@) {
        (
            if parts.len() == 1 {
                seq![parts[0], zero_tok(), zero_tok(), zero_tok()]
            } else {
                parts
            },
            Seq::empty(),
        )
    } else if has_prefix(op, "!ST<"@) {
        (
            Seq::empty(),
            Seq::new(
                (parts.len() - 1) as nat,
                |i: int| seq!["S_PUSH+IM1"@, parts[i + 1], zero_tok(), zero_tok()],
            ),
        )
    } else if has_prefix(op, "!ST>"@) {
        (
            Seq::empty(),
            Seq::new(
                (parts.len() - 1) as nat,
                |i: int| seq!["S_POP"@, zero_tok(), zero_tok(), parts[parts.len() - 1 - i]],
            ),
        )
    } else {
        (parts, Seq::empty())
    }
}

/// The rebuilt opcode token and first two operands under the v2 `*`
/// immediate sugar: a leading `*` on the first or second operand is
/// stripped and `+IM1` / `+IM2` appended to the opcode token.
pub open spec fn preprocess_head(parts: Seq<Seq<char>>) -> Seq<Seq<char>> {
    let im1 = parts.len() >= 2 && has_prefix(parts[1], "*"@);
    let im2 = parts.len() >= 3 && has_prefix(parts[2], "*"@);
    let op = parts[0] + (if im1 {
        "+IM1"@
    } else {
        Seq::<char>::empty()
    }) + (if im2 {
        "+IM2"@
    } else {
        Seq::<char>::empty()
    });
    let arg1 = if parts.len() >= 2 {
        seq![if im1 { parts[1].skip(1) } else { parts[1] }]
    } else {
        Seq::<Seq<char>>::empty()
    };
    let arg2 = if parts.len() >= 3 {
        seq![if im2 { parts[2].skip(1) } else { parts[2] }]
    } else {
        Seq::<Seq<char>>::empty()
    };
    seq![op] + arg1 + arg2
}

/// The whole token list rebuilt under the v2 `*` immediate sugar.
pub open spec fn preprocess_full(parts: Seq<Seq<char>>) -> Seq<Seq<char>> {
    preprocess_head(parts) + (if parts.len() >= 3 {
        parts.skip(3)
    } else {
        Seq::<Seq<char>>::empty()
    })
}

/// The v2 `*` immediate sugar, then expansion of the short forms.
pub open spec fn preprocess_parts_spec(parts: Seq<Seq<char>>) -> (
    Seq<Seq<char>>,
    Seq<Seq<Seq<char>>>,
) {
    if parts.len() == 0 {
        (Seq::empty(), Seq::empty())
    } else {
        preprocess_expand_spec(preprocess_full(parts))
    }
}

/// A code line carrying the given token list.
pub open spec fn code_line_view(
    parts: Seq<Seq<char>>,
    comment: Seq<char>,
    number: u32,
    raw: Seq<char>,
) -> LineView {
    LineView {
        comment,
        tag_type: RasmTag::Untagged,
        line_type: LineType::Code,
        tags: Seq::empty(),
        code_parts: parts,
        line_number: number,
        original_line: raw,
    }
}

/// The classified lines produced by one raw source line, and the v2 flag
/// for the remainder of the file.
#[verifier::ext_equal]
pub struct ParseOut {
    pub lines: Seq<LineView>,
    pub is_v2: bool,
}

/// Classify one raw source line.
pub open spec fn parse_line_spec(raw: Seq<char>, number: u32, is_v2: bool) -> Result<
    ParseOut,
    RasmErrorView,
> {
    let (code, comment) = extract_comment_spec(raw);
    if code.len() == 0 {
        Ok(
            ParseOut {
                lines: seq![
                    LineView {
                        comment,
                        tag_type: RasmTag::Untagged,
                        line_type: LineType::Empty,
                        tags: Seq::empty(),
                        code_parts: Seq::empty(),
                        line_number: number,
                        original_line: raw,
                    },
                ],
                is_v2: is_v2 || has_substring(comment, "&rail-asm-v2"@),
            },
        )
    } else if has_prefix(code, "LABEL"@) {
        let parts = tokens_of(code);
        if parts.len() < 2 {
            Err(
                RasmErrorView {
                    line_number: number,
                    line: raw,
                    kind: RasmErrorKindView::TruncatedDirective,
                },
            )
        } else {
            Ok(
                ParseOut {
                    lines: seq![
                        LineView {
                            comment,
                            tag_type: RasmTag::Label,
                            line_type: LineType::Tag,
                            tags: seq![parts[1]],
                            code_parts: Seq::empty(),
                            line_number: number,
                            original_line: raw,
                        },
                    ],
                    is_v2,
                },
            )
        }
    } else if has_prefix(code, "CONST"@) {
        let parts = tokens_of(code);
        if parts.len() < 3 {
            Err(
                RasmErrorView {
                    line_number: number,
                    line: raw,
                    kind: RasmErrorKindView::TruncatedDirective,
                },
            )
        } else {
            Ok(
                ParseOut {
                    lines: seq![
                        LineView {
                            comment,
                            tag_type: RasmTag::Const,
                            line_type: LineType::Tag,
                            tags: seq![parts[1], parts[2]],
                            code_parts: Seq::empty(),
                            line_number: number,
                            original_line: raw,
                        },
                    ],
                    is_v2,
                },
            )
        }
    } else {
        let parts = tokens_of(code);
        let pre = if is_v2 {
            preprocess_parts_spec(parts)
        } else {
            (parts, Seq::<Seq<Seq<char>>>::empty())
        };
        let main_lines: Seq<LineView> = if pre.0.len() > 0 {
            seq![code_line_view(pre.0, comment, number, raw)]
        } else {
            Seq::<LineView>::empty()
        };
        let extra_lines: Seq<LineView> = pre.1.map_values(
            |ps: Seq<Seq<char>>| code_line_view(ps, comment, number, raw),
        );
        Ok(ParseOut { lines: main_lines + extra_lines, is_v2 })
    }
}

/// 32-bit wrapping increment of a line counter.
pub open spec fn wrap_inc(n: u32) -> u32 {
    ((n + 1) % 0x100000000) as u32
}

/// Classify every raw line, numbering them from `number` and threading
/// the v2 flag.
pub open spec fn parse_lines_spec(raws: Seq<Seq<char>>, number: u32, is_v2: bool) -> Result<
    Seq<LineView>,
    RasmErrorView,
>
    decreases raws.len(),
{
    if raws.len() == 0 {
        Ok(Seq::empty())
    } else {
        match parse_line_spec(raws[0], number, is_v2) {
            Err(e) => Err(e),
            Ok(po) => match parse_lines_spec(raws.drop_first(), wrap_inc(number), po.is_v2) {
                Err(e) => Err(e),
                Ok(rest) => Ok(po.lines + rest),
            },
        }
    }
}

/// Whether the association list binds the key.
pub open spec fn assoc_has_k<V>(m: Seq<(Seq<char>, V)>, k: Seq<char>) -> bool {
    exists|i: int| 0 <= i < m.len() && (#[trigger] m[i]).0 == k
}

/// The most recent binding of the key.
pub open spec fn assoc_get<V>(m: Seq<(Seq<char>, V)>, k: Seq<char>) -> V
    decreases m.len(),
{
    if m.len() == 0 {
        vstd::pervasive::arbitrary()
    } else if m.last().0 == k {
        m.last().1
    } else {
        assoc_get(m.drop_last(), k)
    }
}

/// The label address of the `n`-th code line: four bytes per instruction,
/// wrapping at the end of the 256-byte address space.
pub open spec fn wrap_addr(count: int) -> u8 {
    ((count % 64) * 4) as u8
}

/// The symbol tables and code lines accumulated by pass one.
#[verifier::ext_equal]
pub struct Pass1 {
    pub consts: Seq<(Seq<char>, Seq<char>)>,
    pub labels: Seq<(Seq<char>, u8)>,
    pub code_lines: Seq<LineView>,
    pub code_count: int,
}

pub open spec fn pass1_init() -> Pass1 {
    Pass1 { consts: Seq::empty(), labels: Seq::empty(), code_lines: Seq::empty(), code_count: 0 }
}

/// Pass one over a single classified line.
pub open spec fn pass1_step(st: Pass1, line: LineView) -> Result<Pass1, RasmErrorView> {
    match line.line_type {
        LineType::Empty => Ok(st),
        LineType::Tag => match line.tag_type {
            RasmTag::Const => Ok(
                Pass1 { consts: st.consts.push((line.tags[0], line.tags[1])), ..st },
            ),
            RasmTag::Label => if assoc_has_k(st.labels, line.tags[0]) {
                Err(
                    RasmErrorView {
                        line_number: line.line_number,
                        line: line.original_line,
                        kind: RasmErrorKindView::DuplicateLabel(line.tags[0]),
                    },
                )
            } else {
                Ok(
                    Pass1 {
                        labels: st.labels.push((line.tags[0], wrap_addr(st.code_count))),
                        ..st
                    },
                )
            },
            RasmTag::Untagged => Ok(st),
        },
        LineType::Code => Ok(
            Pass1 {
                code_lines: st.code_lines.push(line),
                code_count: st.code_count + 1,
                ..st
            },
        ),
    }
}

/// Pass one over all classified lines.
pub open spec fn pass1_spec(lines: Seq<LineView>, st: Pass1) -> Result<Pass1, RasmErrorView>
    decreases lines.len(),
{
    if lines.len() == 0 {
        Ok(st)
    } else {
        match pass1_step(st, lines[0]) {
            Err(e) => Err(e),
            Ok(st2) => pass1_spec(lines.drop_first(), st2),
        }
    }
}

/// Chase constant replacements until the token is no longer bound, with
/// at most `fuel` replacements; a chain longer than the table is cyclic.
pub open spec fn chase_spec(
    consts: Seq<(Seq<char>, Seq<char>)>,
    tok: Seq<char>,
    fuel: nat,
) -> Option<Seq<char>>
    decreases fuel,
{
    if !assoc_has_k(consts, tok) {
        Some(tok)
    } else if fuel == 0 {
        Option::None
    } else {
        chase_spec(consts, assoc_get(consts, tok), (fuel - 1) as nat)
    }
}

/// The numeric value of a digit character under the given radix; tokens
/// are upper-case, so only `0`-`9` and `A`-`F` occur.
pub open spec fn digit_val(c: char, radix: u8) -> Option<u8> {
    let u = c as u32;
    if 48 <= u && u <= 57 {
        if ((u - 48) as u8) < radix {
            Some((u - 48) as u8)
        } else {
            Option::None
        }
    } else if 65 <= u && u <= 70 {
        if ((u - 55) as u8) < radix {
            Some((u - 55) as u8)
        } else {
            Option::None
        }
    } else {
        Option::None
    }
}

/// Accumulate digits left to right; `None` on an invalid digit or a
/// value over 8 bits.
pub open spec fn parse_digits_rec(s: Seq<char>, radix: u8, acc: u8) -> Option<u8>
    decreases s.len(),
{
    if s.len() == 0 {
        Some(acc)
    } else {
        match digit_val(s[0], radix) {
            Option::None => Option::None,
            Some(d) => if acc * radix + d > 255 {
                Option::None
            } else {
                parse_digits_rec(s.skip(1), radix, (acc * radix + d) as u8)
            },
        }
    }
}

/// The value of a non-empty digit string under the given radix.
pub open spec fn parse_digits(s: Seq<char>, radix: u8) -> Option<u8> {
    if s.len() == 0 {
        Option::None
    } else {
        parse_digits_rec(s, radix, 0)
    }
}

pub open spec fn all_decimal(s: Seq<char>) -> bool {
    forall|i: int| 0 <= i < s.len() ==> (#[trigger] digit_val(s[i], 10)) is Some
}

/// A numeric literal: `0X` hex, `0O` octal, `0B` binary, otherwise
/// decimal.  A prefixed token with bad digits or a value over 8 bits is a
/// malformed literal; a token that is no literal at all is an unknown
/// symbol.
pub open spec fn decode_num_spec(s: Seq<char>) -> Result<u8, RasmErrorKindView> {
    if has_prefix(s, "0X"@) {
        match parse_digits(s.skip(2), 16) {
            Some(v) => Ok(v),
            Option::None => Err(RasmErrorKindView::MalformedLiteral(s)),
        }
    } else if has_prefix(s, "0O"@) {
        match parse_digits(s.skip(2), 8) {
            Some(v) => Ok(v),
            Option::None => Err(RasmErrorKindView::MalformedLiteral(s)),
        }
    } else if has_prefix(s, "0B"@) {
        match parse_digits(s.skip(2), 2) {
            Some(v) => Ok(v),
            Option::None => Err(RasmErrorKindView::MalformedLiteral(s)),
        }
    } else if s.len() > 0 && all_decimal(s) {
        match parse_digits(s, 10) {
            Some(v) => Ok(v),
            Option::None => Err(RasmErrorKindView::MalformedLiteral(s)),
        }
    } else {
        Err(RasmErrorKindView::UnknownSymbol(s))
    }
}

/// Resolve one additive sub-token: chase constants, then try labels, the
/// dictionary, and numeric literals, in that order.
pub open spec fn resolve_sub_spec(
    consts: Seq<(Seq<char>, Seq<char>)>,
    labels: Seq<(Seq<char>, u8)>,
    sub: Seq<char>,
) -> Result<u8, RasmErrorKindView> {
    match chase_spec(consts, sub, consts.len()) {
        Option::None => Err(RasmErrorKindView::ConstantCycle(sub)),
        Some(stable) => if assoc_has_k(labels, stable) {
            Ok(assoc_get(labels, stable))
        } else {
            match translate_spec(stable) {
                Some(v) => Ok(v),
                Option::None => decode_num_spec(stable),
            }
        },
    }
}

/// Sum the resolved sub-tokens with 8-bit wrapping.
pub open spec fn resolve_token_rec(
    consts: Seq<(Seq<char>, Seq<char>)>,
    labels: Seq<(Seq<char>, u8)>,
    subs: Seq<Seq<char>>,
    acc: u8,
) -> Result<u8, RasmErrorKindView>
    decreases subs.len(),
{
    if subs.len() == 0 {
        Ok(acc)
    } else {
        match resolve_sub_spec(consts, labels, subs[0]) {
            Err(e) => Err(e),
            Ok(v) => resolve_token_rec(consts, labels, subs.drop_first(), add8(acc, v)),
        }
    }
}

/// The byte value of one token: split on `+`, resolve each sub-token and
/// sum with 8-bit wrapping (this is how `ADD+IM2` composes to `0x40`).
pub open spec fn resolve_token_spec(
    consts: Seq<(Seq<char>, Seq<char>)>,
    labels: Seq<(Seq<char>, u8)>,
    tok: Seq<char>,
) -> Result<u8, RasmErrorKindView> {
    resolve_token_rec(consts, labels, split_keep(tok, plus_sep()), 0)
}

/// The bytes of one code line: one byte per token, in order.
pub open spec fn emit_tokens(
    consts: Seq<(Seq<char>, Seq<char>)>,
    labels: Seq<(Seq<char>, u8)>,
    toks: Seq<Seq<char>>,
) -> Result<Seq<u8>, RasmErrorKindView>
    decreases toks.len(),
{
    if toks.len() == 0 {
        Ok(Seq::empty())
    } else {
        match resolve_token_spec(consts, labels, toks[0]) {
            Err(e) => Err(e),
            Ok(b) => match emit_tokens(consts, labels, toks.drop_first()) {
                Err(e) => Err(e),
                Ok(rest) => Ok(seq![b] + rest),
            },
        }
    }
}

/// Pass two: the bytes of all code lines, in order; the first failing
/// token aborts with a diagnostic citing its line.
pub open spec fn pass2_spec(
    consts: Seq<(Seq<char>, Seq<char>)>,
    labels: Seq<(Seq<char>, u8)>,
    code_lines: Seq<LineView>,
) -> Result<Seq<u8>, RasmErrorView>
    decreases code_lines.len(),
{
    if code_lines.len() == 0 {
        Ok(Seq::empty())
    } else {
        match emit_tokens(consts, labels, code_lines[0].code_parts) {
            Err(k) => Err(
                RasmErrorView {
                    line_number: code_lines[0].line_number,
                    line: code_lines[0].original_line,
                    kind: k,
                },
            ),
            Ok(bs) => match pass2_spec(consts, labels, code_lines.drop_first()) {
                Err(e) => Err(e),
                Ok(rest) => Ok(bs + rest),
            },
        }
    }
}

/// Both passes over the classified lines.
pub open spec fn process_lines_spec(lines: Seq<LineView>) -> Result<Seq<u8>, RasmErrorView> {
    match pass1_spec(lines, pass1_init()) {
        Err(e) => Err(e),
        Ok(st) => pass2_spec(st.consts, st.labels, st.code_lines),
    }
}

/// The assembler: split the source into lines, classify them, and run
/// the two passes.  Either a complete byte stream or a single diagnostic.
pub open spec fn assemble_spec(src: Seq<char>) -> Result<Seq<u8>, RasmErrorView> {
    match parse_lines_spec(split_keep(src, nl_sep()), 1, false) {
        Err(e) => Err(e),
        Ok(lines) => process_lines_spec(lines),
    }
}

/// Tag lines carry the operands their directive needs: one name for
/// `LABEL`, a name and a replacement for `CONST`.  Every line produced
/// by classification satisfies this.
pub open spec fn line_tags_wf(ls: Seq<LineView>) -> bool {
    forall|i: int|
        0 <= i < ls.len() ==> {
            let l = #[trigger] ls[i];
            &&& (l.line_type == LineType::Tag && l.tag_type == RasmTag::Label ==> l.tags.len()
                >= 1)
            &&& (l.line_type == LineType::Tag && l.tag_type == RasmTag::Const ==> l.tags.len()
                >= 2)
        }
}

/// The token structure of a classified line: everything emission may
/// depend on — classification, directive, operands and code tokens — and
/// nothing of the surrounding text.
pub open spec fn line_key(l: LineView) -> (LineType, RasmTag, Seq<Seq<char>>, Seq<Seq<char>>) {
    (l.line_type, l.tag_type, l.tags, l.code_parts)
}

/// The key projection as a function value, for mapping over line lists.
pub open spec fn line_key_fn() -> spec_fn(LineView) -> (
    LineType,
    RasmTag,
    Seq<Seq<char>>,
    Seq<Seq<char>>,
) {
    |l: LineView| line_key(l)
}

proof fn lemma_key_map_basics(ls1: Seq<LineView>, ls2: Seq<LineView>)
    requires
        ls1.map_values(line_key_fn()) == ls2.map_values(line_key_fn()),
    ensures
        ls1.len() == ls2.len(),
        forall|i: int| 0 <= i < ls1.len() ==> line_key(#[trigger] ls1[i]) == line_key(ls2[i]),
{
    assert(ls1.map_values(line_key_fn()).len() == ls1.len());
    assert(ls2.map_values(line_key_fn()).len() == ls2.len());
    assert forall|i: int| 0 <= i < ls1.len() implies line_key(#[trigger] ls1[i]) == line_key(
        ls2[i],
    ) by {
        assert(ls1.map_values(line_key_fn())[i] == line_key_fn()(ls1[i]));
        assert(ls2.map_values(line_key_fn())[i] == line_key_fn()(ls2[i]));
    }
}

proof fn lemma_key_map_drop_first(ls1: Seq<LineView>, ls2: Seq<LineView>)
    requires
        ls1.map_values(line_key_fn()) == ls2.map_values(line_key_fn()),
        ls1.len() > 0,
    ensures
        ls1.drop_first().map_values(line_key_fn()) == ls2.drop_first().map_values(line_key_fn()),
{
    lemma_key_map_basics(ls1, ls2);
    assert forall|i: int|
        0 <= i < ls1.drop_first().len() implies ls1.drop_first().map_values(line_key_fn())[i]
        == ls2.drop_first().map_values(line_key_fn())[i] by {
        assert(ls1.drop_first()[i] == ls1[i + 1]);
        assert(ls2.drop_first()[i] == ls2[i + 1]);
    }
    assert(ls1.drop_first().map_values(line_key_fn()) =~= ls2.drop_first().map_values(
        line_key_fn(),
    ));
}

/// Pass one reads only the token structure: over two line lists with the
/// same keys, it fails together or succeeds with tables and counters
/// equal and code lines with the same keys.
proof fn lemma_pass1_keys(ls1: Seq<LineView>, ls2: Seq<LineView>, st1: Pass1, st2: Pass1)
    requires
        ls1.map_values(line_key_fn()) == ls2.map_values(line_key_fn()),
        st1.consts == st2.consts,
        st1.labels == st2.labels,
        st1.code_count == st2.code_count,
        st1.code_lines.map_values(line_key_fn()) == st2.code_lines.map_values(line_key_fn()),
    ensures
        pass1_spec(ls1, st1) is Ok <==> pass1_spec(ls2, st2) is Ok,
        pass1_spec(ls1, st1) is Ok ==> {
            let r1 = pass1_spec(ls1, st1)->Ok_0;
            let r2 = pass1_spec(ls2, st2)->Ok_0;
            &&& r1.consts == r2.consts
            &&& r1.labels == r2.labels
            &&& r1.code_count == r2.code_count
            &&& r1.code_lines.map_values(line_key_fn())
                == r2.code_lines.map_values(line_key_fn())
        },
    decreases ls1.len(),
{
    lemma_key_map_basics(ls1, ls2);
    if ls1.len() == 0 {
    } else {
        assert(line_key(ls1[0]) == line_key(ls2[0]));
        let s1 = pass1_step(st1, ls1[0]);
        let s2 = pass1_step(st2, ls2[0]);
        assert(s1 is Ok <==> s2 is Ok);
        if s1 is Ok {
            let n1 = s1->Ok_0;
            let n2 = s2->Ok_0;
            let m1 = n1.code_lines.map_values(line_key_fn());
            let m2 = n2.code_lines.map_values(line_key_fn());
            assert(m1.len() == n1.code_lines.len());
            assert(m2.len() == n2.code_lines.len());
            assert(st1.code_lines.map_values(line_key_fn()).len() == st1.code_lines.len());
            assert(st2.code_lines.map_values(line_key_fn()).len() == st2.code_lines.len());
            assert forall|i: int| 0 <= i < n1.code_lines.len() implies m1[i] == m2[i] by {
                assert(m1[i] == line_key_fn()(n1.code_lines[i]));
                assert(m2[i] == line_key_fn()(n2.code_lines[i]));
                if i < st1.code_lines.len() {
                    assert(st1.code_lines.map_values(line_key_fn())[i] == line_key_fn()(
                        st1.code_lines[i],
                    ));
                    assert(st2.code_lines.map_values(line_key_fn())[i] == line_key_fn()(
                        st2.code_lines[i],
                    ));
                }
            }
            assert(m1 =~= m2);
            lemma_key_map_drop_first(ls1, ls2);
            lemma_pass1_keys(ls1.drop_first(), ls2.drop_first(), n1, n2);
        }
    }
}

/// Pass two reads only the code tokens: over two code-line lists with
/// the same keys it fails together or emits the same bytes.
proof fn lemma_pass2_keys(
    consts: Seq<(Seq<char>, Seq<char>)>,
    labels: Seq<(Seq<char>, u8)>,
    cls1: Seq<LineView>,
    cls2: Seq<LineView>,
)
    requires
        cls1.map_values(line_key_fn()) == cls2.map_values(line_key_fn()),
    ensures
        pass2_spec(consts, labels, cls1) is Ok <==> pass2_spec(consts, labels, cls2) is Ok,
        pass2_spec(consts, labels, cls1) is Ok ==> pass2_spec(consts, labels, cls1)->Ok_0
            == pass2_spec(consts, labels, cls2)->Ok_0,
    decreases cls1.len(),
{
    lemma_key_map_basics(cls1, cls2);
    if cls1.len() == 0 {
    } else {
        assert(cls1[0].code_parts == cls2[0].code_parts);
        lemma_key_map_drop_first(cls1, cls2);
        lemma_pass2_keys(consts, labels, cls1.drop_first(), cls2.drop_first());
    }
}

/// The emitted byte stream depends only on the token structure of the
/// classified lines, never on comments, original text or line numbers:
/// two classified sources with the same structure assemble to the same
/// bytes, and one fails exactly when the other does.
pub proof fn lemma_bytes_from_token_structure(ls1: Seq<LineView>, ls2: Seq<LineView>)
    requires
        ls1.map_values(line_key_fn()) == ls2.map_values(line_key_fn()),
    ensures
        process_lines_spec(ls1) is Ok <==> process_lines_spec(ls2) is Ok,
        process_lines_spec(ls1) is Ok ==> process_lines_spec(ls1)->Ok_0 == process_lines_spec(
            ls2,
        )->Ok_0,
{
    assert(pass1_init().code_lines.map_values(line_key_fn())
        =~= pass1_init().code_lines.map_values(line_key_fn()));
    lemma_pass1_keys(ls1, ls2, pass1_init(), pass1_init());
    if pass1_spec(ls1, pass1_init()) is Ok {
        let r1 = pass1_spec(ls1, pass1_init())->Ok_0;
        let r2 = pass1_spec(ls2, pass1_init())->Ok_0;
        lemma_pass2_keys(r1.consts, r1.labels, r1.code_lines, r2.code_lines);
    }
}

/// Immediate flags (and any other sub-tokens) compose additively: a
/// token written `a+b`, where neither part contains a `+`, resolves to
/// the 8-bit wrapping sum of the two parts' values whenever both parts
/// resolve.  This is how `ADD+IM2` encodes `0x40` and `ADD+IM1+IM2`
/// encodes `0xC0`.
pub proof fn lemma_immediate_flags_additive(
    consts: Seq<(Seq<char>, Seq<char>)>,
    labels: Seq<(Seq<char>, u8)>,
    a: Seq<char>,
    b: Seq<char>,
)
    requires
        forall|i: int| 0 <= i < a.len() ==> a[i] != '+',
        forall|i: int| 0 <= i < b.len() ==> b[i] != '+',
        resolve_sub_spec(consts, labels, a) is Ok,
        resolve_sub_spec(consts, labels, b) is Ok,
    ensures
        resolve_token_spec(consts, labels, a + seq!['+'] + b) == Result::<
            u8,
            RasmErrorKindView,
        >::Ok(
            add8(
                resolve_sub_spec(consts, labels, a)->Ok_0,
                resolve_sub_spec(consts, labels, b)->Ok_0,
            ),
        ),
{
    let t = a + seq!['+'] + b;
    let sep = plus_sep();
    assert(t.len() == a.len() + 1 + b.len());
    assert forall|i: int| 0 <= i < a.len() implies !sep(t[i]) by {
        assert(t[i] == a[i]);
    }
    assert(t[a.len() as int] == '+');
    crate::rasm_text::lemma_split_keep_step(t, sep, a.len() as int);
    assert(t.take(a.len() as int) =~= a);
    assert(t.skip(a.len() as int + 1) =~= b);
    crate::rasm_text::lemma_split_keep_whole(b, sep);
    let subs = split_keep(t, sep);
    assert(subs =~= seq![a, b]);
    let va = resolve_sub_spec(consts, labels, a)->Ok_0;
    let vb = resolve_sub_spec(consts, labels, b)->Ok_0;
    assert(seq![a, b].drop_first() =~= seq![b]);
    assert(seq![b].drop_first() =~= Seq::<Seq<char>>::empty());
    assert(add8(0, va) == va);
    assert(resolve_token_rec(consts, labels, Seq::<Seq<char>>::empty(), add8(va, vb))
        == Result::<u8, RasmErrorKindView>::Ok(add8(va, vb)));
    assert(resolve_token_rec(consts, labels, seq![b], va) == Result::<
        u8,
        RasmErrorKindView,
    >::Ok(add8(va, vb)));
}

} // verus!
