//! The executable two-pass assembler, proved to emit exactly the bytes
//! of [`assemble_spec`].
//!
//! Pass one walks the classified lines, collecting the constant and
//! label tables and counting code lines for label addresses.  Pass two
//! resolves each token of each code line to one byte: split on `+`,
//! chase constant replacements, then try labels, the dictionary and
//! numeric literals, and sum with 8-bit wrapping.

use crate::rasm_dictionary::translate_chars;
use crate::rasm_error::RasmError;
use crate::rasm_error::RasmErrorKind;
use crate::rasm_line::LineType;
use crate::rasm_line::LineView;
use crate::rasm_line::RasmLine;
use crate::rasm_line::RasmTag;
use crate::rasm_spec::all_decimal;
use crate::rasm_spec::assemble_spec;
use crate::rasm_spec::assoc_get;
use crate::rasm_spec::assoc_has_k;
use crate::rasm_spec::chase_spec;
use crate::rasm_spec::code_line_view;
use crate::rasm_spec::decode_num_spec;
use crate::rasm_spec::digit_val;
use crate::rasm_spec::emit_tokens;
use crate::rasm_spec::extract_comment_spec;
use crate::rasm_spec::nl_sep;
use crate::rasm_spec::parse_digits;
use crate::rasm_spec::parse_digits_rec;
use crate::rasm_spec::parse_line_spec;
use crate::rasm_spec::parse_lines_spec;
use crate::rasm_spec::pass1_init;
use crate::rasm_spec::pass1_spec;
use crate::rasm_spec::pass1_step;
use crate::rasm_spec::pass2_spec;
use crate::rasm_spec::preprocess_expand_spec;
use crate::rasm_spec::preprocess_full;
use crate::rasm_spec::preprocess_head;
use crate::rasm_spec::preprocess_parts_spec;
use crate::rasm_spec::process_lines_spec;
use crate::rasm_spec::resolve_sub_spec;
use crate::rasm_spec::resolve_token_rec;
use crate::rasm_spec::resolve_token_spec;
use crate::rasm_spec::tokens_of;
use crate::rasm_spec::trim_nonempty;
use crate::rasm_spec::wrap_addr;
use crate::rasm_spec::zero_tok;
use crate::rasm_spec::wrap_inc;
use crate::rasm_spec::ParseOut;
use crate::rasm_spec::Pass1;
use crate::rasm_text::append_str;
use crate::rasm_text::chars_eq;
use crate::rasm_text::contains_str;
use crate::rasm_text::copy_chars;
use crate::rasm_text::split_keep;
use crate::rasm_text::split_pair;
use crate::rasm_text::starts_with_str;
use crate::rasm_text::str_to_chars;
use crate::rasm_text::tail_chars;
use crate::rasm_text::to_upper;
use crate::rasm_text::trim;
use crate::rasm_text::views_of;
use vstd::prelude::*;

verus! {

/// The views of a constant table.
pub open spec fn consts_view(m: Seq<(Vec<char>, Vec<char>)>) -> Seq<(Seq<char>, Seq<char>)> {
    m.map_values(|p: (Vec<char>, Vec<char>)| (p.0@, p.1@))
}

/// The views of a label table.
pub open spec fn labels_view(m: Seq<(Vec<char>, u8)>) -> Seq<(Seq<char>, u8)> {
    m.map_values(|p: (Vec<char>, u8)| (p.0@, p.1))
}

/// The views of a sequence of classified lines.
pub open spec fn lines_views(ls: Seq<RasmLine>) -> Seq<LineView> {
    ls.map_values(|l: RasmLine| l@)
}

/// The views of a sequence of token lists.
pub open spec fn views3_of(vs: Seq<Vec<Vec<char>>>) -> Seq<Seq<Seq<char>>> {
    vs.map_values(|v: Vec<Vec<char>>| views_of(v@))
}

/// Keys absent from the tail of an association list do not change what
/// the whole list binds.
proof fn lemma_assoc_prefix<V>(m: Seq<(Seq<char>, V)>, k: Seq<char>, i: int)
    requires
        0 <= i <= m.len(),
        forall|j: int| i <= j < m.len() ==> (#[trigger] m[j]).0 != k,
    ensures
        assoc_has_k(m, k) == assoc_has_k(m.take(i), k),
        assoc_has_k(m, k) ==> assoc_get(m, k) == assoc_get(m.take(i), k),
    decreases m.len() - i,
{
    if i == m.len() {
        assert(m.take(i) =~= m);
    } else {
        lemma_assoc_prefix(m, k, i + 1);
        assert(m.take(i + 1).drop_last() =~= m.take(i));
        if assoc_has_k(m.take(i), k) {
            let w = choose|j: int| 0 <= j < m.take(i).len() && (#[trigger] m.take(i)[j]).0 == k;
            assert(m.take(i + 1)[w].0 == k);
        }
        if assoc_has_k(m.take(i + 1), k) {
            let w = choose|j: int|
                0 <= j < m.take(i + 1).len() && (#[trigger] m.take(i + 1)[j]).0 == k;
            assert(m[w].0 == k);
        }
    }
}

/// Look a key up in the constant table; the most recent binding wins.
fn const_lookup(m: &Vec<(Vec<char>, Vec<char>)>, k: &Vec<char>) -> (r: Option<Vec<char>>)
    ensures
        match r {
            Some(v) => assoc_has_k(consts_view(m@), k@) && v@ == assoc_get(consts_view(m@), k@),
            None => !assoc_has_k(consts_view(m@), k@),
        },
{
    let ghost mv = consts_view(m@);
    let mut i: usize = m.len();
    while i > 0
        invariant
            0 <= i <= m@.len(),
            mv == consts_view(m@),
            mv.len() == m@.len(),
            forall|j: int| i <= j < mv.len() ==> (#[trigger] mv[j]).0 != k@,
        decreases i,
    {
        i -= 1;
        if chars_eq(&m[i].0, k) {
            proof {
                lemma_assoc_prefix(mv, k@, i + 1);
                assert(mv.take(i + 1).last() == mv[i as int]);
                assert(assoc_has_k(mv.take(i + 1), k@));
                assert(assoc_get(mv.take(i + 1), k@) == mv[i as int].1);
            }
            return Some(copy_chars(&m[i].1));
        }
    }
    proof {
        lemma_assoc_prefix(mv, k@, 0);
        assert(mv.take(0) =~= Seq::<(Seq<char>, Seq<char>)>::empty());
    }
    None
}

/// Look a key up in the label table; the most recent binding wins.
fn label_lookup(m: &Vec<(Vec<char>, u8)>, k: &Vec<char>) -> (r: Option<u8>)
    ensures
        match r {
            Some(v) => assoc_has_k(labels_view(m@), k@) && v == assoc_get(labels_view(m@), k@),
            None => !assoc_has_k(labels_view(m@), k@),
        },
{
    let ghost mv = labels_view(m@);
    let mut i: usize = m.len();
    while i > 0
        invariant
            0 <= i <= m@.len(),
            mv == labels_view(m@),
            mv.len() == m@.len(),
            forall|j: int| i <= j < mv.len() ==> (#[trigger] mv[j]).0 != k@,
        decreases i,
    {
        i -= 1;
        if chars_eq(&m[i].0, k) {
            proof {
                lemma_assoc_prefix(mv, k@, i + 1);
                assert(mv.take(i + 1).last() == mv[i as int]);
                assert(assoc_has_k(mv.take(i + 1), k@));
                assert(assoc_get(mv.take(i + 1), k@) == mv[i as int].1);
            }
            return Some(m[i].1);
        }
    }
    proof {
        lemma_assoc_prefix(mv, k@, 0);
        assert(mv.take(0) =~= Seq::<(Seq<char>, u8)>::empty());
    }
    None
}

/// The numeric value of a digit character under the given radix.
fn digit_value(c: char, radix: u8) -> (r: Option<u8>)
    ensures
        r == digit_val(c, radix),
{
    let u = c as u32;
    if 48 <= u && u <= 57 {
        let d = (u - 48) as u8;
        if d < radix {
            Some(d)
        } else {
            None
        }
    } else if 65 <= u && u <= 70 {
        let d = (u - 55) as u8;
        if d < radix {
            Some(d)
        } else {
            None
        }
    } else {
        None
    }
}

/// Parse the digits of `s` from `start` on under the given radix.
fn parse_radix(s: &Vec<char>, start: usize, radix: u8) -> (r: Option<u8>)
    requires
        start <= s@.len(),
        2 <= radix <= 16,
    ensures
        r == parse_digits(s@.skip(start as int), radix),
{
    if s.len() == start {
        proof {
            assert(s@.skip(start as int).len() == 0);
        }
        return None;
    }
    let mut acc: u8 = 0;
    let mut i: usize = start;
    while i < s.len()
        invariant
            start <= i <= s@.len(),
            2 <= radix <= 16,
            parse_digits_rec(s@.skip(start as int), radix, 0) == parse_digits_rec(
                s@.skip(i as int),
                radix,
                acc,
            ),
        decreases s@.len() - i,
    {
        proof {
            assert(s@.skip(i as int)[0] == s@[i as int]);
            assert(s@.skip(i as int).skip(1) =~= s@.skip(i + 1));
        }
        match digit_value(s[i], radix) {
            None => {
                return None;
            },
            Some(d) => {
                proof {
                    assert(acc as int * radix as int <= 255 * 16) by (nonlinear_arith)
                        requires
                            acc <= 255,
                            radix <= 16,
                    ;
                }
                let t = acc as u16 * radix as u16 + d as u16;
                if t > 255 {
                    return None;
                }
                acc = t as u8;
            },
        }
        i += 1;
    }
    proof {
        assert(s@.skip(s@.len() as int).len() == 0);
    }
    Some(acc)
}

/// Whether every character of `s` is a decimal digit.
fn check_all_decimal(s: &Vec<char>) -> (r: bool)
    ensures
        r == all_decimal(s@),
{
    let mut i: usize = 0;
    while i < s.len()
        invariant
            0 <= i <= s@.len(),
            forall|j: int| 0 <= j < i ==> (#[trigger] digit_val(s@[j], 10)) is Some,
        decreases s@.len() - i,
    {
        if digit_value(s[i], 10).is_none() {
            return false;
        }
        i += 1;
    }
    true
}

pub struct RailAssembler {}

/// The assembler's interface: a pure function from source text to either
/// the complete byte stream or a single diagnostic.
pub trait RailAssemblerTrait {
    fn assemble(&self, code: &str) -> (r: Result<Vec<u8>, RasmError>)
        ensures
            match r {
                Ok(bytes) => assemble_spec(code@) == Result::<
                    Seq<u8>,
                    crate::rasm_error::RasmErrorView,
                >::Ok(bytes@),
                Err(e) => assemble_spec(code@) == Result::<
                    Seq<u8>,
                    crate::rasm_error::RasmErrorView,
                >::Err(e@),
            },
    ;
}

impl RailAssemblerTrait for RailAssembler {
    fn assemble(&self, code: &str) -> (r: Result<Vec<u8>, RasmError>) {
        match self.parse_lines(code) {
            Ok(lines) => {
                proof {
                    lemma_parse_lines_wf(split_keep(code@, nl_sep()), 1, false);
                }
                self.process_lines(&lines)
            },
            Err(e) => Err(e),
        }
    }
}

impl RailAssembler {
    pub fn new() -> (r: Self)
        ensures
            r == (RailAssembler {  }),
    {
        Self {  }
    }

    /// Decode a numeric literal: `0X` hex, `0O` octal, `0B` binary,
    /// otherwise decimal.
    fn decode_num(&self, s: &Vec<char>) -> (r: Result<u8, RasmErrorKind>)
        ensures
            match r {
                Ok(v) => decode_num_spec(s@) == Result::<u8, crate::rasm_error::RasmErrorKindView>::Ok(v),
                Err(k) => decode_num_spec(s@) == Result::<
                    u8,
                    crate::rasm_error::RasmErrorKindView,
                >::Err(k@),
            },
    {
        proof {
            reveal_strlit("0X");
            reveal_strlit("0O");
            reveal_strlit("0B");
        }
        if starts_with_str(s, "0X") {
            match parse_radix(s, 2, 16) {
                Some(v) => Ok(v),
                None => Err(RasmErrorKind::MalformedLiteral(copy_chars(s))),
            }
        } else if starts_with_str(s, "0O") {
            match parse_radix(s, 2, 8) {
                Some(v) => Ok(v),
                None => Err(RasmErrorKind::MalformedLiteral(copy_chars(s))),
            }
        } else if starts_with_str(s, "0B") {
            match parse_radix(s, 2, 2) {
                Some(v) => Ok(v),
                None => Err(RasmErrorKind::MalformedLiteral(copy_chars(s))),
            }
        } else if s.len() > 0 && check_all_decimal(s) {
            proof {
                assert(s@.skip(0) =~= s@);
            }
            match parse_radix(s, 0, 10) {
                Some(v) => Ok(v),
                None => Err(RasmErrorKind::MalformedLiteral(copy_chars(s))),
            }
        } else {
            Err(RasmErrorKind::UnknownSymbol(copy_chars(s)))
        }
    }

    /// Resolve one token to its byte: split on `+`, chase constants,
    /// then labels, dictionary, numeric literal; sum with wrapping.
    fn process_code(
        &self,
        code: &Vec<char>,
        consts: &Vec<(Vec<char>, Vec<char>)>,
        labels: &Vec<(Vec<char>, u8)>,
    ) -> (r: Result<u8, RasmErrorKind>)
        ensures
            match r {
                Ok(v) => resolve_token_spec(consts_view(consts@), labels_view(labels@), code@)
                    == Result::<u8, crate::rasm_error::RasmErrorKindView>::Ok(v),
                Err(k) => resolve_token_spec(consts_view(consts@), labels_view(labels@), code@)
                    == Result::<u8, crate::rasm_error::RasmErrorKindView>::Err(k@),
            },
    {
        let ghost cv = consts_view(consts@);
        let ghost lv = labels_view(labels@);
        let subs = split_pair(code, '+', '+');
        let ghost subs_v = views_of(subs@);
        proof {
            assert(subs_v.skip(0) =~= subs_v);
            assert(resolve_token_spec(cv, lv, code@) == resolve_token_rec(cv, lv, subs_v, 0));
        }
        let mut result: u8 = 0;
        let mut i: usize = 0;
        while i < subs.len()
            invariant
                0 <= i <= subs@.len(),
                subs_v == views_of(subs@),
                subs_v.len() == subs@.len(),
                cv == consts_view(consts@),
                lv == labels_view(labels@),
                resolve_token_spec(cv, lv, code@) == resolve_token_rec(cv, lv, subs_v, 0),
                resolve_token_rec(cv, lv, subs_v, 0) == resolve_token_rec(
                    cv,
                    lv,
                    subs_v.skip(i as int),
                    result,
                ),
            decreases subs@.len() - i,
        {
            proof {
                assert(subs_v.skip(i as int)[0] == subs_v[i as int]);
                assert(subs_v.skip(i as int).drop_first() =~= subs_v.skip(i + 1));
            }
            let sub = &subs[i];
            // chase constant replacements, bounded by the table size
            let mut real_code = copy_chars(sub);
            let mut fuel = consts.len();
            let mut next_opt = const_lookup(consts, &real_code);
            while next_opt.is_some()
                invariant
                    cv == consts_view(consts@),
                    lv == labels_view(labels@),
                    cv.len() == consts@.len(),
                    fuel <= cv.len(),
                    subs_v == views_of(subs@),
                    subs_v.len() == subs@.len(),
                    0 <= i < subs@.len(),
                    sub == &subs[i as int],
                    resolve_token_spec(cv, lv, code@) == resolve_token_rec(cv, lv, subs_v, 0),
                    resolve_token_rec(cv, lv, subs_v, 0) == resolve_token_rec(
                        cv,
                        lv,
                        subs_v.skip(i as int),
                        result,
                    ),
                    chase_spec(cv, subs_v[i as int], cv.len() as nat) == chase_spec(
                        cv,
                        real_code@,
                        fuel as nat,
                    ),
                    match next_opt {
                        Some(v) => assoc_has_k(cv, real_code@) && v@ == assoc_get(
                            cv,
                            real_code@,
                        ),
                        None => !assoc_has_k(cv, real_code@),
                    },
                decreases fuel,
            {
                let next = match next_opt {
                    Some(v) => v,
                    None => unreached(),
                };
                if fuel == 0 {
                    proof {
                        assert(chase_spec(cv, real_code@, 0) is None);
                        assert(resolve_sub_spec(cv, lv, subs_v[i as int])
                            == Result::<u8, crate::rasm_error::RasmErrorKindView>::Err(
                            crate::rasm_error::RasmErrorKindView::ConstantCycle(
                                subs_v[i as int],
                            ),
                        ));
                    }
                    proof {
                        assert(resolve_token_rec(cv, lv, subs_v.skip(i as int), result)
                            == Result::<u8, crate::rasm_error::RasmErrorKindView>::Err(
                            crate::rasm_error::RasmErrorKindView::ConstantCycle(
                                subs_v[i as int],
                            ),
                        ));
                    }
                    return Err(RasmErrorKind::ConstantCycle(copy_chars(sub)));
                }
                fuel -= 1;
                real_code = next;
                next_opt = const_lookup(consts, &real_code);
            }
            proof {
                assert(chase_spec(cv, real_code@, fuel as nat) == Some(real_code@));
                assert(chase_spec(cv, subs_v[i as int], cv.len() as nat) == Some(real_code@));
            }
            let num_code: u8 = match label_lookup(labels, &real_code) {
                Some(a) => a,
                None => match translate_chars(&real_code) {
                    Some(v) => v,
                    None => match self.decode_num(&real_code) {
                        Ok(v) => v,
                        Err(k) => {
                            proof {
                                assert(resolve_sub_spec(cv, lv, subs_v[i as int]) == Result::<
                                    u8,
                                    crate::rasm_error::RasmErrorKindView,
                                >::Err(k@));
                                assert(resolve_token_rec(cv, lv, subs_v.skip(i as int), result)
                                    == Result::<u8, crate::rasm_error::RasmErrorKindView>::Err(
                                    k@,
                                ));
                            }
                            return Err(k);
                        },
                    },
                },
            };
            proof {
                assert(resolve_sub_spec(cv, lv, subs_v[i as int]) == Result::<
                    u8,
                    crate::rasm_error::RasmErrorKindView,
                >::Ok(num_code));
            }
            result = result.wrapping_add(num_code);
            i += 1;
        }
        proof {
            assert(subs_v.skip(subs_v.len() as int).len() == 0);
        }
        Ok(result)
    }

    /// Split a line at its first `#` into upper-cased code and comment.
    fn extract_comment(&self, line: &Vec<char>) -> (r: (Vec<char>, Vec<char>))
        ensures
            r.0@ == extract_comment_spec(line@).0,
            r.1@ == extract_comment_spec(line@).1,
    {
        let parts = split_pair(line, '#', '#');
        if parts.len() > 1 {
            let code = to_upper(&trim(&parts[0]));
            let comment = trim(&parts[1]);
            (code, comment)
        } else {
            let code = to_upper(&trim(line));
            (code, Vec::new())
        }
    }

    /// The whitespace-separated tokens of a code line.
    fn get_parts(code: &Vec<char>) -> (r: Vec<Vec<char>>)
        ensures
            views_of(r@) == tokens_of(code@),
    {
        let raw = split_pair(code, ' ', '\t');
        let ghost rv = views_of(raw@);
        let mut r: Vec<Vec<char>> = Vec::new();
        proof {
            assert(rv.skip(0) =~= rv);
            assert(views_of(r@) + trim_nonempty(rv) =~= trim_nonempty(rv));
        }
        let mut i: usize = 0;
        while i < raw.len()
            invariant
                0 <= i <= raw@.len(),
                rv == views_of(raw@),
                rv.len() == raw@.len(),
                trim_nonempty(rv) == views_of(r@) + trim_nonempty(rv.skip(i as int)),
            decreases raw@.len() - i,
        {
            proof {
                assert(rv.skip(i as int)[0] == rv[i as int]);
                assert(rv.skip(i as int).drop_first() =~= rv.skip(i + 1));
            }
            let t = trim(&raw[i]);
            if t.len() > 0 {
                let ghost tv = t@;
                let ghost prev = views_of(r@);
                r.push(t);
                proof {
                    assert(views_of(r@) =~= prev.push(tv));
                    assert(prev.push(tv) + trim_nonempty(rv.skip(i + 1)) =~= prev + (seq![tv]
                        + trim_nonempty(rv.skip(i + 1))));
                }
            }
            i += 1;
        }
        proof {
            assert(trim_nonempty(rv.skip(rv.len() as int)).len() == 0);
            assert(views_of(r@) + trim_nonempty(rv.skip(rv.len() as int)) =~= views_of(r@));
            assert(tokens_of(code@) == trim_nonempty(rv));
        }
        r
    }

    /// The v2 `*` immediate sugar, then expansion of the short forms.
    fn preprocess_parts(parts: Vec<Vec<char>>) -> (r: (Vec<Vec<char>>, Vec<Vec<Vec<char>>>))
        ensures
            views_of(r.0@) == preprocess_parts_spec(views_of(parts@)).0,
            views3_of(r.1@) == preprocess_parts_spec(views_of(parts@)).1,
    {
        let ghost pv = views_of(parts@);
        if parts.len() == 0 {
            let r0: Vec<Vec<char>> = Vec::new();
            let r1: Vec<Vec<Vec<char>>> = Vec::new();
            proof {
                assert(views_of(r0@) =~= preprocess_parts_spec(pv).0);
                assert(views3_of(r1@) =~= preprocess_parts_spec(pv).1);
            }
            return (r0, r1);
        }
        let im1 = parts.len() >= 2 && starts_with_str(&parts[1], "*");
        let im2 = parts.len() >= 3 && starts_with_str(&parts[2], "*");
        let mut op = copy_chars(&parts[0]);
        if im1 {
            append_str(&mut op, "+IM1");
        }
        if im2 {
            append_str(&mut op, "+IM2");
        }
        proof {
            reveal_strlit("*");
            assert(op@ =~= pv[0] + (if im1 {
                "+IM1"@
            } else {
                Seq::<char>::empty()
            }) + (if im2 {
                "+IM2"@
            } else {
                Seq::<char>::empty()
            }));
        }
        let ghost opv = op@;
        let mut res: Vec<Vec<char>> = Vec::new();
        res.push(op);
        if parts.len() >= 2 {
            if im1 {
                res.push(tail_chars(&parts[1]));
            } else {
                res.push(copy_chars(&parts[1]));
            }
        }
        if parts.len() >= 3 {
            if im2 {
                res.push(tail_chars(&parts[2]));
            } else {
                res.push(copy_chars(&parts[2]));
            }
        }
        proof {
            assert(views_of(res@) =~= preprocess_head(pv));
            if pv.len() >= 3 {
                assert(views_of(res@) =~= preprocess_head(pv) + pv.subrange(3, 3));
            }
        }
        let mut k: usize = 3;
        while k < parts.len()
            invariant
                3 <= k <= parts@.len() || (parts@.len() < 3 && k == 3),
                pv == views_of(parts@),
                pv.len() == parts@.len(),
                views_of(res@) == preprocess_head(pv) + (if pv.len() >= 3 {
                    pv.subrange(3, k as int)
                } else {
                    Seq::<Seq<char>>::empty()
                }),
            decreases parts@.len() - k,
        {
            let ghost prev = views_of(res@);
            res.push(copy_chars(&parts[k]));
            proof {
                assert(views_of(res@) =~= prev.push(pv[k as int]));
                assert(prev.push(pv[k as int]) =~= preprocess_head(pv) + pv.subrange(3, k + 1));
            }
            k += 1;
        }
        proof {
            if pv.len() >= 3 {
                assert(pv.subrange(3, pv.len() as int) =~= pv.skip(3));
            }
            assert(views_of(res@) =~= preprocess_full(pv));
        }
        Self::preprocess_expand(res)
    }

    /// Expand the v2 short mnemonic forms and stack macros.
    fn preprocess_expand(parts: Vec<Vec<char>>) -> (r: (Vec<Vec<char>>, Vec<Vec<Vec<char>>>))
        requires
            parts@.len() >= 1,
        ensures
            views_of(r.0@) == preprocess_expand_spec(views_of(parts@)).0,
            views3_of(r.1@) == preprocess_expand_spec(views_of(parts@)).1,
    {
        let ghost pv = views_of(parts@);
        let no_extra: Vec<Vec<Vec<char>>> = Vec::new();
        proof {
            assert(views3_of(no_extra@) =~= Seq::<Seq<Seq<char>>>::empty());
        }
        if contains_str(&parts[0], "JMP") {
            if parts.len() == 2 {
                let mut out: Vec<Vec<char>> = Vec::new();
                out.push(copy_chars(&parts[0]));
                out.push(str_to_chars("0"));
                out.push(str_to_chars("0"));
                out.push(copy_chars(&parts[1]));
                proof {
                    assert(views_of(out@) =~= seq![pv[0], zero_tok(), zero_tok(), pv[1]]);
                }
                return (out, no_extra);
            }
            return (parts, no_extra);
        }
        if contains_str(&parts[0], "MOV") {
            if parts.len() == 3 {
                let mut out: Vec<Vec<char>> = Vec::new();
                out.push(copy_chars(&parts[0]));
                out.push(copy_chars(&parts[1]));
                out.push(str_to_chars("0"));
                out.push(copy_chars(&parts[2]));
                proof {
                    assert(views_of(out@) =~= seq![pv[0], pv[1], zero_tok(), pv[2]]);
                }
                return (out, no_extra);
            }
            return (parts, no_extra);
        }
        if contains_str(&parts[0], "NOOP") {
            if parts.len() == 1 {
                let out = Self::pad_three(&parts[0]);
                return (out, no_extra);
            }
            return (parts, no_extra);
        }
        if contains_str(&parts[0], "CALL") {
            if parts.len() == 2 {
                let mut out: Vec<Vec<char>> = Vec::new();
                out.push(copy_chars(&parts[0]));
                out.push(copy_chars(&parts[1]));
                out.push(str_to_chars("0"));
                out.push(str_to_chars("0"));
                proof {
                    assert(views_of(out@) =~= seq![pv[0], pv[1], zero_tok(), zero_tok()]);
                }
                return (out, no_extra);
            }
            return (parts, no_extra);
        }
        if contains_str(&parts[0], "RET") {
            if parts.len() == 1 {
                let out = Self::pad_three(&parts[0]);
                return (out, no_extra);
            }
            return (parts, no_extra);
        }
        if contains_str(&parts[0], "S_POP") {
            if parts.len() == 2 {
                let mut out: Vec<Vec<char>> = Vec::new();
                out.push(copy_chars(&parts[0]));
                out.push(str_to_chars("0"));
                out.push(str_to_chars("0"));
                out.push(copy_chars(&parts[1]));
                proof {
                    assert(views_of(out@) =~= seq![pv[0], zero_tok(), zero_tok(), pv[1]]);
                }
                return (out, no_extra);
            }
            return (parts, no_extra);
        }
        if contains_str(&parts[0], "S_PUSH") {
            if parts.len() == 2 {
                let mut out: Vec<Vec<char>> = Vec::new();
                out.push(copy_chars(&parts[0]));
                out.push(copy_chars(&parts[1]));
                out.push(str_to_chars("0"));
                out.push(str_to_chars("0"));
                proof {
                    assert(views_of(out@) =~= seq![pv[0], pv[1], zero_tok(), zero_tok()]);
                }
                return (out, no_extra);
            }
            return (parts, no_extra);
        }
        if contains_str(&parts[0], "HALT") {
            if parts.len() == 1 {
                let out = Self::pad_three(&parts[0]);
                return (out, no_extra);
            }
            return (parts, no_extra);
        }
        if starts_with_str(&parts[0], "!ST<") {
            let none_main: Vec<Vec<char>> = Vec::new();
            let mut exp: Vec<Vec<Vec<char>>> = Vec::new();
            let mut i: usize = 1;
            while i < parts.len()
                invariant
                    1 <= i <= parts@.len(),
                    pv == views_of(parts@),
                    pv.len() == parts@.len(),
                    views3_of(exp@) == Seq::new(
                        (i - 1) as nat,
                        |j: int| seq!["S_PUSH+IM1"@, pv[j + 1], zero_tok(), zero_tok()],
                    ),
                decreases parts@.len() - i,
            {
                let mut line: Vec<Vec<char>> = Vec::new();
                line.push(str_to_chars("S_PUSH+IM1"));
                line.push(copy_chars(&parts[i]));
                line.push(str_to_chars("0"));
                line.push(str_to_chars("0"));
                let ghost linev = views_of(line@);
                let ghost prev = views3_of(exp@);
                proof {
                    assert(linev =~= seq!["S_PUSH+IM1"@, pv[i as int], zero_tok(), zero_tok()]);
                }
                exp.push(line);
                proof {
                    assert(views3_of(exp@) =~= prev.push(linev));
                    assert(views3_of(exp@) =~= Seq::new(
                        i as nat,
                        |j: int| seq!["S_PUSH+IM1"@, pv[j + 1], zero_tok(), zero_tok()],
                    ));
                }
                i += 1;
            }
            proof {
                assert(views_of(none_main@) =~= Seq::<Seq<char>>::empty());
            }
            return (none_main, exp);
        }
        if starts_with_str(&parts[0], "!ST>") {
            let none_main: Vec<Vec<char>> = Vec::new();
            let mut exp: Vec<Vec<Vec<char>>> = Vec::new();
            let mut i: usize = parts.len();
            while i > 1
                invariant
                    1 <= i <= parts@.len(),
                    pv == views_of(parts@),
                    pv.len() == parts@.len(),
                    views3_of(exp@) == Seq::new(
                        (pv.len() - i) as nat,
                        |j: int| seq!["S_POP"@, zero_tok(), zero_tok(), pv[pv.len() - 1 - j]],
                    ),
                decreases i,
            {
                i -= 1;
                let mut line: Vec<Vec<char>> = Vec::new();
                line.push(str_to_chars("S_POP"));
                line.push(str_to_chars("0"));
                line.push(str_to_chars("0"));
                line.push(copy_chars(&parts[i]));
                let ghost linev = views_of(line@);
                let ghost prev = views3_of(exp@);
                proof {
                    assert(linev =~= seq!["S_POP"@, zero_tok(), zero_tok(), pv[i as int]]);
                }
                exp.push(line);
                proof {
                    assert(views3_of(exp@) =~= prev.push(linev));
                    assert(views3_of(exp@) =~= Seq::new(
                        (pv.len() - i) as nat,
                        |j: int| seq!["S_POP"@, zero_tok(), zero_tok(), pv[pv.len() - 1 - j]],
                    ));
                }
            }
            proof {
                assert(views_of(none_main@) =~= Seq::<Seq<char>>::empty());
            }
            return (none_main, exp);
        }
        (parts, no_extra)
    }

    /// The single token padded with three zero tokens.
    fn pad_three(head: &Vec<char>) -> (r: Vec<Vec<char>>)
        ensures
            views_of(r@) == seq![head@, zero_tok(), zero_tok(), zero_tok()],
    {
        let mut out: Vec<Vec<char>> = Vec::new();
        out.push(copy_chars(head));
        out.push(str_to_chars("0"));
        out.push(str_to_chars("0"));
        out.push(str_to_chars("0"));
        proof {
            assert(views_of(out@) =~= seq![head@, zero_tok(), zero_tok(), zero_tok()]);
        }
        out
    }

    /// A copy of a token list.
    fn copy_token_list(v: &Vec<Vec<char>>) -> (r: Vec<Vec<char>>)
        ensures
            views_of(r@) == views_of(v@),
    {
        let mut r: Vec<Vec<char>> = Vec::new();
        let mut i: usize = 0;
        while i < v.len()
            invariant
                0 <= i <= v@.len(),
                views_of(r@) == views_of(v@).take(i as int),
            decreases v@.len() - i,
        {
            let ghost prev = views_of(r@);
            r.push(copy_chars(&v[i]));
            proof {
                assert(views_of(r@) =~= prev.push(views_of(v@)[i as int]));
                assert(views_of(r@) =~= views_of(v@).take(i + 1));
            }
            i += 1;
        }
        proof {
            assert(views_of(v@).take(v@.len() as int) =~= views_of(v@));
        }
        r
    }

    /// Classify one raw source line: empty, tag or code, with the v2
    /// expansions applied to code lines.
    fn parse_line(&self, raw: &Vec<char>, number: u32, is_v2: bool) -> (r: Result<
        (Vec<RasmLine>, bool),
        RasmError,
    >)
        ensures
            match r {
                Ok(p) => parse_line_spec(raw@, number, is_v2) == Result::<
                    ParseOut,
                    crate::rasm_error::RasmErrorView,
                >::Ok(ParseOut { lines: lines_views(p.0@), is_v2: p.1 }),
                Err(e) => parse_line_spec(raw@, number, is_v2) == Result::<
                    ParseOut,
                    crate::rasm_error::RasmErrorView,
                >::Err(e@),
            },
    {
        let (code, comment) = self.extract_comment(raw);
        let ghost codev = code@;
        let ghost commentv = comment@;
        if code.len() == 0 {
            let v2 = is_v2 || contains_str(&comment, "&rail-asm-v2");
            let mut lines: Vec<RasmLine> = Vec::new();
            lines.push(
                RasmLine::new(
                    comment,
                    RasmTag::Untagged,
                    LineType::Empty,
                    Vec::new(),
                    Vec::new(),
                    number,
                    copy_chars(raw),
                ),
            );
            proof {
                assert(views_of(Seq::<Vec<char>>::empty()) =~= Seq::<Seq<char>>::empty());
                assert(lines_views(lines@) =~= parse_line_spec(
                    raw@,
                    number,
                    is_v2,
                )->Ok_0.lines);
            }
            return Ok((lines, v2));
        }
        if starts_with_str(&code, "LABEL") {
            let parts = Self::get_parts(&code);
            if parts.len() < 2 {
                return Err(
                    RasmError::new(number, copy_chars(raw), RasmErrorKind::TruncatedDirective),
                );
            }
            let mut tags: Vec<Vec<char>> = Vec::new();
            tags.push(copy_chars(&parts[1]));
            proof {
                assert(views_of(tags@) =~= seq![tokens_of(codev)[1]]);
            }
            let mut lines: Vec<RasmLine> = Vec::new();
            lines.push(
                RasmLine::new(
                    comment,
                    RasmTag::Label,
                    LineType::Tag,
                    tags,
                    Vec::new(),
                    number,
                    copy_chars(raw),
                ),
            );
            proof {
                assert(views_of(Seq::<Vec<char>>::empty()) =~= Seq::<Seq<char>>::empty());
                assert(lines_views(lines@) =~= parse_line_spec(
                    raw@,
                    number,
                    is_v2,
                )->Ok_0.lines);
            }
            return Ok((lines, is_v2));
        }
        if starts_with_str(&code, "CONST") {
            let parts = Self::get_parts(&code);
            if parts.len() < 3 {
                return Err(
                    RasmError::new(number, copy_chars(raw), RasmErrorKind::TruncatedDirective),
                );
            }
            let mut tags: Vec<Vec<char>> = Vec::new();
            tags.push(copy_chars(&parts[1]));
            tags.push(copy_chars(&parts[2]));
            proof {
                assert(views_of(tags@) =~= seq![tokens_of(codev)[1], tokens_of(codev)[2]]);
            }
            let mut lines: Vec<RasmLine> = Vec::new();
            lines.push(
                RasmLine::new(
                    comment,
                    RasmTag::Const,
                    LineType::Tag,
                    tags,
                    Vec::new(),
                    number,
                    copy_chars(raw),
                ),
            );
            proof {
                assert(views_of(Seq::<Vec<char>>::empty()) =~= Seq::<Seq<char>>::empty());
                assert(lines_views(lines@) =~= parse_line_spec(
                    raw@,
                    number,
                    is_v2,
                )->Ok_0.lines);
            }
            return Ok((lines, is_v2));
        }
        let parts = Self::get_parts(&code);
        let (main, extra) = if is_v2 {
            Self::preprocess_parts(parts)
        } else {
            (parts, Vec::new())
        };
        let ghost prev2 = if is_v2 {
            preprocess_parts_spec(tokens_of(codev))
        } else {
            (tokens_of(codev), Seq::<Seq<Seq<char>>>::empty())
        };
        proof {
            assert(views_of(main@) == prev2.0);
            assert(views3_of(extra@) =~= prev2.1);
        }
        let mut lines: Vec<RasmLine> = Vec::new();
        if main.len() > 0 {
            lines.push(
                RasmLine::new(
                    copy_chars(&comment),
                    RasmTag::Untagged,
                    LineType::Code,
                    Vec::new(),
                    main,
                    number,
                    copy_chars(raw),
                ),
            );
        }
        let ghost main_lines: Seq<LineView> = if prev2.0.len() > 0 {
            seq![code_line_view(prev2.0, commentv, number, raw@)]
        } else {
            Seq::<LineView>::empty()
        };
        proof {
            assert(views_of(Seq::<Vec<char>>::empty()) =~= Seq::<Seq<char>>::empty());
            assert(lines_views(lines@) =~= main_lines);
        }
        let mut j: usize = 0;
        while j < extra.len()
            invariant
                0 <= j <= extra@.len(),
                views3_of(extra@) == prev2.1,
                views3_of(extra@).len() == extra@.len(),
                commentv == comment@,
                lines_views(lines@) == main_lines + prev2.1.take(j as int).map_values(
                    |ps: Seq<Seq<char>>| code_line_view(ps, commentv, number, raw@),
                ),
            decreases extra@.len() - j,
        {
            let ghost prev = lines_views(lines@);
            lines.push(
                RasmLine::new(
                    copy_chars(&comment),
                    RasmTag::Untagged,
                    LineType::Code,
                    Vec::new(),
                    Self::copy_token_list(&extra[j]),
                    number,
                    copy_chars(raw),
                ),
            );
            proof {
                assert(views_of(Seq::<Vec<char>>::empty()) =~= Seq::<Seq<char>>::empty());
                assert(lines_views(lines@) =~= prev.push(
                    code_line_view(prev2.1[j as int], commentv, number, raw@),
                ));
                assert(lines_views(lines@) =~= main_lines + prev2.1.take(j + 1).map_values(
                    |ps: Seq<Seq<char>>| code_line_view(ps, commentv, number, raw@),
                ));
            }
            j += 1;
        }
        proof {
            assert(prev2.1.take(prev2.1.len() as int) =~= prev2.1);
            assert(lines_views(lines@) =~= main_lines + prev2.1.map_values(
                |ps: Seq<Seq<char>>| code_line_view(ps, commentv, number, raw@),
            ));
            assert(lines_views(lines@) =~= parse_line_spec(raw@, number, is_v2)->Ok_0.lines);
        }
        Ok((lines, is_v2))
    }

    /// Split the source into lines and classify each, numbering from one
    /// and threading the v2 flag.
    fn parse_lines(&self, text: &str) -> (r: Result<Vec<RasmLine>, RasmError>)
        ensures
            match r {
                Ok(lines) => parse_lines_spec(split_keep(text@, nl_sep()), 1, false) == Result::<
                    Seq<LineView>,
                    crate::rasm_error::RasmErrorView,
                >::Ok(lines_views(lines@)),
                Err(e) => parse_lines_spec(split_keep(text@, nl_sep()), 1, false) == Result::<
                    Seq<LineView>,
                    crate::rasm_error::RasmErrorView,
                >::Err(e@),
            },
    {
        let chars = str_to_chars(text);
        let raws = split_pair(&chars, '\n', '\n');
        let ghost rv = views_of(raws@);
        let mut result: Vec<RasmLine> = Vec::new();
        let mut line_number: u32 = 0;
        let mut is_v2 = false;
        let mut i: usize = 0;
        proof {
            assert(rv.skip(0) =~= rv);
            assert(lines_views(result@) =~= Seq::<LineView>::empty());
        }
        while i < raws.len()
            invariant
                0 <= i <= raws@.len(),
                rv == views_of(raws@),
                rv.len() == raws@.len(),
                rv == split_keep(text@, nl_sep()),
                wrap_inc(line_number) == ((i + 1) % 0x100000000) as u32,
                match parse_lines_spec(rv.skip(i as int), wrap_inc(line_number), is_v2) {
                    Ok(ls) => parse_lines_spec(rv, 1, false) == Result::<
                        Seq<LineView>,
                        crate::rasm_error::RasmErrorView,
                    >::Ok(lines_views(result@) + ls),
                    Err(e) => parse_lines_spec(rv, 1, false) == Result::<
                        Seq<LineView>,
                        crate::rasm_error::RasmErrorView,
                    >::Err(e),
                },
            decreases raws@.len() - i,
        {
            proof {
                assert(rv.skip(i as int)[0] == rv[i as int]);
                assert(rv.skip(i as int).drop_first() =~= rv.skip(i + 1));
            }
            line_number = line_number.wrapping_add(1);
            match self.parse_line(&raws[i], line_number, is_v2) {
                Ok(p) => {
                    let (mut ls, v2) = p;
                    let ghost prev = lines_views(result@);
                    let ghost lsv = lines_views(ls@);
                    result.append(&mut ls);
                    is_v2 = v2;
                    proof {
                        assert(lines_views(result@) =~= prev + lsv);
                        let rest = parse_lines_spec(rv.skip(i + 1), wrap_inc(line_number), v2);
                        if rest is Ok {
                            assert((prev + lsv) + rest->Ok_0 =~= prev + (lsv
                                + rest->Ok_0));
                        }
                    }
                },
                Err(e) => {
                    return Err(e);
                },
            }
            i += 1;
        }
        proof {
            assert(rv.skip(rv.len() as int).len() == 0);
            assert(lines_views(result@) + Seq::<LineView>::empty() =~= lines_views(result@));
        }
        Ok(result)
    }

    /// Pass one collects the symbol tables and code lines; pass two
    /// emits one byte per token of each code line.
    fn process_lines(&self, lines: &Vec<RasmLine>) -> (r: Result<Vec<u8>, RasmError>)
        requires
            crate::rasm_spec::line_tags_wf(lines_views(lines@)),
        ensures
            match r {
                Ok(v) => process_lines_spec(lines_views(lines@)) == Result::<
                    Seq<u8>,
                    crate::rasm_error::RasmErrorView,
                >::Ok(v@),
                Err(e) => process_lines_spec(lines_views(lines@)) == Result::<
                    Seq<u8>,
                    crate::rasm_error::RasmErrorView,
                >::Err(e@),
            },
    {
        let ghost lvs = lines_views(lines@);
        let mut consts: Vec<(Vec<char>, Vec<char>)> = Vec::new();
        let mut labels: Vec<(Vec<char>, u8)> = Vec::new();
        let mut code_idx: Vec<usize> = Vec::new();
        let mut i: usize = 0;
        proof {
            assert(lvs.skip(0) =~= lvs);
            assert(consts_view(consts@) =~= Seq::<(Seq<char>, Seq<char>)>::empty());
            assert(labels_view(labels@) =~= Seq::<(Seq<char>, u8)>::empty());
            assert(code_idx@.map_values(|x: usize| lvs[x as int]) =~= Seq::<LineView>::empty());
            assert(pass1_init() =~= (Pass1 {
                consts: consts_view(consts@),
                labels: labels_view(labels@),
                code_lines: code_idx@.map_values(|x: usize| lvs[x as int]),
                code_count: code_idx@.len() as int,
            }));
        }
        while i < lines.len()
            invariant
                0 <= i <= lines@.len(),
                lvs == lines_views(lines@),
                lvs.len() == lines@.len(),
                crate::rasm_spec::line_tags_wf(lvs),
                forall|t: int| 0 <= t < code_idx@.len() ==> (#[trigger] code_idx@[t]) < i,
                pass1_spec(lvs, pass1_init()) == pass1_spec(
                    lvs.skip(i as int),
                    Pass1 {
                        consts: consts_view(consts@),
                        labels: labels_view(labels@),
                        code_lines: code_idx@.map_values(|x: usize| lvs[x as int]),
                        code_count: code_idx@.len() as int,
                    },
                ),
            decreases lines@.len() - i,
        {
            let ghost st = Pass1 {
                consts: consts_view(consts@),
                labels: labels_view(labels@),
                code_lines: code_idx@.map_values(|x: usize| lvs[x as int]),
                code_count: code_idx@.len() as int,
            };
            proof {
                assert(lvs.skip(i as int)[0] == lvs[i as int]);
                assert(lvs.skip(i as int).drop_first() =~= lvs.skip(i + 1));
            }
            let line = &lines[i];
            match line.line_type {
                LineType::Empty => {},
                LineType::Tag => {
                    match line.tag_type {
                        RasmTag::Const => {
                            let ghost prev = consts_view(consts@);
                            consts.push((copy_chars(&line.tags[0]), copy_chars(&line.tags[1])));
                            proof {
                                assert(consts_view(consts@) =~= prev.push(
                                    (lvs[i as int].tags[0], lvs[i as int].tags[1]),
                                ));
                            }
                        },
                        RasmTag::Label => {
                            match label_lookup(&labels, &line.tags[0]) {
                                Some(_) => {
                                    proof {
                                        assert(pass1_step(st, lvs[i as int]) == Result::<
                                            Pass1,
                                            crate::rasm_error::RasmErrorView,
                                        >::Err(
                                            crate::rasm_error::RasmErrorView {
                                                line_number: lvs[i as int].line_number,
                                                line: lvs[i as int].original_line,
                                                kind: crate::rasm_error::RasmErrorKindView::DuplicateLabel(
                                                    lvs[i as int].tags[0],
                                                ),
                                            },
                                        ));
                                    }
                                    return Err(
                                        RasmError::new(
                                            line.line_number,
                                            copy_chars(&line.original_line),
                                            RasmErrorKind::DuplicateLabel(
                                                copy_chars(&line.tags[0]),
                                            ),
                                        ),
                                    );
                                },
                                None => {
                                    let ghost prev = labels_view(labels@);
                                    let addr = ((code_idx.len() % 64) * 4) as u8;
                                    labels.push((copy_chars(&line.tags[0]), addr));
                                    proof {
                                        assert(addr == wrap_addr(code_idx@.len() as int));
                                        assert(labels_view(labels@) =~= prev.push(
                                            (lvs[i as int].tags[0], addr),
                                        ));
                                    }
                                },
                            }
                        },
                        RasmTag::Untagged => {},
                    }
                },
                LineType::Code => {
                    let ghost prevc = code_idx@;
                    code_idx.push(i);
                    proof {
                        assert(code_idx@.map_values(|x: usize| lvs[x as int]) =~= prevc.map_values(
                            |x: usize| lvs[x as int],
                        ).push(lvs[i as int]));
                    }
                },
            }
            i += 1;
        }
        proof {
            assert(lvs.skip(lvs.len() as int).len() == 0);
        }
        let ghost cv2 = consts_view(consts@);
        let ghost lv2 = labels_view(labels@);
        let ghost cls = code_idx@.map_values(|x: usize| lvs[x as int]);
        proof {
            assert(pass1_spec(lvs, pass1_init()) == Result::<
                Pass1,
                crate::rasm_error::RasmErrorView,
            >::Ok(Pass1 {
                consts: cv2,
                labels: lv2,
                code_lines: cls,
                code_count: code_idx@.len() as int,
            }));
        }
        let mut result: Vec<u8> = Vec::new();
        let mut t: usize = 0;
        proof {
            assert(cls.skip(0) =~= cls);
        }
        while t < code_idx.len()
            invariant
                0 <= t <= code_idx@.len(),
                lvs == lines_views(lines@),
                lvs.len() == lines@.len(),
                cv2 == consts_view(consts@),
                lv2 == labels_view(labels@),
                cls == code_idx@.map_values(|x: usize| lvs[x as int]),
                cls.len() == code_idx@.len(),
                process_lines_spec(lvs) == pass2_spec(cv2, lv2, cls),
                forall|u: int| 0 <= u < code_idx@.len() ==> (#[trigger] code_idx@[u])
                    < lines@.len(),
                match pass2_spec(cv2, lv2, cls.skip(t as int)) {
                    Ok(bs) => pass2_spec(cv2, lv2, cls) == Result::<
                        Seq<u8>,
                        crate::rasm_error::RasmErrorView,
                    >::Ok(result@ + bs),
                    Err(e) => pass2_spec(cv2, lv2, cls) == Result::<
                        Seq<u8>,
                        crate::rasm_error::RasmErrorView,
                    >::Err(e),
                },
            decreases code_idx@.len() - t,
        {
            proof {
                assert(cls.skip(t as int)[0] == cls[t as int]);
                assert(cls.skip(t as int).drop_first() =~= cls.skip(t + 1));
            }
            let li = code_idx[t];
            let line = &lines[li];
            let ghost pv = lvs[li as int].code_parts;
            proof {
                assert(cls[t as int] == lvs[li as int]);
            }
            let mut line_bytes: Vec<u8> = Vec::new();
            let mut k: usize = 0;
            proof {
                assert(pv.skip(0) =~= pv);
                assert(line_bytes@ =~= Seq::<u8>::empty());
            }
            while k < line.code_parts.len()
                invariant
                    0 <= k <= line.code_parts@.len(),
                    line == &lines@[li as int],
                    li < lines@.len(),
                    lvs == lines_views(lines@),
                    lvs.len() == lines@.len(),
                    pv == lvs[li as int].code_parts,
                    pv.len() == line.code_parts@.len(),
                    cv2 == consts_view(consts@),
                    lv2 == labels_view(labels@),
                    0 <= t < cls.len(),
                    cls[t as int] == lvs[li as int],
                    lvs == lines_views(lines@),
                    process_lines_spec(lvs) == pass2_spec(cv2, lv2, cls),
                    match pass2_spec(cv2, lv2, cls.skip(t as int)) {
                        Ok(bs) => pass2_spec(cv2, lv2, cls) == Result::<
                            Seq<u8>,
                            crate::rasm_error::RasmErrorView,
                        >::Ok(result@ + bs),
                        Err(e) => pass2_spec(cv2, lv2, cls) == Result::<
                            Seq<u8>,
                            crate::rasm_error::RasmErrorView,
                        >::Err(e),
                    },
                    cls.skip(t as int)[0] == cls[t as int],
                    cls.skip(t as int).drop_first() == cls.skip(t + 1),
                    match emit_tokens(cv2, lv2, pv.skip(k as int)) {
                        Ok(bs) => emit_tokens(cv2, lv2, pv) == Result::<
                            Seq<u8>,
                            crate::rasm_error::RasmErrorKindView,
                        >::Ok(line_bytes@ + bs),
                        Err(e) => emit_tokens(cv2, lv2, pv) == Result::<
                            Seq<u8>,
                            crate::rasm_error::RasmErrorKindView,
                        >::Err(e),
                    },
                decreases line.code_parts@.len() - k,
            {
                proof {
                    assert(pv.skip(k as int)[0] == pv[k as int]);
                    assert(pv.skip(k as int).drop_first() =~= pv.skip(k + 1));
                    assert(pv[k as int] == line.code_parts@[k as int]@);
                }
                match self.process_code(&line.code_parts[k], &consts, &labels) {
                    Ok(b) => {
                        let ghost prevb = line_bytes@;
                        line_bytes.push(b);
                        proof {
                            let rest = emit_tokens(cv2, lv2, pv.skip(k + 1));
                            if rest is Ok {
                                assert(prevb + (seq![b] + rest->Ok_0) =~= line_bytes@
                                    + rest->Ok_0);
                            }
                        }
                    },
                    Err(kind) => {
                        proof {
                            assert(emit_tokens(cv2, lv2, pv) == Result::<
                                Seq<u8>,
                                crate::rasm_error::RasmErrorKindView,
                            >::Err(kind@));
                            assert(pass2_spec(cv2, lv2, cls.skip(t as int)) == Result::<
                                Seq<u8>,
                                crate::rasm_error::RasmErrorView,
                            >::Err(
                                crate::rasm_error::RasmErrorView {
                                    line_number: lvs[li as int].line_number,
                                    line: lvs[li as int].original_line,
                                    kind: kind@,
                                },
                            ));
                        }
                        return Err(
                            RasmError::new(
                                line.line_number,
                                copy_chars(&line.original_line),
                                kind,
                            ),
                        );
                    },
                }
                k += 1;
            }
            proof {
                assert(pv.skip(pv.len() as int).len() == 0);
                assert(line_bytes@ + Seq::<u8>::empty() =~= line_bytes@);
                assert(emit_tokens(cv2, lv2, pv) == Result::<
                    Seq<u8>,
                    crate::rasm_error::RasmErrorKindView,
                >::Ok(line_bytes@));
            }
            let ghost prevr = result@;
            let ghost lbv = line_bytes@;
            let mut lb = line_bytes;
            result.append(&mut lb);
            proof {
                let rest = pass2_spec(cv2, lv2, cls.skip(t + 1));
                if rest is Ok {
                    assert((prevr + lbv) + rest->Ok_0 =~= prevr + (lbv + rest->Ok_0));
                }
            }
            t += 1;
        }
        proof {
            assert(cls.skip(cls.len() as int).len() == 0);
            assert(result@ + Seq::<u8>::empty() =~= result@);
        }
        Ok(result)
    }
}

/// Every line that classification produces carries the operands its
/// directive needs.
proof fn lemma_parse_line_wf(raw: Seq<char>, number: u32, is_v2: bool)
    ensures
        parse_line_spec(raw, number, is_v2) matches Ok(po) ==> crate::rasm_spec::line_tags_wf(
            po.lines,
        ),
{
}

/// Extends [`lemma_parse_line_wf`] over a whole file.
proof fn lemma_parse_lines_wf(raws: Seq<Seq<char>>, number: u32, is_v2: bool)
    ensures
        parse_lines_spec(raws, number, is_v2) matches Ok(ls) ==> crate::rasm_spec::line_tags_wf(
            ls,
        ),
    decreases raws.len(),
{
    if raws.len() == 0 {
    } else {
        match parse_line_spec(raws[0], number, is_v2) {
            Err(_) => {},
            Ok(po) => {
                lemma_parse_line_wf(raws[0], number, is_v2);
                lemma_parse_lines_wf(raws.drop_first(), wrap_inc(number), po.is_v2);
            },
        }
    }
}

} // verus!
