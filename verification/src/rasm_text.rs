//! Verified text utilities for the assembler: splitting on separators,
//! trimming, upper-casing, prefix and substring tests, all over sequences
//! of characters.

use vstd::prelude::*;

verus! {

/// The whitespace characters stripped from token and line edges.
pub open spec fn is_rasm_ws(c: char) -> bool {
    c == ' ' || c == '\t' || c == '\r' || c == '\n' || c == '\u{b}' || c == '\u{c}'
}

/// A separator predicate recognising either of two characters (the two
/// may coincide, giving a single-character separator).
pub open spec fn pair_sep(a: char, b: char) -> spec_fn(char) -> bool {
    |c: char| c == a || c == b
}

/// Index of the first separator character, or the length when none
/// occurs.
pub open spec fn first_sep(s: Seq<char>, sep: spec_fn(char) -> bool) -> nat
    decreases s.len(),
{
    if s.len() == 0 {
        0
    } else if sep(s[0]) {
        0
    } else {
        (1 + first_sep(s.skip(1), sep)) as nat
    }
}

pub proof fn lemma_first_sep_bound(s: Seq<char>, sep: spec_fn(char) -> bool)
    ensures
        first_sep(s, sep) <= s.len(),
        first_sep(s, sep) < s.len() ==> sep(s[first_sep(s, sep) as int]),
        forall|j: int| 0 <= j < first_sep(s, sep) ==> !sep(s[j]),
    decreases s.len(),
{
    if s.len() == 0 {
    } else if sep(s[0]) {
    } else {
        lemma_first_sep_bound(s.skip(1), sep);
        assert forall|j: int| 0 <= j < first_sep(s, sep) implies !sep(s[j]) by {
            if j > 0 {
                assert(s.skip(1)[j - 1] == s[j]);
            }
        }
    }
}

pub proof fn lemma_first_sep_at(s: Seq<char>, sep: spec_fn(char) -> bool, k: int)
    requires
        0 <= k <= s.len(),
        forall|j: int| 0 <= j < k ==> !sep(s[j]),
        k < s.len() ==> sep(s[k]),
    ensures
        first_sep(s, sep) == k,
    decreases s.len(),
{
    if s.len() == 0 {
    } else if sep(s[0]) {
    } else {
        assert forall|j: int| 0 <= j < k - 1 implies !sep(s.skip(1)[j]) by {
            assert(s.skip(1)[j] == s[j + 1]);
        }
        if k < s.len() {
            assert(s.skip(1)[k - 1] == s[k]);
        }
        lemma_first_sep_at(s.skip(1), sep, k - 1);
    }
}

/// Split on a separator, keeping empty segments (as Rust's `split` does).
pub open spec fn split_keep(s: Seq<char>, sep: spec_fn(char) -> bool) -> Seq<Seq<char>>
    decreases s.len(),
    via split_keep_dec
{
    let i = first_sep(s, sep) as int;
    if i == s.len() {
        seq![s]
    } else {
        seq![s.take(i)] + split_keep(s.skip(i + 1), sep)
    }
}

#[via_fn]
proof fn split_keep_dec(s: Seq<char>, sep: spec_fn(char) -> bool) {
    lemma_first_sep_bound(s, sep);
}

/// One unfolding of `split_keep` when the first separator is known to sit
/// at position `k` of `s`.
pub proof fn lemma_split_keep_step(s: Seq<char>, sep: spec_fn(char) -> bool, k: int)
    requires
        0 <= k < s.len(),
        forall|j: int| 0 <= j < k ==> !sep(s[j]),
        sep(s[k]),
    ensures
        split_keep(s, sep) == seq![s.take(k)] + split_keep(s.skip(k + 1), sep),
{
    lemma_first_sep_at(s, sep, k);
}

/// `split_keep` on a separator-free sequence yields that sequence alone.
pub proof fn lemma_split_keep_whole(s: Seq<char>, sep: spec_fn(char) -> bool)
    requires
        forall|j: int| 0 <= j < s.len() ==> !sep(s[j]),
    ensures
        split_keep(s, sep) == seq![s],
{
    lemma_first_sep_at(s, sep, s.len() as int);
}

/// Splitting an entire character vector on one or two separator
/// characters, keeping empty segments.
pub fn split_pair(v: &Vec<char>, a: char, b: char) -> (r: Vec<Vec<char>>)
    ensures
        views_of(r@) == split_keep(v@, pair_sep(a, b)),
{
    let ghost sep = pair_sep(a, b);
    let mut r: Vec<Vec<char>> = Vec::new();
    let mut cur: Vec<char> = Vec::new();
    let ghost mut start: int = 0;
    let mut i: usize = 0;
    proof {
        assert(v@.skip(0) =~= v@);
        assert(views_of(r@) + split_keep(v@.skip(start), sep) =~= split_keep(v@, sep));
        assert(cur@ =~= v@.subrange(0, 0));
    }
    while i < v.len()
        invariant
            0 <= start <= i <= v@.len(),
            cur@ == v@.subrange(start, i as int),
            forall|j: int| start <= j < i ==> !sep(v@[j]),
            split_keep(v@, sep) == views_of(r@) + split_keep(v@.skip(start), sep),
            sep == pair_sep(a, b),
        decreases v@.len() - i,
    {
        let c = v[i];
        if c == a || c == b {
            proof {
                assert forall|j: int| 0 <= j < i - start implies !sep(v@.skip(start)[j]) by {
                    assert(v@.skip(start)[j] == v@[start + j]);
                }
                assert(v@.skip(start)[i - start] == v@[i as int]);
                lemma_split_keep_step(v@.skip(start), sep, i - start);
                assert(v@.skip(start).take(i - start) =~= cur@);
                assert(v@.skip(start).skip(i - start + 1) =~= v@.skip(i + 1));
            }
            r.push(cur);
            cur = Vec::new();
            proof {
                assert(views_of(r@) =~= views_of(r@.drop_last().push(r@.last())));
                assert(views_of(r@) =~= views_of(r@.drop_last()).push(r@.last()@));
                start = i + 1;
                assert(cur@ =~= v@.subrange(start, i + 1));
            }
        } else {
            cur.push(c);
            proof {
                assert(cur@ =~= v@.subrange(start, i + 1));
            }
        }
        i += 1;
    }
    proof {
        assert forall|j: int| 0 <= j < v@.len() - start implies !sep(v@.skip(start)[j]) by {
            assert(v@.skip(start)[j] == v@[start + j]);
        }
        lemma_split_keep_whole(v@.skip(start), sep);
        assert(cur@ =~= v@.skip(start));
    }
    r.push(cur);
    proof {
        assert(views_of(r@) =~= views_of(r@.drop_last()).push(r@.last()@));
        assert(views_of(r@) =~= split_keep(v@, sep));
    }
    r
}

/// The views of a sequence of character vectors.
pub open spec fn views_of(vs: Seq<Vec<char>>) -> Seq<Seq<char>> {
    vs.map_values(|v: Vec<char>| v@)
}

/// Leading whitespace removed.
pub open spec fn trim_front(s: Seq<char>) -> Seq<char>
    decreases s.len(),
{
    if s.len() == 0 {
        s
    } else if is_rasm_ws(s[0]) {
        trim_front(s.skip(1))
    } else {
        s
    }
}

/// Trailing whitespace removed.
pub open spec fn trim_back(s: Seq<char>) -> Seq<char>
    decreases s.len(),
{
    if s.len() == 0 {
        s
    } else if is_rasm_ws(s[s.len() - 1]) {
        trim_back(s.take(s.len() - 1))
    } else {
        s
    }
}

/// Whitespace removed from both ends.
pub open spec fn trim_spec(s: Seq<char>) -> Seq<char> {
    trim_back(trim_front(s))
}

/// Remove leading and trailing whitespace from a character vector.
pub fn trim(v: &Vec<char>) -> (r: Vec<char>)
    ensures
        r@ == trim_spec(v@),
{
    let mut start: usize = 0;
    proof {
        assert(v@.skip(0) =~= v@);
    }
    while start < v.len() && is_ws_char(v[start])
        invariant
            0 <= start <= v@.len(),
            trim_front(v@) == trim_front(v@.skip(start as int)),
        decreases v@.len() - start,
    {
        proof {
            assert(v@.skip(start as int)[0] == v@[start as int]);
            assert(v@.skip(start as int).skip(1) =~= v@.skip(start + 1));
        }
        start += 1;
    }
    proof {
        if start < v@.len() {
            assert(v@.skip(start as int)[0] == v@[start as int]);
        }
        assert(trim_front(v@) == v@.skip(start as int));
    }
    let mut end: usize = v.len();
    while end > start && is_ws_char(v[end - 1])
        invariant
            start <= end <= v@.len(),
            trim_front(v@) == v@.skip(start as int),
            trim_back(v@.skip(start as int)) == trim_back(v@.subrange(start as int, end as int)),
        decreases end,
    {
        proof {
            let t = v@.subrange(start as int, end as int);
            assert(t[t.len() - 1] == v@[end - 1]);
            assert(t.take(t.len() - 1) =~= v@.subrange(start as int, end - 1));
        }
        end -= 1;
    }
    proof {
        let t = v@.subrange(start as int, end as int);
        if end > start {
            assert(t[t.len() - 1] == v@[end - 1]);
        }
        assert(trim_back(t) == t);
    }
    let mut r: Vec<char> = Vec::new();
    let mut i: usize = start;
    while i < end
        invariant
            start <= i <= end <= v@.len(),
            r@ == v@.subrange(start as int, i as int),
        decreases end - i,
    {
        r.push(v[i]);
        proof {
            assert(r@ =~= v@.subrange(start as int, i + 1));
        }
        i += 1;
    }
    proof {
        assert(r@ == trim_spec(v@));
    }
    r
}

/// Whether a character is one of the whitespace characters stripped from
/// token edges.
pub fn is_ws_char(c: char) -> (r: bool)
    ensures
        r == is_rasm_ws(c),
{
    c == ' ' || c == '\t' || c == '\r' || c == '\n' || c == '\u{b}' || c == '\u{c}'
}

/// ASCII upper-casing of one character.
pub open spec fn upper_char(c: char) -> char {
    if 97 <= c as u32 && c as u32 <= 122 {
        (((c as u32) - 32) as u8) as char
    } else {
        c
    }
}

/// ASCII upper-casing of a character sequence.
pub open spec fn upper_seq(s: Seq<char>) -> Seq<char> {
    s.map_values(|c: char| upper_char(c))
}

/// ASCII upper-casing of a character vector.
pub fn to_upper(v: &Vec<char>) -> (r: Vec<char>)
    ensures
        r@ == upper_seq(v@),
{
    let mut r: Vec<char> = Vec::new();
    let mut i: usize = 0;
    while i < v.len()
        invariant
            0 <= i <= v@.len(),
            r@ == upper_seq(v@.take(i as int)),
        decreases v@.len() - i,
    {
        let c = v[i];
        let u = c as u32;
        if 97 <= u && u <= 122 {
            r.push(((u - 32) as u8) as char);
        } else {
            r.push(c);
        }
        proof {
            assert(r@ =~= upper_seq(v@.take(i + 1)));
        }
        i += 1;
    }
    proof {
        assert(v@.take(v@.len() as int) =~= v@);
    }
    r
}

/// The characters of a string, in order.
pub fn str_to_chars(s: &str) -> (r: Vec<char>)
    ensures
        r@ == s@,
{
    let n = s.unicode_len();
    let mut r: Vec<char> = Vec::new();
    let mut i: usize = 0;
    while i < n
        invariant
            0 <= i <= n,
            n == s@.len(),
            r@ == s@.take(i as int),
        decreases n - i,
    {
        r.push(s.get_char(i));
        proof {
            assert(r@ =~= s@.take(i + 1));
        }
        i += 1;
    }
    proof {
        assert(s@.take(n as int) =~= s@);
    }
    r
}

/// Whether a character vector spells exactly the given string.
pub fn chars_eq_str(v: &Vec<char>, s: &str) -> (r: bool)
    ensures
        r == (v@ == s@),
{
    let n = s.unicode_len();
    if v.len() != n {
        proof {
            assert(v@ != s@);
        }
        return false;
    }
    let mut i: usize = 0;
    while i < n
        invariant
            0 <= i <= n,
            n == s@.len() == v@.len(),
            forall|j: int| 0 <= j < i ==> v@[j] == s@[j],
        decreases n - i,
    {
        if v[i] != s.get_char(i) {
            return false;
        }
        i += 1;
    }
    proof {
        assert(v@ =~= s@);
    }
    true
}

/// Whether `p` is a prefix of `s`.
pub open spec fn has_prefix(s: Seq<char>, p: Seq<char>) -> bool {
    p.len() <= s.len() && s.take(p.len() as int) == p
}

/// Whether the character vector starts with the given string.
pub fn starts_with_str(v: &Vec<char>, s: &str) -> (r: bool)
    ensures
        r == has_prefix(v@, s@),
{
    let n = s.unicode_len();
    if v.len() < n {
        proof {
            assert(!has_prefix(v@, s@));
        }
        return false;
    }
    let mut i: usize = 0;
    while i < n
        invariant
            0 <= i <= n,
            n == s@.len() <= v@.len(),
            forall|j: int| 0 <= j < i ==> v@[j] == s@[j],
        decreases n - i,
    {
        if v[i] != s.get_char(i) {
            proof {
                assert(v@.take(s@.len() as int)[i as int] != s@[i as int]);
            }
            return false;
        }
        i += 1;
    }
    proof {
        assert(v@.take(s@.len() as int) =~= s@);
    }
    true
}

/// Whether `p` occurs as a contiguous substring of `s`.
pub open spec fn has_substring(s: Seq<char>, p: Seq<char>) -> bool {
    exists|i: int|
        0 <= i <= s.len() - p.len() && #[trigger] s.subrange(i, i + p.len() as int) == p
}

/// Whether the string occurs in the character vector starting at `i`.
fn matches_at(v: &Vec<char>, s: &str, i: usize) -> (r: bool)
    requires
        i + s@.len() <= v@.len(),
    ensures
        r == (v@.subrange(i as int, i + s@.len() as int) == s@),
{
    let n = s.unicode_len();
    let vlen = v.len();
    let mut j: usize = 0;
    while j < n
        invariant
            0 <= j <= n,
            n == s@.len(),
            vlen == v@.len(),
            i + n <= v@.len(),
            forall|l: int| 0 <= l < j ==> v@[i + l] == s@[l],
        decreases n - j,
    {
        if v[i + j] != s.get_char(j) {
            proof {
                assert(v@.subrange(i as int, i + s@.len() as int)[j as int] != s@[j as int]);
            }
            return false;
        }
        j += 1;
    }
    proof {
        assert(v@.subrange(i as int, i + s@.len() as int) =~= s@);
    }
    true
}

/// Whether the character vector contains the given string.
pub fn contains_str(v: &Vec<char>, s: &str) -> (r: bool)
    ensures
        r == has_substring(v@, s@),
{
    let n = s.unicode_len();
    if v.len() < n {
        proof {
            assert(!has_substring(v@, s@));
        }
        return false;
    }
    if n == 0 {
        proof {
            assert(v@.subrange(0, 0 + s@.len() as int) =~= s@);
        }
        return true;
    }
    let vlen = v.len();
    let mut i: usize = 0;
    while i <= vlen - n
        invariant
            0 <= i,
            vlen == v@.len(),
            n == s@.len() <= v@.len(),
            n >= 1,
            i <= v@.len() - n + 1,
            forall|k: int| 0 <= k < i ==> #[trigger] v@.subrange(k, k + s@.len() as int) != s@,
        decreases v@.len() - n - i + 1,
    {
        if matches_at(v, s, i) {
            return true;
        }
        i += 1;
    }
    proof {
        assert(!has_substring(v@, s@));
    }
    false
}

/// Append the characters of a string to a character vector.
pub fn append_str(v: &mut Vec<char>, s: &str)
    ensures
        final(v)@ == old(v)@ + s@,
{
    let n = s.unicode_len();
    let mut i: usize = 0;
    while i < n
        invariant
            0 <= i <= n,
            n == s@.len(),
            v@ == old(v)@ + s@.take(i as int),
        decreases n - i,
    {
        v.push(s.get_char(i));
        proof {
            assert(v@ =~= old(v)@ + s@.take(i + 1));
        }
        i += 1;
    }
    proof {
        assert(old(v)@ + s@.take(n as int) =~= old(v)@ + s@);
    }
}

/// A copy of a character vector.
pub fn copy_chars(v: &Vec<char>) -> (r: Vec<char>)
    ensures
        r@ == v@,
{
    let mut r: Vec<char> = Vec::new();
    let mut i: usize = 0;
    while i < v.len()
        invariant
            0 <= i <= v@.len(),
            r@ == v@.take(i as int),
        decreases v@.len() - i,
    {
        r.push(v[i]);
        proof {
            assert(r@ =~= v@.take(i + 1));
        }
        i += 1;
    }
    proof {
        assert(v@.take(v@.len() as int) =~= v@);
    }
    r
}

/// The vector with its first character removed.
pub fn tail_chars(v: &Vec<char>) -> (r: Vec<char>)
    requires
        v@.len() >= 1,
    ensures
        r@ == v@.skip(1),
{
    let mut r: Vec<char> = Vec::new();
    let mut i: usize = 1;
    while i < v.len()
        invariant
            1 <= i <= v@.len(),
            r@ == v@.subrange(1, i as int),
        decreases v@.len() - i,
    {
        r.push(v[i]);
        proof {
            assert(r@ =~= v@.subrange(1, i + 1));
        }
        i += 1;
    }
    proof {
        assert(r@ =~= v@.skip(1));
    }
    r
}

/// Whether two character vectors hold the same characters.
pub fn chars_eq(a: &Vec<char>, b: &Vec<char>) -> (r: bool)
    ensures
        r == (a@ == b@),
{
    if a.len() != b.len() {
        proof {
            assert(a@ != b@);
        }
        return false;
    }
    let mut i: usize = 0;
    while i < a.len()
        invariant
            0 <= i <= a@.len(),
            a@.len() == b@.len(),
            forall|j: int| 0 <= j < i ==> a@[j] == b@[j],
        decreases a@.len() - i,
    {
        if a[i] != b[i] {
            return false;
        }
        i += 1;
    }
    proof {
        assert(a@ =~= b@);
    }
    true
}

} // verus!
