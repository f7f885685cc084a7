//! The tokenizer. `spec_tokenize` is the lexical grammar: given one physical
//! line and the previous line's indentation depth, it yields the line's token
//! sequence (prefixed with at most one absolute-depth indentation marker) and
//! the line's own depth, or the unconsumed remainder on a lexical error.
//! `tokenize` computes exactly that function. Rules are tried longest-match
//! first in a fixed priority order, as the grammar prescribes.
use crate::rational::{RatV, Rat};
use crate::types::{Error, ErrorV, TokV, Token};
use vstd::prelude::*;
use vstd::string::StrSliceExecFns;

verus! {

broadcast use {vstd::std_specs::vec::group_vec_axioms, vstd::seq::group_seq_axioms};

// ---------------------------------------------------------------------------
// Character classes of the grammar.
// ---------------------------------------------------------------------------
/// The whitespace characters (the grammar's space class): the Unicode
/// white-space set.
pub open spec fn is_space(c: char) -> bool {
    c == ' ' || c == '\t' || c == '\n' || c == '\u{000B}' || c == '\u{000C}' || c == '\r' || c
        == '\u{0085}' || c == '\u{00A0}' || c == '\u{1680}' || ('\u{2000}' <= c && c
        <= '\u{200A}') || c == '\u{2028}' || c == '\u{2029}' || c == '\u{202F}' || c
        == '\u{205F}' || c == '\u{3000}'
}

pub open spec fn is_digit(c: char) -> bool {
    '0' <= c && c <= '9'
}

/// A character that may begin an identifier.
pub open spec fn is_ident_start(c: char) -> bool {
    ('a' <= c && c <= 'z') || ('A' <= c && c <= 'Z') || c == '_'
}

/// A character that may continue an identifier.
pub open spec fn is_ident_char(c: char) -> bool {
    is_ident_start(c) || is_digit(c)
}

// ---------------------------------------------------------------------------
// Longest-match runs.
// ---------------------------------------------------------------------------
/// The end of the whitespace run starting at `i`.
pub open spec fn spaces_end(s: Seq<char>, i: int) -> int
    decreases s.len() - i,
{
    if i < 0 || i >= s.len() || !is_space(s[i]) {
        i
    } else {
        spaces_end(s, i + 1)
    }
}

/// The end of the digit run starting at `i`.
pub open spec fn digits_end(s: Seq<char>, i: int) -> int
    decreases s.len() - i,
{
    if i < 0 || i >= s.len() || !is_digit(s[i]) {
        i
    } else {
        digits_end(s, i + 1)
    }
}

/// The end of the identifier-character run starting at `i`.
pub open spec fn ident_end(s: Seq<char>, i: int) -> int
    decreases s.len() - i,
{
    if i < 0 || i >= s.len() || !is_ident_char(s[i]) {
        i
    } else {
        ident_end(s, i + 1)
    }
}

/// The first position at or after `i` holding a double quote.
pub open spec fn dq_end(s: Seq<char>, i: int) -> int
    decreases s.len() - i,
{
    if i < 0 || i >= s.len() || s[i] == '"' {
        i
    } else {
        dq_end(s, i + 1)
    }
}

/// The first position at or after `i` holding a quote of either kind.
pub open spec fn sq_end(s: Seq<char>, i: int) -> int
    decreases s.len() - i,
{
    if i < 0 || i >= s.len() || s[i] == '"' || s[i] == '\'' {
        i
    } else {
        sq_end(s, i + 1)
    }
}

proof fn lemma_digits_end_bounds(s: Seq<char>, i: int)
    requires
        0 <= i <= s.len(),
    ensures
        i <= digits_end(s, i) <= s.len(),
    decreases s.len() - i,
{
    if i < s.len() && is_digit(s[i]) {
        lemma_digits_end_bounds(s, i + 1);
    }
}

proof fn lemma_ident_end_bounds(s: Seq<char>, i: int)
    requires
        0 <= i <= s.len(),
    ensures
        i <= ident_end(s, i) <= s.len(),
    decreases s.len() - i,
{
    if i < s.len() && is_ident_char(s[i]) {
        lemma_ident_end_bounds(s, i + 1);
    }
}

proof fn lemma_dq_end_bounds(s: Seq<char>, i: int)
    requires
        0 <= i <= s.len(),
    ensures
        i <= dq_end(s, i) <= s.len(),
    decreases s.len() - i,
{
    if i < s.len() && s[i] != '"' {
        lemma_dq_end_bounds(s, i + 1);
    }
}

proof fn lemma_sq_end_bounds(s: Seq<char>, i: int)
    requires
        0 <= i <= s.len(),
    ensures
        i <= sq_end(s, i) <= s.len(),
    decreases s.len() - i,
{
    if i < s.len() && s[i] != '"' && s[i] != '\'' {
        lemma_sq_end_bounds(s, i + 1);
    }
}

// ---------------------------------------------------------------------------
// Numeric literal values.
// ---------------------------------------------------------------------------
/// The value of the decimal digits `s[i..j)`.
pub open spec fn digits_val(s: Seq<char>, i: int, j: int) -> int
    decreases j - i,
{
    if j <= i {
        0
    } else {
        digits_val(s, i, j - 1) * 10 + (s[j - 1] as int - '0' as int)
    }
}

/// Ten to the `k`.
pub open spec fn pow10(k: int) -> int
    decreases k,
{
    if k <= 0 {
        1
    } else {
        10 * pow10(k - 1)
    }
}

proof fn lemma_digits_val_nonneg(s: Seq<char>, i: int, j: int)
    requires
        forall|k: int| i <= k < j ==> is_digit(s[k]),
    ensures
        digits_val(s, i, j) >= 0,
    decreases j - i,
{
    if j > i {
        lemma_digits_val_nonneg(s, i, j - 1);
        assert(s[j - 1] as int - '0' as int >= 0);
        assert(digits_val(s, i, j - 1) * 10 >= 0) by (nonlinear_arith)
            requires
                digits_val(s, i, j - 1) >= 0,
        ;
    }
}

proof fn lemma_pow10_pos(k: int)
    ensures
        pow10(k) >= 1,
    decreases k,
{
    if k > 0 {
        lemma_pow10_pos(k - 1);
    }
}

// ---------------------------------------------------------------------------
// One scanning step.
// ---------------------------------------------------------------------------
/// Outcome of one scanning step at a position inside the line: the tokens the
/// step emits and the position after it, or a failure at that position.
pub ghost enum ScanStep {
    Toks(Seq<TokV>, int),
    Fail,
}

/// Whether a float literal (digits, a dot, then at least one digit) begins at
/// `i`.
pub open spec fn float_match(s: Seq<char>, i: int) -> bool {
    let d1 = digits_end(s, i);
    d1 < s.len() && s[d1] == '.' && digits_end(s, d1 + 1) > d1 + 1
}

/// The exact value of the float literal beginning at `i`, as a fraction whose
/// denominator is the power of ten of the fractional digit count.
pub open spec fn float_val(s: Seq<char>, i: int) -> RatV {
    let d1 = digits_end(s, i);
    let d2 = digits_end(s, d1 + 1);
    let den = pow10(d2 - d1 - 1);
    RatV { num: digits_val(s, i, d1) * den + digits_val(s, d1 + 1, d2), den: den }
}

/// The position after the float literal beginning at `i`.
pub open spec fn float_end(s: Seq<char>, i: int) -> int {
    digits_end(s, digits_end(s, i) + 1)
}

/// Whether this exact value fits the machine representation of fractions.
pub open spec fn float_fits(s: Seq<char>, i: int) -> bool {
    float_val(s, i).num <= i64::MAX && float_val(s, i).den <= i64::MAX
}

/// The keyword or name token for the word `w`.
pub open spec fn keyword_of(w: Seq<char>) -> TokV {
    if w == seq!['T', 'r', 'u', 'e'] {
        TokV::TokBool(true)
    } else if w == seq!['F', 'a', 'l', 's', 'e'] {
        TokV::TokBool(false)
    } else if w == seq!['a', 'n', 'd'] {
        TokV::TokAnd
    } else if w == seq!['o', 'r'] {
        TokV::TokOr
    } else if w == seq!['n', 'o', 't'] {
        TokV::TokNot
    } else if w == seq!['i', 'f'] {
        TokV::TokIf
    } else if w == seq!['e', 'l', 'i', 'f'] {
        TokV::TokElif
    } else if w == seq!['e', 'l', 's', 'e'] {
        TokV::TokElse
    } else if w == seq!['d', 'e', 'f'] {
        TokV::TokDef
    } else if w == seq!['r', 'e', 't', 'u', 'r', 'n'] {
        TokV::TokReturn
    } else {
        TokV::TokVar(w)
    }
}

/// One scanning step at position `i` (with `0 <= i < s.len()`): the rules of
/// the grammar in priority order. A numeric literal whose exact value leaves
/// machine range fails rather than rounding.
pub open spec fn spec_step(s: Seq<char>, i: int) -> ScanStep {
    if is_space(s[i]) {
        ScanStep::Toks(seq![], i + 1)
    } else if float_match(s, i) {
        if float_fits(s, i) {
            ScanStep::Toks(seq![TokV::TokFloat(float_val(s, i))], float_end(s, i))
        } else {
            ScanStep::Fail
        }
    } else if s[i] == '-' && float_match(s, i + 1) {
        if float_fits(s, i + 1) {
            ScanStep::Toks(
                seq![TokV::TokUnaryMinus, TokV::TokFloat(float_val(s, i + 1))],
                float_end(s, i + 1),
            )
        } else {
            ScanStep::Fail
        }
    } else if digits_end(s, i) > i {
        if digits_val(s, i, digits_end(s, i)) <= i64::MAX {
            ScanStep::Toks(
                seq![TokV::TokInt(digits_val(s, i, digits_end(s, i)))],
                digits_end(s, i),
            )
        } else {
            ScanStep::Fail
        }
    } else if s[i] == '-' && digits_end(s, i + 1) > i + 1 {
        if digits_val(s, i + 1, digits_end(s, i + 1)) <= i64::MAX {
            ScanStep::Toks(
                seq![TokV::TokUnaryMinus, TokV::TokInt(digits_val(s, i + 1, digits_end(s, i + 1)))],
                digits_end(s, i + 1),
            )
        } else {
            ScanStep::Fail
        }
    } else if s[i] == '"' && dq_end(s, i + 1) < s.len() {
        ScanStep::Toks(
            seq![TokV::TokString(s.subrange(i + 1, dq_end(s, i + 1)))],
            dq_end(s, i + 1) + 1,
        )
    } else if s[i] == '\'' && sq_end(s, i + 1) < s.len() && s[sq_end(s, i + 1)] == '\'' {
        ScanStep::Toks(
            seq![TokV::TokString(s.subrange(i + 1, sq_end(s, i + 1)))],
            sq_end(s, i + 1) + 1,
        )
    } else if s[i] == '+' {
        ScanStep::Toks(seq![TokV::TokPlus], i + 1)
    } else if s[i] == '-' {
        ScanStep::Toks(seq![TokV::TokMinus], i + 1)
    } else if s[i] == '*' {
        ScanStep::Toks(seq![TokV::TokMult], i + 1)
    } else if s[i] == '/' {
        ScanStep::Toks(seq![TokV::TokDiv], i + 1)
    } else if s[i] == '(' {
        ScanStep::Toks(seq![TokV::TokLParen], i + 1)
    } else if s[i] == ')' {
        ScanStep::Toks(seq![TokV::TokRParen], i + 1)
    } else if s[i] == '=' && i + 1 < s.len() && s[i + 1] == '=' {
        ScanStep::Toks(seq![TokV::TokDoubleEqual], i + 2)
    } else if s[i] == '!' && i + 1 < s.len() && s[i + 1] == '=' {
        ScanStep::Toks(seq![TokV::TokNotEqual], i + 2)
    } else if s[i] == '<' && i + 1 < s.len() && s[i + 1] == '=' {
        ScanStep::Toks(seq![TokV::TokLessEqual], i + 2)
    } else if s[i] == '>' && i + 1 < s.len() && s[i + 1] == '=' {
        ScanStep::Toks(seq![TokV::TokGreaterEqual], i + 2)
    } else if s[i] == '<' {
        ScanStep::Toks(seq![TokV::TokLess], i + 1)
    } else if s[i] == '>' {
        ScanStep::Toks(seq![TokV::TokGreater], i + 1)
    } else if s[i] == '=' {
        ScanStep::Toks(seq![TokV::TokAssign], i + 1)
    } else if s[i] == ':' {
        ScanStep::Toks(seq![TokV::TokColon], i + 1)
    } else if s[i] == ',' {
        ScanStep::Toks(seq![TokV::TokComma], i + 1)
    } else if is_ident_start(s[i]) {
        ScanStep::Toks(seq![keyword_of(s.subrange(i, ident_end(s, i)))], ident_end(s, i))
    } else {
        ScanStep::Fail
    }
}

/// Every successful step advances.
proof fn lemma_step_advances(s: Seq<char>, i: int)
    requires
        0 <= i < s.len(),
    ensures
        match spec_step(s, i) {
            ScanStep::Toks(_, j) => i < j <= s.len(),
            ScanStep::Fail => true,
        },
{
    lemma_digits_end_bounds(s, i);
    if digits_end(s, i) + 1 <= s.len() {
        lemma_digits_end_bounds(s, digits_end(s, i) + 1);
    }
    if i + 1 <= s.len() {
        lemma_digits_end_bounds(s, i + 1);
        lemma_dq_end_bounds(s, i + 1);
        lemma_sq_end_bounds(s, i + 1);
        lemma_ident_end_bounds(s, i + 1);
        if digits_end(s, i + 1) + 1 <= s.len() {
            lemma_digits_end_bounds(s, digits_end(s, i + 1) + 1);
        }
    }
    lemma_ident_end_bounds(s, i);
}

// ---------------------------------------------------------------------------
// The scan and the whole line.
// ---------------------------------------------------------------------------
/// The token sequence of `s` from position `i` on, or the unconsumed
/// remainder on failure.
pub open spec fn spec_scan(s: Seq<char>, i: int) -> Result<Seq<TokV>, Seq<char>>
    decreases s.len() - i,
    when 0 <= i
    via spec_scan_decreases
{
    if i >= s.len() {
        Ok(seq![])
    } else {
        match spec_step(s, i) {
            ScanStep::Fail => Err(s.skip(i)),
            ScanStep::Toks(ts, j) => match spec_scan(s, j) {
                Ok(rest) => Ok(ts + rest),
                Err(e) => Err(e),
            },
        }
    }
}

#[via_fn]
proof fn spec_scan_decreases(s: Seq<char>, i: int) {
    if 0 <= i < s.len() {
        lemma_step_advances(s, i);
    }
}

/// The tokens and indentation depth of one physical line, given the previous
/// line's depth. The line's depth is its count of leading whitespace
/// characters, less one when nothing follows them, so a blank line never
/// produces a spurious indent. A line longer than the largest representable
/// depth is refused.
#[verifier::opaque]
pub open spec fn spec_tokenize(s: Seq<char>, prev: int) -> Result<(Seq<TokV>, int), Seq<char>> {
    if s.len() > i32::MAX {
        Err(s)
    } else {
        let w = spaces_end(s, 0);
        let this = if w == s.len() {
            w - 1
        } else {
            w
        };
        let marker: Seq<TokV> = if this > prev {
            seq![TokV::TokIndent(this)]
        } else if this < prev {
            seq![TokV::TokDedent(this)]
        } else {
            seq![]
        };
        match spec_scan(s, w) {
            Ok(ts) => Ok((marker + ts, this)),
            Err(e) => Err(e),
        }
    }
}

// ---------------------------------------------------------------------------
// Executable scanning.
// ---------------------------------------------------------------------------
/// The characters of a line, in order.
fn chars_of(input: &str) -> (r: Vec<char>)
    ensures
        r@ == input@,
{
    let n = input.unicode_len();
    let mut out: Vec<char> = Vec::new();
    let mut i: usize = 0;
    while i < n
        invariant
            i <= n,
            n == input@.len(),
            out@.len() == i as int,
            forall|j: int| 0 <= j < i as int ==> out@[j] == input@[j],
        decreases n - i,
    {
        let c = input.get_char(i);
        out.push(c);
        i = i + 1;
    }
    proof {
        assert(out@ =~= input@);
    }
    out
}

fn space_c(c: char) -> (b: bool)
    ensures
        b == is_space(c),
{
    c == ' ' || c == '\t' || c == '\n' || c == '\u{000B}' || c == '\u{000C}' || c == '\r' || c
        == '\u{0085}' || c == '\u{00A0}' || c == '\u{1680}' || ('\u{2000}' <= c && c
        <= '\u{200A}') || c == '\u{2028}' || c == '\u{2029}' || c == '\u{202F}' || c
        == '\u{205F}' || c == '\u{3000}'
}

fn digit_c(c: char) -> (b: bool)
    ensures
        b == is_digit(c),
{
    '0' <= c && c <= '9'
}

fn ident_start_c(c: char) -> (b: bool)
    ensures
        b == is_ident_start(c),
{
    ('a' <= c && c <= 'z') || ('A' <= c && c <= 'Z') || c == '_'
}

fn ident_c(c: char) -> (b: bool)
    ensures
        b == is_ident_char(c),
{
    ident_start_c(c) || digit_c(c)
}

/// The end of the whitespace run starting at `i`.
fn scan_spaces(chars: &Vec<char>, i: usize) -> (j: usize)
    requires
        i <= chars@.len(),
    ensures
        j as int == spaces_end(chars@, i as int),
        i <= j <= chars@.len(),
{
    let n = chars.len();
    let mut j = i;
    while j < n && space_c(chars[j])
        invariant
            i <= j <= n,
            n == chars@.len(),
            spaces_end(chars@, i as int) == spaces_end(chars@, j as int),
        decreases n - j,
    {
        j = j + 1;
    }
    j
}

/// The end of the digit run starting at `i`.
fn scan_digits(chars: &Vec<char>, i: usize) -> (j: usize)
    requires
        i <= chars@.len(),
    ensures
        j as int == digits_end(chars@, i as int),
        i <= j <= chars@.len(),
{
    let n = chars.len();
    let mut j = i;
    while j < n && digit_c(chars[j])
        invariant
            i <= j <= n,
            n == chars@.len(),
            digits_end(chars@, i as int) == digits_end(chars@, j as int),
        decreases n - j,
    {
        j = j + 1;
    }
    j
}

/// The end of the identifier run starting at `i`.
fn scan_ident(chars: &Vec<char>, i: usize) -> (j: usize)
    requires
        i <= chars@.len(),
    ensures
        j as int == ident_end(chars@, i as int),
        i <= j <= chars@.len(),
{
    let n = chars.len();
    let mut j = i;
    while j < n && ident_c(chars[j])
        invariant
            i <= j <= n,
            n == chars@.len(),
            ident_end(chars@, i as int) == ident_end(chars@, j as int),
        decreases n - j,
    {
        j = j + 1;
    }
    j
}

/// The first double quote at or after `i`.
fn scan_dq(chars: &Vec<char>, i: usize) -> (j: usize)
    requires
        i <= chars@.len(),
    ensures
        j as int == dq_end(chars@, i as int),
        i <= j <= chars@.len(),
{
    let n = chars.len();
    let mut j = i;
    while j < n && chars[j] != '"'
        invariant
            i <= j <= n,
            n == chars@.len(),
            dq_end(chars@, i as int) == dq_end(chars@, j as int),
        decreases n - j,
    {
        j = j + 1;
    }
    j
}

/// The first quote of either kind at or after `i`.
fn scan_sq(chars: &Vec<char>, i: usize) -> (j: usize)
    requires
        i <= chars@.len(),
    ensures
        j as int == sq_end(chars@, i as int),
        i <= j <= chars@.len(),
{
    let n = chars.len();
    let mut j = i;
    while j < n && chars[j] != '"' && chars[j] != '\''
        invariant
            i <= j <= n,
            n == chars@.len(),
            sq_end(chars@, i as int) == sq_end(chars@, j as int),
        decreases n - j,
    {
        j = j + 1;
    }
    j
}

proof fn lemma_digits_end_range(s: Seq<char>, i: int)
    requires
        0 <= i <= s.len(),
    ensures
        forall|k: int| i <= k < digits_end(s, i) ==> is_digit(s[k]),
    decreases s.len() - i,
{
    if i < s.len() && is_digit(s[i]) {
        lemma_digits_end_range(s, i + 1);
        lemma_digits_end_bounds(s, i + 1);
    }
}

/// The value of the digits `s[i..j)`, or `None` when it exceeds the largest
/// machine integer.
fn digits_value(chars: &Vec<char>, i: usize, j: usize) -> (r: Option<i64>)
    requires
        i <= j <= chars@.len(),
        forall|k: int| i as int <= k < j as int ==> is_digit(chars@[k]),
    ensures
        match r {
            Some(v) => 0 <= v && v as int == digits_val(chars@, i as int, j as int),
            None => digits_val(chars@, i as int, j as int) > i64::MAX,
        },
{
    let ghost s = chars@;
    let mut acc: Option<i64> = Some(0i64);
    let mut k = i;
    while k < j
        invariant
            i <= k <= j <= s.len(),
            s == chars@,
            forall|t: int| i as int <= t < j as int ==> is_digit(s[t]),
            match acc {
                Some(a) => 0 <= a && a as int == digits_val(s, i as int, k as int),
                None => digits_val(s, i as int, k as int) > i64::MAX,
            },
        decreases j - k,
    {
        let d: i64 = (chars[k] as u32 as i64) - ('0' as u32 as i64);
        proof {
            assert(is_digit(s[k as int]));
            assert(d as int == s[k as int] as int - '0' as int);
            assert(0 <= d <= 9);
        }
        acc = match acc {
            Some(a) => {
                proof {
                    assert(digits_val(s, i as int, k as int + 1) == a as int * 10 + d as int);
                }
                match a.checked_mul(10) {
                    Some(m) => match m.checked_add(d) {
                        Some(v) => Some(v),
                        None => None,
                    },
                    None => {
                        proof {
                            assert(a as int * 10 + d as int > i64::MAX);
                        }
                        None
                    },
                }
            },
            None => {
                proof {
                    let v = digits_val(s, i as int, k as int);
                    assert(v * 10 >= v) by (nonlinear_arith)
                        requires
                            v >= 0,
                    ;
                    assert(digits_val(s, i as int, k as int + 1) >= v);
                }
                None
            },
        };
        k = k + 1;
    }
    acc
}

/// Ten to the `k`, or `None` when it exceeds the largest machine integer.
fn pow10_checked(k: usize) -> (r: Option<i64>)
    ensures
        match r {
            Some(v) => 1 <= v && v as int == pow10(k as int),
            None => pow10(k as int) > i64::MAX,
        },
{
    let mut acc: Option<i64> = Some(1i64);
    let mut t: usize = 0;
    while t < k
        invariant
            t <= k,
            match acc {
                Some(a) => 1 <= a && a as int == pow10(t as int),
                None => pow10(t as int) > i64::MAX,
            },
        decreases k - t,
    {
        acc = match acc {
            Some(a) => match a.checked_mul(10) {
                Some(v) => Some(v),
                None => None,
            },
            None => {
                proof {
                    let v = pow10(t as int);
                    assert(10 * v >= v) by (nonlinear_arith)
                        requires
                            v >= 0,
                    ;
                }
                None
            },
        };
        t = t + 1;
    }
    acc
}

/// The exact fraction of the float literal at `i`, or `None` when it leaves
/// machine range. `d1` and `d2` delimit its integer and fractional digits.
fn float_value(chars: &Vec<char>, i: usize, d1: usize, d2: usize) -> (r: Option<Rat>)
    requires
        i <= chars@.len(),
        d1 as int == digits_end(chars@, i as int),
        d1 + 1 <= chars@.len(),
        d2 as int == digits_end(chars@, d1 as int + 1),
        d2 > d1 + 1,
    ensures
        match r {
            Some(c) => float_fits(chars@, i as int) && c@ == float_val(chars@, i as int),
            None => !float_fits(chars@, i as int),
        },
{
    let ghost s = chars@;
    proof {
        lemma_digits_end_bounds(s, i as int);
        lemma_digits_end_bounds(s, d1 as int + 1);
        lemma_digits_end_range(s, i as int);
        lemma_digits_end_range(s, d1 as int + 1);
        lemma_digits_val_nonneg(s, i as int, d1 as int);
        lemma_digits_val_nonneg(s, d1 as int + 1, d2 as int);
        lemma_pow10_pos(d2 as int - d1 as int - 1);
    }
    let k = d2 - d1 - 1;
    let den = match pow10_checked(k) {
        Some(den) => den,
        None => {
            return None;
        },
    };
    let intpart = match digits_value(chars, i, d1) {
        Some(a) => a,
        None => {
            proof {
                let a = digits_val(s, i as int, d1 as int);
                let dn = pow10(d2 as int - d1 as int - 1);
                assert(a * dn >= a) by (nonlinear_arith)
                    requires
                        a >= 0,
                        dn >= 1,
                ;
            }
            return None;
        },
    };
    let frac = match digits_value(chars, d1 + 1, d2) {
        Some(f) => f,
        None => {
            proof {
                let a = digits_val(s, i as int, d1 as int);
                let dn = pow10(d2 as int - d1 as int - 1);
                assert(a * dn >= 0) by (nonlinear_arith)
                    requires
                        a >= 0,
                        dn >= 1,
                ;
            }
            return None;
        },
    };
    proof {
        assert(intpart as i128 * den as i128 <= 0x7fff_ffff_ffff_ffff * 0x7fff_ffff_ffff_ffff
            && intpart as i128 * den as i128 >= 0) by (nonlinear_arith)
            requires
                0 <= intpart as i128 <= 0x7fff_ffff_ffff_ffff,
                0 <= den as i128 <= 0x7fff_ffff_ffff_ffff,
        ;
    }
    let total: i128 = (intpart as i128) * (den as i128) + (frac as i128);
    if total <= i64::MAX as i128 {
        Some(Rat::new(total as i64, den))
    } else {
        None
    }
}

/// The keyword or name token for the word `chars[i..j)`, sliced out of the
/// line.
fn classify_word(input: &str, chars: &Vec<char>, i: usize, j: usize) -> (r: Token)
    requires
        chars@ == input@,
        i < j <= chars@.len(),
    ensures
        r@ == keyword_of(input@.subrange(i as int, j as int)),
{
    let ghost w = input@.subrange(i as int, j as int);
    let len = j - i;
    if len == 2 && chars[i] == 'i' && chars[i + 1] == 'f' {
        proof {
            assert(w =~= seq!['i', 'f']);
        }
        Token::TokIf
    } else if len == 2 && chars[i] == 'o' && chars[i + 1] == 'r' {
        proof {
            assert(w =~= seq!['o', 'r']);
        }
        Token::TokOr
    } else if len == 3 && chars[i] == 'a' && chars[i + 1] == 'n' && chars[i + 2] == 'd' {
        proof {
            assert(w =~= seq!['a', 'n', 'd']);
        }
        Token::TokAnd
    } else if len == 3 && chars[i] == 'n' && chars[i + 1] == 'o' && chars[i + 2] == 't' {
        proof {
            assert(w =~= seq!['n', 'o', 't']);
        }
        Token::TokNot
    } else if len == 3 && chars[i] == 'd' && chars[i + 1] == 'e' && chars[i + 2] == 'f' {
        proof {
            assert(w =~= seq!['d', 'e', 'f']);
        }
        Token::TokDef
    } else if len == 4 && chars[i] == 'T' && chars[i + 1] == 'r' && chars[i + 2] == 'u' && chars[i
        + 3] == 'e' {
        proof {
            assert(w =~= seq!['T', 'r', 'u', 'e']);
        }
        Token::TokBool(true)
    } else if len == 4 && chars[i] == 'e' && chars[i + 1] == 'l' && chars[i + 2] == 'i' && chars[i
        + 3] == 'f' {
        proof {
            assert(w =~= seq!['e', 'l', 'i', 'f']);
        }
        Token::TokElif
    } else if len == 4 && chars[i] == 'e' && chars[i + 1] == 'l' && chars[i + 2] == 's' && chars[i
        + 3] == 'e' {
        proof {
            assert(w =~= seq!['e', 'l', 's', 'e']);
        }
        Token::TokElse
    } else if len == 5 && chars[i] == 'F' && chars[i + 1] == 'a' && chars[i + 2] == 'l' && chars[i
        + 3] == 's' && chars[i + 4] == 'e' {
        proof {
            assert(w =~= seq!['F', 'a', 'l', 's', 'e']);
        }
        Token::TokBool(false)
    } else if len == 6 && chars[i] == 'r' && chars[i + 1] == 'e' && chars[i + 2] == 't' && chars[i
        + 3] == 'u' && chars[i + 4] == 'r' && chars[i + 5] == 'n' {
        proof {
            assert(w =~= seq!['r', 'e', 't', 'u', 'r', 'n']);
        }
        Token::TokReturn
    } else {
        let word = input.substring_char(i, j).to_owned();
        proof {
            assert(w.len() == len as int);
            assert(forall|t: int| 0 <= t < w.len() ==> w[t] == chars@[i as int + t]);
        }
        Token::TokVar(word)
    }
}

/// Pushes one token, extending the token list's view.
fn push_tok(tokens: &mut Vec<Token>, t: Token)
    ensures
        final (tokens).deep_view() == old(tokens).deep_view() + seq![t@],
{
    let ghost before = tokens.deep_view();
    let ghost tv = t@;
    tokens.push(t);
    proof {
        assert(tokens.deep_view() =~= before + seq![tv]);
    }
}

/// One scanning step at `i`: emits the step's tokens and returns the position
/// after it, or `None` at a lexical error.
fn step(input: &str, chars: &Vec<char>, i: usize, tokens: &mut Vec<Token>) -> (r: Option<usize>)
    requires
        chars@ == input@,
        i < chars@.len(),
    ensures
        ({
            match spec_step(chars@, i as int) {
                ScanStep::Toks(ts, j) => (r matches Some(jj) && jj as int == j) && final (tokens).deep_view() == old(tokens).deep_view() + ts,
                ScanStep::Fail => r is None && final (tokens)@ == old(tokens)@,
            }
        }),
{
    let ghost s = chars@;
    let n = chars.len();
    let c = chars[i];
    if space_c(c) {
        proof {
            assert(tokens.deep_view() =~= tokens.deep_view() + Seq::<TokV>::empty());
        }
        return Some(i + 1);
    }
    let d1 = scan_digits(chars, i);
    if d1 < n && chars[d1] == '.' {
        let d2 = scan_digits(chars, d1 + 1);
        if d2 > d1 + 1 {
            match float_value(chars, i, d1, d2) {
                Some(v) => {
                    push_tok(tokens, Token::TokFloat(v));
                    return Some(d2);
                },
                None => {
                    return None;
                },
            }
        }
    }
    if c == '-' {
        let e1 = scan_digits(chars, i + 1);
        if e1 < n && chars[e1] == '.' {
            let e2 = scan_digits(chars, e1 + 1);
            if e2 > e1 + 1 {
                match float_value(chars, i + 1, e1, e2) {
                    Some(v) => {
                        push_tok(tokens, Token::TokUnaryMinus);
                        push_tok(tokens, Token::TokFloat(v));
                        return Some(e2);
                    },
                    None => {
                        return None;
                    },
                }
            }
        }
    }
    if d1 > i {
        proof {
            lemma_digits_end_range(s, i as int);
        }
        match digits_value(chars, i, d1) {
            Some(v) => {
                push_tok(tokens, Token::TokInt(v));
                return Some(d1);
            },
            None => {
                return None;
            },
        }
    }
    if c == '-' {
        let e1 = scan_digits(chars, i + 1);
        if e1 > i + 1 {
            proof {
                lemma_digits_end_range(s, i as int + 1);
            }
            match digits_value(chars, i + 1, e1) {
                Some(v) => {
                    push_tok(tokens, Token::TokUnaryMinus);
                    push_tok(tokens, Token::TokInt(v));
                    return Some(e1);
                },
                None => {
                    return None;
                },
            }
        }
    }
    if c == '"' {
        let q = scan_dq(chars, i + 1);
        if q < n {
            let contents = input.substring_char(i + 1, q).to_owned();
            push_tok(tokens, Token::TokString(contents));
            return Some(q + 1);
        }
        return None;
    }
    if c == '\'' {
        let q = scan_sq(chars, i + 1);
        if q < n && chars[q] == '\'' {
            let contents = input.substring_char(i + 1, q).to_owned();
            push_tok(tokens, Token::TokString(contents));
            return Some(q + 1);
        }
        return None;
    }
    if c == '+' {
        push_tok(tokens, Token::TokPlus);
        return Some(i + 1);
    }
    if c == '-' {
        push_tok(tokens, Token::TokMinus);
        return Some(i + 1);
    }
    if c == '*' {
        push_tok(tokens, Token::TokMult);
        return Some(i + 1);
    }
    if c == '/' {
        push_tok(tokens, Token::TokDiv);
        return Some(i + 1);
    }
    if c == '(' {
        push_tok(tokens, Token::TokLParen);
        return Some(i + 1);
    }
    if c == ')' {
        push_tok(tokens, Token::TokRParen);
        return Some(i + 1);
    }
    if c == '=' && i + 1 < n && chars[i + 1] == '=' {
        push_tok(tokens, Token::TokDoubleEqual);
        return Some(i + 2);
    }
    if c == '!' && i + 1 < n && chars[i + 1] == '=' {
        push_tok(tokens, Token::TokNotEqual);
        return Some(i + 2);
    }
    if c == '<' && i + 1 < n && chars[i + 1] == '=' {
        push_tok(tokens, Token::TokLessEqual);
        return Some(i + 2);
    }
    if c == '>' && i + 1 < n && chars[i + 1] == '=' {
        push_tok(tokens, Token::TokGreaterEqual);
        return Some(i + 2);
    }
    if c == '<' {
        push_tok(tokens, Token::TokLess);
        return Some(i + 1);
    }
    if c == '>' {
        push_tok(tokens, Token::TokGreater);
        return Some(i + 1);
    }
    if c == '=' {
        push_tok(tokens, Token::TokAssign);
        return Some(i + 1);
    }
    if c == ':' {
        push_tok(tokens, Token::TokColon);
        return Some(i + 1);
    }
    if c == ',' {
        push_tok(tokens, Token::TokComma);
        return Some(i + 1);
    }
    if ident_start_c(c) {
        let j = scan_ident(chars, i);
        proof {
            lemma_ident_end_bounds(s, i as int + 1);
        }
        let t = classify_word(input, chars, i, j);
        push_tok(tokens, t);
        return Some(j);
    }
    None
}

/// Tokenizes one physical source line against the previous line's
/// indentation depth: exactly the lexical grammar `spec_tokenize`. On
/// success, the returned depth is this line's depth, to be fed to the next
/// call; on a lexical error, the error carries the unconsumed remainder.
pub fn tokenize(input: &str, prev_indent_spaces: &i32) -> (r: Result<(Vec<Token>, i32), Error>)
    ensures
        ({
            match r {
                Ok((toks, ind)) => spec_tokenize(input@, *prev_indent_spaces as int) == Ok::<
                    _,
                    Seq<char>,
                >((toks.deep_view(), ind as int)),
                Err(e) => (spec_tokenize(input@, *prev_indent_spaces as int) matches Err(rem)
                    && e@ == ErrorV::LexError(rem)),
            }
        }),
{
    proof {
        reveal(spec_tokenize);
    }
    let ghost s = input@;
    let n = input.unicode_len();
    if n > i32::MAX as usize {
        return Err(Error::LexError(input.to_owned()));
    }
    let chars = chars_of(input);
    let w = scan_spaces(&chars, 0);
    let this: i32 = if w == n {
        (w as i32) - 1
    } else {
        w as i32
    };
    let mut tokens: Vec<Token> = Vec::new();
    proof {
        assert(tokens.deep_view() =~= Seq::<TokV>::empty());
    }
    if this > *prev_indent_spaces {
        push_tok(&mut tokens, Token::TokIndent(this));
    } else if this < *prev_indent_spaces {
        push_tok(&mut tokens, Token::TokDedent(this));
    }
    let ghost marker = tokens.deep_view();
    let ghost mut done: Seq<TokV> = seq![];
    let mut i = w;
    proof {
        let p = *prev_indent_spaces as int;
        let th = this as int;
        if th > p {
            assert(marker =~= seq![TokV::TokIndent(th)]);
        } else if th < p {
            assert(marker =~= seq![TokV::TokDedent(th)]);
        } else {
            assert(marker =~= Seq::<TokV>::empty());
        }
        assert(marker + done =~= marker);
    }
    while i < n
        invariant
            w <= i <= n,
            n == s.len(),
            s == input@,
            chars@ == s,
            n <= i32::MAX as usize,
            w as int == spaces_end(s, 0),
            tokens.deep_view() == marker + done,
            spec_scan(s, w as int) == (match spec_scan(s, i as int) {
                Ok(rest) => Ok::<Seq<TokV>, Seq<char>>(done + rest),
                Err(e) => Err::<Seq<TokV>, Seq<char>>(e),
            }),
        decreases n - i,
    {
        let ghost done0 = done;
        let ghost i0 = i as int;
        match step(input, &chars, i, &mut tokens) {
            Some(j) => {
                proof {
                    lemma_step_advances(s, i0);
                    match spec_step(s, i0) {
                        ScanStep::Toks(ts, _) => {
                            done = done0 + ts;
                            assert(tokens.deep_view() =~= marker + done);
                            match spec_scan(s, j as int) {
                                Ok(rest) => {
                                    assert(done0 + (ts + rest) =~= done + rest);
                                },
                                Err(_) => {},
                            }
                        },
                        ScanStep::Fail => {},
                    }
                }
                i = j;
            },
            None => {
                let rest = input.substring_char(i, n).to_owned();
                proof {
                    reveal(spec_tokenize);
                    assert(s.subrange(i as int, n as int) =~= s.skip(i as int));
                }
                return Err(Error::LexError(rest));
            },
        }
    }
    proof {
        reveal(spec_tokenize);
        assert(done + Seq::<TokV>::empty() =~= done);
        assert(marker + done =~= tokens.deep_view());
    }
    Ok((tokens, this))
}

} // verus!
