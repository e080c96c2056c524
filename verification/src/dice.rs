//! Dice expressions: a small grammar of additive roll terms, and an
//! evaluator that rolls them and reports exactly how the total was reached.
//!
//! The grammar, applied to each `+`-separated piece of the input after
//! surrounding whitespace is dropped:
//!   - `{count}d{sides}` (or `D`): roll `count` dice of `sides` faces;
//!   - `{count}x{sides}` (or `X`): the same, but the dice explode;
//!   - `{value}`: a flat increment.
//! `count` may be omitted and defaults to 1; `sides` must be one of
//! 3, 4, 6, 8, 10, 12, 20 or 100, written without leading zeros.
use vstd::prelude::*;
use vstd::string::StrSliceExecFns;
use vstd::string::StringExecFns;

use crate::decision::Decision;
use crate::error::QuikError;
use crate::numtext::dec_str;
use crate::numtext::sat32;
use crate::numtext::sat_add;
use crate::numtext::u32_to_string;
use crate::Command;
use crate::Decider;

verus! {

/// One additive term of a dice expression.
#[derive(Debug, Clone, Copy, PartialEq, Eq, Structural)]
pub enum Roll {
    /// Roll `count` dice of `sides` faces and sum them.
    Dice(u32, u32),
    /// Like `Dice`, but a die landing on its maximum is re-rolled and the
    /// new value added, repeating while the maximum keeps recurring.
    ExplodingDice(u32, u32),
    /// A constant added to the total.
    Incr(u32),
}

/// A parsed dice expression: an ordered list of roll terms.
#[derive(Debug)]
pub struct Expr(pub Vec<Roll>);

impl View for Expr {
    type V = Seq<Roll>;

    open spec fn view(&self) -> Seq<Roll> {
        self.0@
    }
}

/// The die sizes the grammar accepts.
pub open spec fn supported_sides(s: int) -> bool {
    s == 3 || s == 4 || s == 6 || s == 8 || s == 10 || s == 12 || s == 20 || s == 100
}

/// What the parser guarantees of every term it produces.
pub open spec fn roll_wf(t: Roll) -> bool {
    match t {
        Roll::Dice(count, sides) => count >= 1 && supported_sides(sides as int),
        Roll::ExplodingDice(count, sides) => count >= 1 && supported_sides(sides as int),
        Roll::Incr(value) => value >= 1,
    }
}

impl Expr {
    /// Every term is one the parser could have produced, and there is at
    /// least one of them.
    pub open spec fn wf(&self) -> bool {
        self@.len() >= 1 && forall|i: int| 0 <= i < self@.len() ==> roll_wf(self@[i])
    }
}

// ---------------------------------------------------------------------------
// The grammar, as spec functions over sequences of characters.
// ---------------------------------------------------------------------------
/// The whitespace the parser ignores around a term.
pub open spec fn is_space(c: char) -> bool {
    c == ' ' || c == '\t' || c == '\n' || c == '\r' || c == '\u{b}' || c == '\u{c}'
}

/// A decimal digit.
pub open spec fn is_digit(c: char) -> bool {
    48 <= c as u32 <= 57
}

/// The numeric value of a single digit character.
pub open spec fn char_digit(c: char) -> int {
    c as u32 - 48
}

/// The number a string of digits denotes.
pub open spec fn digits_val(s: Seq<char>) -> int
    decreases s.len(),
{
    if s.len() == 0 {
        0
    } else {
        digits_val(s.drop_last()) * 10 + char_digit(s.last())
    }
}

/// The length of the longest digit prefix of `s`.
pub open spec fn digits_len(s: Seq<char>) -> int
    decreases s.len(),
{
    if s.len() > 0 && is_digit(s[0]) {
        1 + digits_len(s.drop_first())
    } else {
        0
    }
}

/// `s` without its leading whitespace.
pub open spec fn trim_front(s: Seq<char>) -> Seq<char>
    decreases s.len(),
{
    if s.len() > 0 && is_space(s[0]) {
        trim_front(s.drop_first())
    } else {
        s
    }
}

/// `s` without its trailing whitespace.
pub open spec fn trim_back(s: Seq<char>) -> Seq<char>
    decreases s.len(),
{
    if s.len() > 0 && is_space(s.last()) {
        trim_back(s.drop_last())
    } else {
        s
    }
}

/// `s` without leading or trailing whitespace.
pub open spec fn trimmed(s: Seq<char>) -> Seq<char> {
    trim_back(trim_front(s))
}

/// The index of the first `+` in `s`, or `s.len()` if there is none.
pub open spec fn idx_plus(s: Seq<char>) -> int
    decreases s.len(),
{
    if s.len() == 0 {
        0
    } else if s[0] == '+' {
        0
    } else {
        1 + idx_plus(s.drop_first())
    }
}

/// The letter that separates a dice count from the number of sides.
pub open spec fn is_die_char(c: char) -> bool {
    c == 'd' || c == 'D' || c == 'x' || c == 'X'
}

/// The letters that make the dice explode.
pub open spec fn is_x_char(c: char) -> bool {
    c == 'x' || c == 'X'
}

/// A count or increment as text: digits with no leading zero.
pub open spec fn is_num_tok(s: Seq<char>) -> bool {
    s.len() >= 1 && (forall|i: int| 0 <= i < s.len() ==> is_digit(s[i])) && s[0] != '0'
}

/// The written forms of the supported die sizes.
pub open spec fn is_sides_txt(s: Seq<char>) -> bool {
    ||| (s.len() == 1 && (s[0] == '3' || s[0] == '4' || s[0] == '6' || s[0] == '8'))
    ||| (s.len() == 2 && s[0] == '1' && s[1] == '0')
    ||| (s.len() == 2 && s[0] == '1' && s[1] == '2')
    ||| (s.len() == 2 && s[0] == '2' && s[1] == '0')
    ||| (s.len() == 3 && s[0] == '1' && s[1] == '0' && s[2] == '0')
}

/// How parsing one term can fail: a piece that does not match the grammar
/// at all, or a count that does not fit in 32 bits.
pub ghost enum ParseFailure {
    BadTerm(Seq<char>),
    TooBig(Seq<char>),
}

/// What one `+`-separated piece of the input parses to.
pub open spec fn term_result(p: Seq<char>) -> Result<Roll, ParseFailure> {
    let u = trimmed(p);
    let k = digits_len(u);
    if u.len() == 0 {
        Err(ParseFailure::BadTerm(p))
    } else if k == u.len() {
        // a bare increment
        if u[0] == '0' {
            Err(ParseFailure::BadTerm(p))
        } else if digits_val(u) > u32::MAX {
            Err(ParseFailure::TooBig(u))
        } else {
            Ok(Roll::Incr(digits_val(u) as u32))
        }
    } else {
        // an optional count, a die letter, then the sides
        if k > 0 && u[0] == '0' {
            Err(ParseFailure::BadTerm(p))
        } else if !is_die_char(u[k]) {
            Err(ParseFailure::BadTerm(p))
        } else if !is_sides_txt(u.subrange(k + 1, u.len() as int)) {
            Err(ParseFailure::BadTerm(p))
        } else if k > 0 && digits_val(u.subrange(0, k)) > u32::MAX {
            Err(ParseFailure::TooBig(u.subrange(0, k)))
        } else {
            let count = if k == 0 {
                1int
            } else {
                digits_val(u.subrange(0, k))
            };
            let sides = digits_val(u.subrange(k + 1, u.len() as int));
            if is_x_char(u[k]) {
                Ok(Roll::ExplodingDice(count as u32, sides as u32))
            } else {
                Ok(Roll::Dice(count as u32, sides as u32))
            }
        }
    }
}

/// What a non-empty expression parses to: its first piece, then the rest.
pub open spec fn parse_rest(s: Seq<char>) -> Result<Seq<Roll>, ParseFailure>
    decreases s.len(),
    via parse_rest_decreases
{
    let k = idx_plus(s);
    match term_result(s.subrange(0, k)) {
        Err(e) => Err(e),
        Ok(t) => if k == s.len() {
            Ok(seq![t])
        } else {
            match parse_rest(s.subrange(k + 1, s.len() as int)) {
                Ok(ts) => Ok(seq![t] + ts),
                Err(e) => Err(e),
            }
        },
    }
}

#[via_fn]
proof fn parse_rest_decreases(s: Seq<char>) {
    lemma_idx_plus_bounds(s);
}

/// What the whole input parses to.
pub open spec fn parse_spec(s: Seq<char>) -> Result<Seq<Roll>, ParseFailure>
    recommends
        s.len() > 0,
{
    parse_rest(s)
}

// ---------------------------------------------------------------------------
// Facts about the grammar functions.
// ---------------------------------------------------------------------------
/// `idx_plus` points at the first `+`, and never past the end.
pub proof fn lemma_idx_plus_bounds(s: Seq<char>)
    ensures
        0 <= idx_plus(s) <= s.len(),
        forall|j: int| 0 <= j < idx_plus(s) ==> s[j] != '+',
        idx_plus(s) < s.len() ==> s[idx_plus(s)] == '+',
    decreases s.len(),
{
    if s.len() > 0 && s[0] != '+' {
        lemma_idx_plus_bounds(s.drop_first());
        assert(forall|j: int| 0 <= j < idx_plus(s.drop_first()) ==> s.drop_first()[j] != '+');
        assert forall|j: int| 0 <= j < idx_plus(s) implies s[j] != '+' by {
            if j > 0 {
                assert(s.drop_first()[j - 1] != '+');
            }
        }
    }
}

/// A scan that saw no `+` before `i`, and a `+` or the end at `i`, found
/// the first `+`.
pub proof fn lemma_idx_plus_at(s: Seq<char>, i: int)
    requires
        0 <= i <= s.len(),
        forall|j: int| 0 <= j < i ==> s[j] != '+',
        i == s.len() || s[i] == '+',
    ensures
        idx_plus(s) == i,
{
    lemma_idx_plus_bounds(s);
}

/// `digits_len` counts digits from the front, and never runs past the end.
pub proof fn lemma_digits_len_bounds(s: Seq<char>)
    ensures
        0 <= digits_len(s) <= s.len(),
        forall|j: int| 0 <= j < digits_len(s) ==> is_digit(s[j]),
        digits_len(s) < s.len() ==> !is_digit(s[digits_len(s)]),
    decreases s.len(),
{
    if s.len() > 0 && is_digit(s[0]) {
        lemma_digits_len_bounds(s.drop_first());
        assert forall|j: int| 0 <= j < digits_len(s) implies is_digit(s[j]) by {
            if j > 0 {
                assert(is_digit(s.drop_first()[j - 1]));
            }
        }
    }
}

/// A scan that saw only digits before `i`, and a non-digit or the end at
/// `i`, found the digit prefix.
pub proof fn lemma_digits_len_at(s: Seq<char>, i: int)
    requires
        0 <= i <= s.len(),
        forall|j: int| 0 <= j < i ==> is_digit(s[j]),
        i == s.len() || !is_digit(s[i]),
    ensures
        digits_len(s) == i,
{
    lemma_digits_len_bounds(s);
}

/// The value a one-character digit string denotes.
pub proof fn lemma_digits_val_single(c: char)
    ensures
        digits_val(seq![c]) == char_digit(c),
{
    assert(seq![c].drop_last() =~= Seq::<char>::empty());
    assert(digits_val(Seq::<char>::empty()) == 0);
}

/// A digit string without a leading zero denotes at least one.
pub proof fn lemma_num_tok_val(s: Seq<char>)
    requires
        is_num_tok(s),
    ensures
        digits_val(s) >= 1,
    decreases s.len(),
{
    if s.len() == 1 {
        assert(s =~= seq![s[0]]);
        lemma_digits_val_single(s[0]);
        if s[0] as u32 == 48 {
            assert('0' as u32 == 48);
            vstd::utf8::char_u32_cast(s[0], 48u32);
            vstd::utf8::char_u32_cast('0', 48u32);
            assert(s[0] == '0');
        }
        assert(char_digit(s[0]) >= 1);
    } else {
        assert(s.drop_last()[0] == s[0]);
        lemma_num_tok_val(s.drop_last());
        assert(char_digit(s.last()) >= 0);
    }
}

/// Every written die size denotes a supported number of sides.
pub proof fn lemma_sides_val(t: Seq<char>)
    requires
        is_sides_txt(t),
    ensures
        supported_sides(digits_val(t)),
        1 <= digits_val(t) <= 100,
{
    if t.len() == 1 {
        assert(digits_val(t.drop_last()) == 0);
        assert(digits_val(t) == char_digit(t[0]));
    } else if t.len() == 2 {
        let d = t.drop_last();
        assert(d.len() == 1 && d[0] == t[0]);
        assert(digits_val(d.drop_last()) == 0);
        assert(digits_val(d) == char_digit(t[0]));
        assert(digits_val(t) == char_digit(t[0]) * 10 + char_digit(t[1]));
    } else {
        let d = t.drop_last();
        let dd = d.drop_last();
        assert(d.len() == 2 && d[0] == t[0] && d[1] == t[1]);
        assert(dd.len() == 1 && dd[0] == t[0]);
        assert(digits_val(dd.drop_last()) == 0);
        assert(digits_val(dd) == char_digit(t[0]));
        assert(digits_val(d) == char_digit(t[0]) * 10 + char_digit(t[1]));
        assert(digits_val(t) == digits_val(d) * 10 + char_digit(t[2]));
        assert(digits_val(t) == 100);
    }
}

/// Whatever one piece parses to is a well-formed term.
pub proof fn lemma_term_result_wf(p: Seq<char>)
    ensures
        term_result(p) matches Ok(t) ==> roll_wf(t),
{
    let u = trimmed(p);
    let k = digits_len(u);
    lemma_digits_len_bounds(u);
    if term_result(p) is Ok {
        if u.len() > 0 && k == u.len() {
            assert(is_num_tok(u));
            lemma_num_tok_val(u);
        } else if u.len() > 0 {
            let sides_txt = u.subrange(k + 1, u.len() as int);
            if is_die_char(u[k]) && is_sides_txt(sides_txt) {
                lemma_sides_val(sides_txt);
                if k > 0 {
                    let ct = u.subrange(0, k);
                    assert(forall|j: int| 0 <= j < k ==> is_digit(#[trigger] ct[j]));
                    assert(is_num_tok(ct));
                    lemma_num_tok_val(ct);
                }
            }
        }
    }
}

/// Whatever a whole expression parses to is well formed and non-empty.
pub proof fn lemma_parse_rest_wf(s: Seq<char>)
    ensures
        parse_rest(s) matches Ok(ts) ==> ts.len() >= 1 && forall|i: int|
            0 <= i < ts.len() ==> roll_wf(ts[i]),
    decreases s.len(),
{
    lemma_idx_plus_bounds(s);
    let k = idx_plus(s);
    lemma_term_result_wf(s.subrange(0, k));
    if term_result(s.subrange(0, k)) is Ok && k < s.len() {
        lemma_parse_rest_wf(s.subrange(k + 1, s.len() as int));
    }
}

// ---------------------------------------------------------------------------
// The parser.
// ---------------------------------------------------------------------------
/// Collect the characters of a string slice.
fn to_chars(s: &str) -> (v: Vec<char>)
    ensures
        v@ == s@,
{
    let n = s.unicode_len();
    let mut v: Vec<char> = Vec::new();
    let mut i: usize = 0;
    while i < n
        invariant
            i <= n,
            n == s@.len(),
            v@ =~= s@.subrange(0, i as int),
        decreases n - i,
    {
        v.push(s.get_char(i));
        i = i + 1;
    }
    proof {
        assert(v@ =~= s@);
    }
    v
}

/// Copy out one piece of the input as its own string.
fn piece_string(src: &str, lo: usize, hi: usize) -> (m: String)
    requires
        lo <= hi <= src@.len(),
    ensures
        m@ == src@.subrange(lo as int, hi as int),
{
    String::from_str(src.substring_char(lo, hi))
}

/// Read the digits `chars[lo..hi]` as a number, unless it overflows 32 bits.
fn parse_u32(chars: &Vec<char>, lo: usize, hi: usize) -> (r: Option<u32>)
    requires
        lo <= hi <= chars@.len(),
        forall|j: int| lo <= j < hi ==> is_digit(chars@[j]),
    ensures
        ({
            let dv = digits_val(chars@.subrange(lo as int, hi as int));
            &&& (dv <= u32::MAX ==> r == Some(dv as u32))
            &&& (dv > u32::MAX ==> r is None)
        }),
{
    let cap: u64 = 0x1_0000_0000;
    let mut val: u64 = 0;
    let mut i: usize = lo;
    while i < hi
        invariant
            lo <= i <= hi <= chars@.len(),
            forall|j: int| lo <= j < hi ==> is_digit(chars@[j]),
            val <= cap,
            cap == 0x1_0000_0000u64,
            ({
                let dv = digits_val(chars@.subrange(lo as int, i as int));
                &&& (dv <= u32::MAX ==> val == dv)
                &&& (dv > u32::MAX ==> val == cap)
            }),
        decreases hi - i,
    {
        let d = (chars[i] as u32 - 48) as u64;
        proof {
            assert(chars@.subrange(lo as int, i + 1).drop_last() =~= chars@.subrange(
                lo as int,
                i as int,
            ));
            assert(digits_val(chars@.subrange(lo as int, i + 1)) == digits_val(
                chars@.subrange(lo as int, i as int),
            ) * 10 + char_digit(chars@[i as int]));
        }
        val = val * 10 + d;
        if val > 0xFFFF_FFFF {
            val = cap;
        }
        i = i + 1;
    }
    if val > 0xFFFF_FFFF {
        None
    } else {
        Some(val as u32)
    }
}

/// Every written die size is made of digits.
proof fn lemma_sides_digits(t: Seq<char>)
    requires
        is_sides_txt(t),
    ensures
        forall|i: int| 0 <= i < t.len() ==> is_digit(t[i]),
{
}

/// Does `chars[lo..hi]` spell one of the supported die sizes?
fn sides_match(chars: &Vec<char>, lo: usize, hi: usize) -> (r: bool)
    requires
        lo <= hi <= chars@.len(),
    ensures
        r == is_sides_txt(chars@.subrange(lo as int, hi as int)),
{
    let ghost t = chars@.subrange(lo as int, hi as int);
    proof {
        assert(t.len() == hi - lo);
        assert(forall|i: int| 0 <= i < t.len() ==> t[i] == chars@[lo + i]);
    }
    if hi - lo == 1 {
        let c = chars[lo];
        c == '3' || c == '4' || c == '6' || c == '8'
    } else if hi - lo == 2 {
        let c0 = chars[lo];
        let c1 = chars[lo + 1];
        (c0 == '1' && c1 == '0') || (c0 == '1' && c1 == '2') || (c0 == '2' && c1 == '0')
    } else if hi - lo == 3 {
        let c0 = chars[lo];
        let c1 = chars[lo + 1];
        let c2 = chars[lo + 2];
        c0 == '1' && c1 == '0' && c2 == '0'
    } else {
        false
    }
}

/// Parse one `+`-separated piece of the input against the term grammar.
fn parse_term(chars: &Vec<char>, src: &str, lo: usize, hi: usize) -> (r: Result<Roll, QuikError>)
    requires
        chars@ == src@,
        lo <= hi <= chars@.len(),
    ensures
        ({
            let p = chars@.subrange(lo as int, hi as int);
            match term_result(p) {
                Ok(t) => r == Ok::<Roll, QuikError>(t),
                Err(ParseFailure::BadTerm(q)) => r matches Err(QuikError::DiceBadExpr(m)) && m@
                    == q,
                Err(ParseFailure::TooBig(tok)) => r matches Err(QuikError::NotANumber(m)) && m@
                    == tok,
            }
        }),
{
    let ghost p = chars@.subrange(lo as int, hi as int);
    // drop leading whitespace
    let mut a: usize = lo;
    while a < hi && (chars[a] == ' ' || chars[a] == '\t' || chars[a] == '\n' || chars[a] == '\r'
        || chars[a] == '\u{b}' || chars[a] == '\u{c}')
        invariant
            lo <= a <= hi <= chars@.len(),
            p == chars@.subrange(lo as int, hi as int),
            trim_front(p) == trim_front(chars@.subrange(a as int, hi as int)),
        decreases hi - a,
    {
        proof {
            assert(chars@.subrange(a as int, hi as int).drop_first() =~= chars@.subrange(
                a + 1,
                hi as int,
            ));
        }
        a = a + 1;
    }
    proof {
        assert(trim_front(p) == chars@.subrange(a as int, hi as int));
    }
    // drop trailing whitespace
    let mut b: usize = hi;
    while b > a && (chars[b - 1] == ' ' || chars[b - 1] == '\t' || chars[b - 1] == '\n' || chars[b
        - 1] == '\r' || chars[b - 1] == '\u{b}' || chars[b - 1] == '\u{c}')
        invariant
            lo <= a <= b <= hi <= chars@.len(),
            p == chars@.subrange(lo as int, hi as int),
            trim_front(p) == chars@.subrange(a as int, hi as int),
            trimmed(p) == trim_back(chars@.subrange(a as int, b as int)),
        decreases b - a,
    {
        proof {
            assert(chars@.subrange(a as int, b as int).drop_last() =~= chars@.subrange(
                a as int,
                b - 1,
            ));
        }
        b = b - 1;
    }
    let ghost u = chars@.subrange(a as int, b as int);
    proof {
        assert(trimmed(p) == u);
    }
    if a == b {
        // nothing but whitespace
        return Err(QuikError::DiceBadExpr(piece_string(src, lo, hi)));
    }
    // measure the digit prefix
    let mut k: usize = a;
    while k < b && (chars[k] as u32) >= 48 && (chars[k] as u32) <= 57
        invariant
            a <= k <= b <= chars@.len(),
            forall|j: int| a <= j < k ==> is_digit(chars@[j]),
        decreases b - k,
    {
        k = k + 1;
    }
    proof {
        assert forall|j: int| 0 <= j < k - a implies is_digit(u[j]) by {
            assert(u[j] == chars@[a + j]);
        }
        if k < b {
            assert(u[k - a] == chars@[k as int]);
        }
        lemma_digits_len_at(u, k - a);
    }
    if k == b {
        // a bare increment
        if chars[a] == '0' {
            return Err(QuikError::DiceBadExpr(piece_string(src, lo, hi)));
        }
        proof {
            assert(u =~= chars@.subrange(a as int, b as int));
        }
        match parse_u32(chars, a, b) {
            None => Err(QuikError::NotANumber(piece_string(src, a, b))),
            Some(v) => Ok(Roll::Incr(v)),
        }
    } else {
        // an optional count, a die letter, then the sides
        if k > a && chars[a] == '0' {
            return Err(QuikError::DiceBadExpr(piece_string(src, lo, hi)));
        }
        let die = chars[k];
        proof {
            assert(u[k - a] == chars@[k as int]);
        }
        if !(die == 'd' || die == 'D' || die == 'x' || die == 'X') {
            return Err(QuikError::DiceBadExpr(piece_string(src, lo, hi)));
        }
        let ghost sides_txt = u.subrange(k - a + 1, u.len() as int);
        proof {
            assert(sides_txt =~= chars@.subrange(k + 1, b as int));
        }
        if !sides_match(chars, k + 1, b) {
            return Err(QuikError::DiceBadExpr(piece_string(src, lo, hi)));
        }
        proof {
            lemma_sides_digits(sides_txt);
            assert forall|j: int| k + 1 <= j < b implies is_digit(chars@[j]) by {
                assert(chars@[j] == sides_txt[j - (k + 1)]);
            }
            lemma_sides_val(sides_txt);
        }
        let sides: u32 = match parse_u32(chars, k + 1, b) {
            Some(v) => v,
            None => {
                return Err(QuikError::DiceBadSides);
            },
        };
        let count: u32 = if k == a {
            1
        } else {
            proof {
                assert(u.subrange(0, k - a) =~= chars@.subrange(a as int, k as int));
            }
            match parse_u32(chars, a, k) {
                Some(v) => v,
                None => {
                    return Err(QuikError::NotANumber(piece_string(src, a, k)));
                },
            }
        };
        if die == 'x' || die == 'X' {
            Ok(Roll::ExplodingDice(count, sides))
        } else if die == 'd' || die == 'D' {
            Ok(Roll::Dice(count, sides))
        } else {
            // unreachable given the check above, but never panic
            Err(QuikError::DiceBadType(piece_string(src, k, k + 1)))
        }
    }
}

/// How the outcome of the rest of the input combines with the terms already
/// parsed.
pub open spec fn rest_combines(s: Seq<char>, done: Seq<Roll>, rest: Seq<char>) -> bool {
    match parse_rest(rest) {
        Ok(ts) => parse_rest(s) == Ok::<Seq<Roll>, ParseFailure>(done + ts),
        Err(e) => parse_rest(s) == Err::<Seq<Roll>, ParseFailure>(e),
    }
}

/// Construct a Command object representing the dice to roll.
/// Expects a string containing a dice expression.
pub fn command(expr: String) -> (r: Result<Command, QuikError>)
    ensures
        expr@.len() == 0 ==> (r matches Err(QuikError::DiceMissingExpr)),
        expr@.len() > 0 ==> match parse_spec(expr@) {
            Ok(ts) => (r matches Ok(c) && c matches Command::RollDice(e) && e@ == ts && e.wf()),
            Err(ParseFailure::BadTerm(q)) => (r matches Err(QuikError::DiceBadExpr(m)) && m@ == q),
            Err(ParseFailure::TooBig(tok)) => (r matches Err(QuikError::NotANumber(m)) && m@
                == tok),
        },
{
    if expr.as_str().is_empty() {
        return Err(QuikError::DiceMissingExpr);
    }
    let chars = to_chars(expr.as_str());
    let n = chars.len();
    let mut terms: Vec<Roll> = Vec::new();
    let mut pos: usize = 0;
    proof {
        assert(chars@.subrange(0, n as int) =~= chars@);
        if parse_rest(chars@) is Ok {
            let ts = parse_rest(chars@)->Ok_0;
            assert(Seq::<Roll>::empty() + ts =~= ts);
        }
        assert(rest_combines(expr@, terms@, chars@.subrange(pos as int, n as int)));
    }
    loop
        invariant
            chars@ == expr@,
            expr@.len() > 0,
            n == chars@.len(),
            pos <= n,
            rest_combines(expr@, terms@, chars@.subrange(pos as int, n as int)),
        decreases n - pos,
    {
        let ghost rest = chars@.subrange(pos as int, n as int);
        let mut j: usize = pos;
        while j < n && chars[j] != '+'
            invariant
                pos <= j <= n == chars@.len(),
                forall|i: int| pos <= i < j ==> chars@[i] != '+',
            decreases n - j,
        {
            j = j + 1;
        }
        proof {
            assert forall|i: int| 0 <= i < j - pos implies rest[i] != '+' by {
                assert(rest[i] == chars@[pos + i]);
            }
            if j < n {
                assert(rest[j - pos] == chars@[j as int]);
            }
            lemma_idx_plus_at(rest, j - pos);
            assert(rest.subrange(0, j - pos) =~= chars@.subrange(pos as int, j as int));
        }
        let t = match parse_term(&chars, expr.as_str(), pos, j) {
            Ok(t) => t,
            Err(e) => {
                return Err(e);
            },
        };
        let ghost done = terms@;
        terms.push(t);
        proof {
            assert(terms@ =~= done + seq![t]);
        }
        if j == n {
            proof {
                assert(parse_rest(rest) == Ok::<Seq<Roll>, ParseFailure>(seq![t]));
                assert(parse_rest(expr@) == Ok::<Seq<Roll>, ParseFailure>(terms@));
                lemma_parse_rest_wf(expr@);
            }
            let e = Expr(terms);
            proof {
                assert(e.wf());
            }
            return Ok(Command::RollDice(e));
        }
        proof {
            let rest2 = chars@.subrange(j + 1, n as int);
            assert(rest.subrange(j - pos + 1, rest.len() as int) =~= rest2);
            if parse_rest(rest2) is Ok {
                let ts2 = parse_rest(rest2)->Ok_0;
                assert(parse_rest(rest) == Ok::<Seq<Roll>, ParseFailure>(seq![t] + ts2));
                assert(done + (seq![t] + ts2) =~= terms@ + ts2);
            }
            assert(rest_combines(expr@, terms@, rest2));
        }
        pos = j + 1;
    }
}

// ---------------------------------------------------------------------------
// The evaluator's model: which values the dice actually showed.
// ---------------------------------------------------------------------------
/// The random draws behind one evaluated term: the individual dice of a
/// fixed group, the roll chains of an exploding group, or nothing for an
/// increment.
pub ghost enum TermDraw {
    Fixed { rolls: Seq<u32> },
    Exploding { chains: Seq<Seq<u32>> },
    Incr,
}

/// The sum of a sequence of rolls.
pub open spec fn sum_rolls(s: Seq<u32>) -> int
    decreases s.len(),
{
    if s.len() == 0 {
        0
    } else {
        sum_rolls(s.drop_last()) + s.last()
    }
}

/// The sum of all rolls of all chains.
pub open spec fn sum_chains(cs: Seq<Seq<u32>>) -> int
    decreases cs.len(),
{
    if cs.len() == 0 {
        0
    } else {
        sum_chains(cs.drop_last()) + sum_rolls(cs.last())
    }
}

/// Every roll shows a face of the die.
pub open spec fn rolls_in_range(s: Seq<u32>, sides: u32) -> bool {
    forall|i: int| 0 <= i < s.len() ==> 1 <= #[trigger] s[i] <= sides
}

/// One die's explosion chain: every roll before the last showed the
/// maximum (and left room to keep counting), and the chain stops at the
/// first roll that did not — or, for chains whose sum comes near the
/// largest representable total, as soon as one more die could not be
/// counted.
pub open spec fn chain_ok(c: Seq<u32>, sides: u32) -> bool {
    &&& c.len() >= 1
    &&& rolls_in_range(c, sides)
    &&& forall|i: int|
        0 <= i < c.len() - 1 ==> #[trigger] c[i] == sides && sum_rolls(c.take(i + 1)) <= u32::MAX
            - sides
    &&& (c.last() != sides || sum_rolls(c) > u32::MAX - sides)
}

/// One chain per die of the group.
pub open spec fn chains_ok(cs: Seq<Seq<u32>>, count: u32, sides: u32) -> bool {
    cs.len() == count && forall|i: int| 0 <= i < cs.len() ==> chain_ok(cs[i], sides)
}

/// The draw fits the term it is for.
pub open spec fn draw_ok(t: Roll, d: TermDraw) -> bool {
    match (t, d) {
        (Roll::Dice(count, sides), TermDraw::Fixed { rolls }) => rolls.len() == count
            && rolls_in_range(rolls, sides),
        (Roll::ExplodingDice(count, sides), TermDraw::Exploding { chains }) => chains_ok(
            chains,
            count,
            sides,
        ),
        (Roll::Incr(_), TermDraw::Incr) => true,
        _ => false,
    }
}

/// What one term contributes to the total.
pub open spec fn term_total(t: Roll, d: TermDraw) -> int {
    match (t, d) {
        (Roll::Dice(_, _), TermDraw::Fixed { rolls }) => sum_rolls(rolls),
        (Roll::ExplodingDice(_, _), TermDraw::Exploding { chains }) => sum_chains(chains),
        (Roll::Incr(v), TermDraw::Incr) => v as int,
        _ => 0,
    }
}

// ---------------------------------------------------------------------------
// The trace: an exact rendering of the draws.
// ---------------------------------------------------------------------------
/// The rolls of a fixed group, joined by `+`.
pub open spec fn rolls_text(rolls: Seq<u32>) -> Seq<char>
    decreases rolls.len(),
{
    if rolls.len() == 0 {
        Seq::empty()
    } else if rolls.len() == 1 {
        dec_str(rolls[0] as int)
    } else {
        rolls_text(rolls.drop_last()) + seq!['+'] + dec_str(rolls.last() as int)
    }
}

/// One die's chain, each explosion marked with `!+`.
pub open spec fn chain_text(c: Seq<u32>) -> Seq<char>
    decreases c.len(),
{
    if c.len() == 0 {
        Seq::empty()
    } else if c.len() == 1 {
        dec_str(c[0] as int)
    } else {
        chain_text(c.drop_last()) + seq!['!'] + seq!['+'] + dec_str(c.last() as int)
    }
}

/// The chains of an exploding group: each in parentheses, separated by a
/// single space.
pub open spec fn chains_text(cs: Seq<Seq<u32>>) -> Seq<char>
    decreases cs.len(),
{
    if cs.len() == 0 {
        Seq::empty()
    } else if cs.len() == 1 {
        seq!['('] + chain_text(cs[0]) + seq![')']
    } else {
        chains_text(cs.drop_last()) + seq![' '] + seq!['('] + chain_text(cs.last()) + seq![')']
    }
}

/// The trace of a fixed group: `{count}d{sides}({r1}+...+{rN})`.
pub open spec fn fixed_text(count: u32, sides: u32, rolls: Seq<u32>) -> Seq<char> {
    dec_str(count as int) + seq!['d'] + dec_str(sides as int) + seq!['('] + rolls_text(rolls)
        + seq![')']
}

/// The trace of an exploding group: `{count}x{sides}<({c1}) ... ({cN})>`.
pub open spec fn explode_text(count: u32, sides: u32, chains: Seq<Seq<u32>>) -> Seq<char> {
    dec_str(count as int) + seq!['x'] + dec_str(sides as int) + seq!['<'] + chains_text(chains)
        + seq!['>']
}

/// The trace fragment of one term.
pub open spec fn term_text(t: Roll, d: TermDraw) -> Seq<char> {
    match (t, d) {
        (Roll::Dice(count, sides), TermDraw::Fixed { rolls }) => fixed_text(count, sides, rolls),
        (Roll::ExplodingDice(count, sides), TermDraw::Exploding { chains }) => explode_text(
            count,
            sides,
            chains,
        ),
        (Roll::Incr(v), TermDraw::Incr) => dec_str(v as int),
        _ => Seq::empty(),
    }
}

/// One draw per term.
pub open spec fn draws_ok(ts: Seq<Roll>, ds: Seq<TermDraw>) -> bool {
    ds.len() == ts.len() && forall|i: int| 0 <= i < ts.len() ==> draw_ok(ts[i], ds[i])
}

/// What the whole expression totals, before clipping.
pub open spec fn terms_total(ts: Seq<Roll>, ds: Seq<TermDraw>) -> int
    decreases ts.len(),
{
    if ts.len() == 0 || ds.len() != ts.len() {
        0
    } else {
        terms_total(ts.drop_last(), ds.drop_last()) + term_total(ts.last(), ds.last())
    }
}

/// The whole trace: term fragments joined by ` + `.
pub open spec fn terms_text(ts: Seq<Roll>, ds: Seq<TermDraw>) -> Seq<char>
    decreases ts.len(),
{
    if ts.len() == 0 || ds.len() != ts.len() {
        Seq::empty()
    } else if ts.len() == 1 {
        term_text(ts[0], ds[0])
    } else {
        terms_text(ts.drop_last(), ds.drop_last()) + seq![' '] + seq!['+'] + seq![' ']
            + term_text(ts.last(), ds.last())
    }
}

/// The whole outcome of one evaluation: the dice showed `ds`, the total is
/// the (clipped) sum of every term's contribution, and the trace renders
/// the draws exactly.
pub open spec fn outcome_ok(ts: Seq<Roll>, ds: Seq<TermDraw>, total: u32, text: Seq<char>) -> bool {
    &&& draws_ok(ts, ds)
    &&& total as int == sat32(terms_total(ts, ds))
    &&& text == terms_text(ts, ds)
}

/// No sum of rolls is negative.
pub proof fn lemma_sum_rolls_nonneg(s: Seq<u32>)
    ensures
        sum_rolls(s) >= 0,
    decreases s.len(),
{
    if s.len() > 0 {
        lemma_sum_rolls_nonneg(s.drop_last());
    }
}

/// No sum of chains is negative.
pub proof fn lemma_sum_chains_nonneg(cs: Seq<Seq<u32>>)
    ensures
        sum_chains(cs) >= 0,
    decreases cs.len(),
{
    if cs.len() > 0 {
        lemma_sum_chains_nonneg(cs.drop_last());
        lemma_sum_rolls_nonneg(cs.last());
    }
}

/// No term contributes a negative amount.
pub proof fn lemma_term_total_nonneg(t: Roll, d: TermDraw)
    ensures
        term_total(t, d) >= 0,
{
    match (t, d) {
        (Roll::Dice(_, _), TermDraw::Fixed { rolls }) => lemma_sum_rolls_nonneg(rolls),
        (Roll::ExplodingDice(_, _), TermDraw::Exploding { chains }) => lemma_sum_chains_nonneg(
            chains,
        ),
        _ => (),
    }
}

/// No expression totals a negative amount.
pub proof fn lemma_terms_total_nonneg(ts: Seq<Roll>, ds: Seq<TermDraw>)
    ensures
        terms_total(ts, ds) >= 0,
    decreases ts.len(),
{
    if ts.len() > 0 && ds.len() == ts.len() {
        lemma_terms_total_nonneg(ts.drop_last(), ds.drop_last());
        lemma_term_total_nonneg(ts.last(), ds.last());
    }
}

/// A group of rolls sums to at least one per die and at most the maximum
/// face per die.
pub proof fn lemma_sum_rolls_bounds(rolls: Seq<u32>, sides: u32)
    requires
        rolls_in_range(rolls, sides),
    ensures
        rolls.len() <= sum_rolls(rolls) <= rolls.len() * sides,
    decreases rolls.len(),
{
    if rolls.len() == 0 {
    } else {
        let prev = rolls.drop_last();
        assert(rolls_in_range(prev, sides));
        lemma_sum_rolls_bounds(prev, sides);
        assert(1 <= rolls.last() <= sides);
        assert((rolls.len() - 1) * sides + sides == rolls.len() * sides) by (nonlinear_arith);
    }
}

/// A group of explosion chains sums to at least one per die.
pub proof fn lemma_sum_chains_lower(cs: Seq<Seq<u32>>, sides: u32)
    requires
        forall|i: int| 0 <= i < cs.len() ==> chain_ok(#[trigger] cs[i], sides),
    ensures
        sum_chains(cs) >= cs.len(),
    decreases cs.len(),
{
    if cs.len() > 0 {
        let prev = cs.drop_last();
        assert(forall|i: int| 0 <= i < prev.len() ==> chain_ok(#[trigger] prev[i], sides));
        lemma_sum_chains_lower(prev, sides);
        assert(chain_ok(cs.last(), sides));
        lemma_sum_rolls_bounds(cs.last(), sides);
    }
}

/// Round-trip bound: however the dice land, evaluating the one-term
/// expression `{n}d{s}` totals at least `n` and at most `n * s`.
pub proof fn lemma_roll_bounds(n: u32, s: u32, ds: Seq<TermDraw>, total: u32, text: Seq<char>)
    requires
        n >= 1,
        s >= 1,
        outcome_ok(seq![Roll::Dice(n, s)], ds, total, text),
    ensures
        n <= total,
        total as int <= n as int * s as int,
{
    let ts = seq![Roll::Dice(n, s)];
    assert(draw_ok(ts[0], ds[0]));
    match ds[0] {
        TermDraw::Fixed { rolls } => {
            assert(ts.drop_last() =~= Seq::<Roll>::empty());
            assert(ds.drop_last() =~= Seq::<TermDraw>::empty());
            assert(terms_total(Seq::<Roll>::empty(), Seq::<TermDraw>::empty()) == 0);
            assert(ds.last() == ds[0] && ts.last() == ts[0]);
            assert(terms_total(ts, ds) == sum_rolls(rolls));
            lemma_sum_rolls_bounds(rolls, s);
        },
        _ => {
            assert(false);
        },
    }
}

/// Exploding lower bound: however the dice land, evaluating the one-term
/// expression `{n}x{s}` totals at least `n`: every die contributes at
/// least one.
pub proof fn lemma_exploding_lower_bound(
    n: u32,
    s: u32,
    ds: Seq<TermDraw>,
    total: u32,
    text: Seq<char>,
)
    requires
        n >= 1,
        s >= 1,
        outcome_ok(seq![Roll::ExplodingDice(n, s)], ds, total, text),
    ensures
        n <= total,
{
    let ts = seq![Roll::ExplodingDice(n, s)];
    assert(draw_ok(ts[0], ds[0]));
    match ds[0] {
        TermDraw::Exploding { chains } => {
            assert(ts.drop_last() =~= Seq::<Roll>::empty());
            assert(ds.drop_last() =~= Seq::<TermDraw>::empty());
            assert(terms_total(Seq::<Roll>::empty(), Seq::<TermDraw>::empty()) == 0);
            assert(ds.last() == ds[0] && ts.last() == ts[0]);
            assert(terms_total(ts, ds) == sum_chains(chains));
            lemma_sum_chains_lower(chains, s);
        },
        _ => {
            assert(false);
        },
    }
}

/// An explosion chain sums to one maximum per exploded die plus the roll
/// that ended it.
pub proof fn lemma_chain_sum(c: Seq<u32>, s: u32)
    requires
        c.len() >= 1,
        forall|i: int| 0 <= i < c.len() - 1 ==> #[trigger] c[i] == s,
    ensures
        sum_rolls(c) == s * (c.len() - 1) + c.last(),
    decreases c.len(),
{
    if c.len() == 1 {
        assert(c.drop_last() =~= Seq::<u32>::empty());
        assert(sum_rolls(Seq::<u32>::empty()) == 0);
    } else {
        let d = c.drop_last();
        assert(forall|i: int| 0 <= i < d.len() - 1 ==> #[trigger] d[i] == s);
        lemma_chain_sum(d, s);
        assert(d.last() == c[c.len() - 2]);
        assert(c[c.len() - 2] == s);
        assert(s * (d.len() - 1) + s == s * (c.len() - 1)) by (nonlinear_arith)
            requires
                d.len() == c.len() - 1,
                c.len() >= 2,
        ;
    }
}

/// A single exploding die never totals a multiple of its size, as long as
/// its chain stopped on a roll below the maximum (which is every chain
/// whose total leaves room to have counted one more die).
pub proof fn lemma_single_explode_not_multiple(
    s: u32,
    ds: Seq<TermDraw>,
    total: u32,
    text: Seq<char>,
)
    requires
        s >= 2,
        outcome_ok(seq![Roll::ExplodingDice(1, s)], ds, total, text),
        total as int <= u32::MAX - s,
    ensures
        total as int % (s as int) != 0,
{
    let ts = seq![Roll::ExplodingDice(1, s)];
    assert(draw_ok(ts[0], ds[0]));
    match ds[0] {
        TermDraw::Exploding { chains } => {
            assert(ts.drop_last() =~= Seq::<Roll>::empty());
            assert(ds.drop_last() =~= Seq::<TermDraw>::empty());
            assert(terms_total(Seq::<Roll>::empty(), Seq::<TermDraw>::empty()) == 0);
            assert(ds.last() == ds[0] && ts.last() == ts[0]);
            let c = chains[0];
            assert(chains.drop_last() =~= Seq::<Seq<u32>>::empty());
            assert(sum_chains(Seq::<Seq<u32>>::empty()) == 0);
            assert(chains.last() == c);
            assert(terms_total(ts, ds) == sum_rolls(c));
            assert(chain_ok(c, s));
            lemma_chain_sum(c, s);
            // the total stayed below the cap, so it is the exact sum, and
            // the chain ended on a roll below the maximum
            assert(total as int == sum_rolls(c));
            assert(c.last() != s);
            assert(1 <= c.last() < s);
            let n = c.len() - 1;
            assert(total as int == s * n + c.last());
            assert((s * n + c.last()) % (s as int) == c.last()) by (nonlinear_arith)
                requires
                    n >= 0,
                    s >= 2,
                    1 <= c.last() < s,
            ;
        },
        _ => {
            assert(false);
        },
    }
}

/// Trace structural match, fixed dice: the trace of the one-term
/// expression `{n}d{s}` always starts with `{n}d{s}(` and ends with `)`.
pub proof fn lemma_fixed_trace_shape(n: u32, s: u32, ds: Seq<TermDraw>, total: u32, text: Seq<char>)
    requires
        outcome_ok(seq![Roll::Dice(n, s)], ds, total, text),
    ensures
        (dec_str(n as int) + seq!['d'] + dec_str(s as int) + seq!['(']).is_prefix_of(text),
        text.len() >= 1 && text.last() == ')',
{
    let ts = seq![Roll::Dice(n, s)];
    assert(draw_ok(ts[0], ds[0]));
    match ds[0] {
        TermDraw::Fixed { rolls } => {
            assert(text == fixed_text(n, s, rolls));
            let pre = dec_str(n as int) + seq!['d'] + dec_str(s as int) + seq!['('];
            assert(text =~= pre + (rolls_text(rolls) + seq![')']));
            assert(text.subrange(0, pre.len() as int) =~= pre);
            assert(text.last() == ')');
        },
        _ => {
            assert(false);
        },
    }
}

/// Trace structural match, exploding dice: the trace of the one-term
/// expression `{n}x{s}` always starts with `{n}x{s}<` and ends with `>`.
pub proof fn lemma_exploding_trace_shape(
    n: u32,
    s: u32,
    ds: Seq<TermDraw>,
    total: u32,
    text: Seq<char>,
)
    requires
        outcome_ok(seq![Roll::ExplodingDice(n, s)], ds, total, text),
    ensures
        (dec_str(n as int) + seq!['x'] + dec_str(s as int) + seq!['<']).is_prefix_of(text),
        text.len() >= 1 && text.last() == '>',
{
    let ts = seq![Roll::ExplodingDice(n, s)];
    assert(draw_ok(ts[0], ds[0]));
    match ds[0] {
        TermDraw::Exploding { chains } => {
            assert(text == explode_text(n, s, chains));
            let pre = dec_str(n as int) + seq!['x'] + dec_str(s as int) + seq!['<'];
            assert(text =~= pre + (chains_text(chains) + seq!['>']));
            assert(text.subrange(0, pre.len() as int) =~= pre);
            assert(text.last() == '>');
        },
        _ => {
            assert(false);
        },
    }
}

/// Idempotent parse: what an expression string parses to is a function of
/// the string alone, so two successful parses of the same string yield
/// structurally equal expressions.
pub proof fn lemma_parse_idempotent(s: Seq<char>, e1: Expr, e2: Expr)
    requires
        parse_spec(s) == Ok::<Seq<Roll>, ParseFailure>(e1@),
        parse_spec(s) == Ok::<Seq<Roll>, ParseFailure>(e2@),
    ensures
        e1@ == e2@,
{
}

// ---------------------------------------------------------------------------
// Rolling.
// ---------------------------------------------------------------------------
/// A source of die rolls. Every roll shows one of the die's faces; which
/// one is up to the implementation.
pub trait DieRoller {
    fn roll(&mut self, sides: u32) -> (r: u32)
        requires
            sides >= 1,
        ensures
            1 <= r <= sides,
    ;
}

/// Rolls with the process-wide thread-local generator.
#[derive(Debug, Clone, Copy)]
pub struct ThreadRoller;

impl DieRoller for ThreadRoller {
    fn roll(&mut self, sides: u32) -> (r: u32) {
        let idx = crate::random::rand_below(sides as usize);
        (idx as u32) + 1
    }
}

/// Replays a fixed list of rolls, for deterministic evaluation: a scripted
/// value outside the die's range, and every roll past the end of the
/// script, counts as a one.
#[derive(Debug, Clone)]
pub struct ScriptedRoller {
    vals: Vec<u32>,
    pos: usize,
}

impl ScriptedRoller {
    /// A roller that replays `vals`.
    pub fn new(vals: Vec<u32>) -> ScriptedRoller {
        ScriptedRoller { vals, pos: 0 }
    }
}

impl DieRoller for ScriptedRoller {
    fn roll(&mut self, sides: u32) -> (r: u32) {
        if self.pos < self.vals.len() {
            let v = self.vals[self.pos];
            self.pos = self.pos + 1;
            if 1 <= v && v <= sides {
                v
            } else {
                1
            }
        } else {
            1
        }
    }
}

/// Roll a fixed group of dice, and report the trace fragment and the
/// (clipped) sum along with the values drawn.
fn roll_fixed<R: DieRoller>(roller: &mut R, count: u32, sides: u32) -> (r: (
    u32,
    String,
    Ghost<Seq<u32>>,
))
    requires
        sides >= 1,
    ensures
        r.2@.len() == count,
        rolls_in_range(r.2@, sides),
        r.0 as int == sat32(sum_rolls(r.2@)),
        r.1@ == fixed_text(count, sides, r.2@),
{
    let mut total: u32 = 0;
    let mut body = String::new();
    let ghost mut rolls: Seq<u32> = Seq::<u32>::empty();
    let mut i: u32 = 0;
    while i < count
        invariant
            sides >= 1,
            i <= count,
            rolls.len() == i,
            rolls_in_range(rolls, sides),
            total as int == sat32(sum_rolls(rolls)),
            body@ == rolls_text(rolls),
        decreases count - i,
    {
        let v = roller.roll(sides);
        if i > 0 {
            body.append("+");
        }
        let vtext = u32_to_string(v);
        body.append(vtext.as_str());
        proof {
            lemma_sum_rolls_nonneg(rolls);
        }
        total = sat_add(total, v);
        proof {
            let prev = rolls;
            rolls = rolls.push(v);
            assert(rolls.drop_last() =~= prev);
            assert(rolls.last() == v);
            reveal_strlit("+");
            assert("+"@ =~= seq!['+']);
            if prev.len() == 0 {
                assert(body@ == rolls_text(rolls));
            } else {
                assert(rolls_text(rolls) == rolls_text(prev) + seq!['+'] + dec_str(v as int));
                assert(body@ == rolls_text(rolls));
            }
            assert(sum_rolls(rolls) == sum_rolls(prev) + v);
        }
        i = i + 1;
    }
    let mut text = u32_to_string(count);
    text.append("d");
    let sides_text = u32_to_string(sides);
    text.append(sides_text.as_str());
    text.append("(");
    text.append(body.as_str());
    text.append(")");
    proof {
        reveal_strlit("d");
        reveal_strlit("(");
        reveal_strlit(")");
        assert("d"@ =~= seq!['d']);
        assert("("@ =~= seq!['(']);
        assert(")"@ =~= seq![')']);
        assert(text@ =~= fixed_text(count, sides, rolls));
    }
    (total, text, Ghost(rolls))
}

/// Roll one exploding die: keep rolling while the maximum shows and the
/// running value leaves room to count one more die.
fn roll_chain<R: DieRoller>(roller: &mut R, sides: u32) -> (r: (u32, String, Ghost<Seq<u32>>))
    requires
        sides >= 1,
    ensures
        chain_ok(r.2@, sides),
        r.0 as int == sum_rolls(r.2@),
        r.1@ == chain_text(r.2@),
{
    let v0 = roller.roll(sides);
    let mut acc: u32 = v0;
    let mut text = u32_to_string(v0);
    let mut last: u32 = v0;
    let ghost mut chain: Seq<u32> = seq![v0];
    proof {
        assert(chain.drop_last() =~= Seq::<u32>::empty());
        assert(chain.last() == v0);
        assert(sum_rolls(Seq::<u32>::empty()) == 0);
        assert(sum_rolls(chain) == v0);
        assert(chain_text(chain) == dec_str(v0 as int));
    }
    while last == sides && acc <= u32::MAX - sides
        invariant
            sides >= 1,
            chain.len() >= 1,
            rolls_in_range(chain, sides),
            chain.last() == last,
            1 <= last <= sides,
            acc as int == sum_rolls(chain),
            text@ == chain_text(chain),
            forall|i: int|
                0 <= i < chain.len() - 1 ==> chain[i] == sides && sum_rolls(chain.take(i + 1))
                    <= u32::MAX - sides,
        decreases u32::MAX - acc,
    {
        let v = roller.roll(sides);
        text.append("!+");
        let vtext = u32_to_string(v);
        text.append(vtext.as_str());
        proof {
            let prev = chain;
            chain = chain.push(v);
            assert(chain.drop_last() =~= prev);
            assert(chain.last() == v);
            reveal_strlit("!+");
            assert("!+"@ =~= seq!['!'] + seq!['+']);
            assert(chain_text(chain) == chain_text(prev) + seq!['!'] + seq!['+'] + dec_str(
                v as int,
            ));
            assert(text@ == chain_text(chain));
            assert(sum_rolls(chain) == sum_rolls(prev) + v);
            assert forall|i: int|
                0 <= i < chain.len() - 1 implies chain[i] == sides && sum_rolls(
                chain.take(i + 1),
            ) <= u32::MAX - sides by {
                if i < prev.len() - 1 {
                    assert(chain[i] == prev[i]);
                    assert(chain.take(i + 1) =~= prev.take(i + 1));
                } else {
                    assert(chain[i] == prev.last());
                    assert(chain.take(i + 1) =~= prev);
                    assert(prev.take(prev.len() as int) =~= prev);
                }
            }
        }
        acc = acc + v;
        last = v;
    }
    (acc, text, Ghost(chain))
}

/// Roll a group of exploding dice.
fn roll_explode<R: DieRoller>(roller: &mut R, count: u32, sides: u32) -> (r: (
    u32,
    String,
    Ghost<Seq<Seq<u32>>>,
))
    requires
        sides >= 1,
    ensures
        chains_ok(r.2@, count, sides),
        r.0 as int == sat32(sum_chains(r.2@)),
        r.1@ == explode_text(count, sides, r.2@),
{
    let mut total: u32 = 0;
    let mut body = String::new();
    let ghost mut chains: Seq<Seq<u32>> = Seq::<Seq<u32>>::empty();
    let mut i: u32 = 0;
    while i < count
        invariant
            sides >= 1,
            i <= count,
            chains.len() == i,
            forall|j: int| 0 <= j < chains.len() ==> chain_ok(chains[j], sides),
            total as int == sat32(sum_chains(chains)),
            body@ == chains_text(chains),
        decreases count - i,
    {
        let (cv, ctext, gchain) = roll_chain(roller, sides);
        if i > 0 {
            body.append(" ");
        }
        body.append("(");
        body.append(ctext.as_str());
        body.append(")");
        proof {
            lemma_sum_chains_nonneg(chains);
            lemma_sum_rolls_nonneg(gchain@);
        }
        total = sat_add(total, cv);
        proof {
            let prev = chains;
            chains = chains.push(gchain@);
            assert(chains.drop_last() =~= prev);
            assert(chains.last() == gchain@);
            reveal_strlit(" ");
            reveal_strlit("(");
            reveal_strlit(")");
            assert(" "@ =~= seq![' ']);
            assert("("@ =~= seq!['(']);
            assert(")"@ =~= seq![')']);
            if prev.len() == 0 {
                assert(body@ == chains_text(chains));
            } else {
                assert(chains_text(chains) == chains_text(prev) + seq![' '] + seq!['(']
                    + chain_text(gchain@) + seq![')']);
                assert(body@ == chains_text(chains));
            }
            assert(sum_chains(chains) == sum_chains(prev) + sum_rolls(gchain@));
        }
        i = i + 1;
    }
    let mut text = u32_to_string(count);
    text.append("x");
    let sides_text = u32_to_string(sides);
    text.append(sides_text.as_str());
    text.append("<");
    text.append(body.as_str());
    text.append(">");
    proof {
        reveal_strlit("x");
        reveal_strlit("<");
        reveal_strlit(">");
        assert("x"@ =~= seq!['x']);
        assert("<"@ =~= seq!['<']);
        assert(">"@ =~= seq!['>']);
        assert(text@ =~= explode_text(count, sides, chains));
    }
    (total, text, Ghost(chains))
}

impl Expr {
    /// Evaluate the expression with the given source of rolls: the total
    /// of every term's contribution (clipped to `u32`), and the trace that
    /// shows exactly which values the dice drew.
    pub fn evaluate<R: DieRoller>(&self, roller: &mut R) -> (r: (u32, String))
        requires
            self.wf(),
        ensures
            exists|ds: Seq<TermDraw>| #[trigger] outcome_ok(self@, ds, r.0, r.1@),
    {
        let mut total: u32 = 0;
        let mut text = String::new();
        let ghost mut ds: Seq<TermDraw> = Seq::<TermDraw>::empty();
        let mut i: usize = 0;
        while i < self.0.len()
            invariant
                self.wf(),
                i <= self.0@.len(),
                ds.len() == i,
                forall|j: int| 0 <= j < i ==> draw_ok(self.0@[j], ds[j]),
                total as int == sat32(terms_total(self.0@.take(i as int), ds)),
                text@ == terms_text(self.0@.take(i as int), ds),
            decreases self.0@.len() - i,
        {
            let t = self.0[i];
            proof {
                assert(roll_wf(self.0@[i as int]));
            }
            if i > 0 {
                text.append(" + ");
            }
            let (v, fragment, gdraw): (u32, String, Ghost<TermDraw>) = match t {
                Roll::Dice(count, sides) => {
                    let (v, fragment, grolls) = roll_fixed(roller, count, sides);
                    (v, fragment, Ghost(TermDraw::Fixed { rolls: grolls@ }))
                },
                Roll::ExplodingDice(count, sides) => {
                    let (v, fragment, gchains) = roll_explode(roller, count, sides);
                    (v, fragment, Ghost(TermDraw::Exploding { chains: gchains@ }))
                },
                Roll::Incr(value) => (value, u32_to_string(value), Ghost(TermDraw::Incr)),
            };
            text.append(fragment.as_str());
            proof {
                lemma_terms_total_nonneg(self.0@.take(i as int), ds);
                lemma_term_total_nonneg(self.0@[i as int], gdraw@);
            }
            total = sat_add(total, v);
            proof {
                let prevts = self.0@.take(i as int);
                let prevds = ds;
                ds = ds.push(gdraw@);
                let ts2 = self.0@.take(i + 1);
                assert(ts2.drop_last() =~= prevts);
                assert(ds.drop_last() =~= prevds);
                assert(ts2.last() == self.0@[i as int]);
                assert(ds.last() == gdraw@);
                assert(draw_ok(self.0@[i as int], gdraw@));
                assert(term_total(self.0@[i as int], gdraw@) == v as int || sat32(
                    term_total(self.0@[i as int], gdraw@),
                ) == v as int);
                reveal_strlit(" + ");
                assert(" + "@ =~= seq![' '] + seq!['+'] + seq![' ']);
                assert(term_text(self.0@[i as int], gdraw@) == fragment@);
                if prevts.len() == 0 {
                    assert(terms_text(ts2, ds) == term_text(ts2[0], ds[0]));
                    assert(text@ == terms_text(ts2, ds));
                } else {
                    assert(terms_text(ts2, ds) == terms_text(prevts, prevds) + seq![' ']
                        + seq!['+'] + seq![' '] + term_text(ts2.last(), ds.last()));
                    assert(text@ == terms_text(ts2, ds));
                }
                assert(terms_total(ts2, ds) == terms_total(prevts, prevds) + term_total(
                    ts2.last(),
                    ds.last(),
                ));
                assert(total as int == sat32(terms_total(ts2, ds)));
            }
            i = i + 1;
        }
        let result = (total, text);
        proof {
            assert(self.0@.take(self.0@.len() as int) =~= self.0@);
            assert(outcome_ok(self@, ds, result.0, result.1@));
        }
        result
    }
}

impl Decider for Expr {
    open spec fn valid(&self) -> bool {
        self.wf()
    }

    open spec fn decides(&self, d: Decision) -> bool {
        d matches Decision::AnnotatedNum { value, extra } && exists|ds: Seq<TermDraw>|
            #[trigger] outcome_ok(self@, ds, value, extra@)
    }

    /// Perform the random function and return a Decision object
    /// representing the result.
    fn decide(&self) -> (d: Decision) {
        let mut roller = ThreadRoller;
        let outcome = self.evaluate(&mut roller);
        let ghost ds0 = choose|ds: Seq<TermDraw>| outcome_ok(self@, ds, outcome.0, outcome.1@);
        let ghost ev = outcome.1@;
        proof {
            assert(outcome_ok(self@, ds0, outcome.0, ev));
        }
        let d = Decision::AnnotatedNum { value: outcome.0, extra: outcome.1 };
        proof {
            assert(d matches Decision::AnnotatedNum { value, extra } && value == outcome.0
                && extra@ == ev);
            assert(self.decides(d));
        }
        d
    }
}

/// Return an ApiDoc object describing the Dice decider.
pub fn api_doc() -> (r: crate::ApiDoc)
    ensures
        r.name@ == "roll"@,
        r.params@.len() == 1,
        r.params@[0]@ == "dice expression"@,
        r.hint@ == "Roll the described combination of dice"@,
        r.help@.len() > 0,
{
    crate::ApiDoc {
        name: "roll",
        params: vec!["dice expression"],
        hint: "Roll the described combination of dice",
        help: vec![
            "Roll the described combination of dice, returning a number and description of the",
            "roll. The {dice expr} is a combination of terms of one of three forms joined by +:",
            "  - {n}d{s}: roll n s-sided dice (3d6)",
            "  - {n}x{s}: roll n s-sided exploding dice (2x8)",
            "  - {n}: an increment.",
            "The number of sides supported are 3, 4, 6, 8, 10, 12, 20, or 100. Exploding dice",
            "work much like normal, except when a die rolls the maximum value for the die,",
            "then it is re-rolled to generate a value to add to the original roll. This may",
            "happen more than once.",
            "The return is the sum of all of the rolls followed by a string representing the",
            "individual rolls.",
            "Normal dice are represented by the expression, followed by the results of the",
            "individual die rolls in parens: 3d6(3+5+1).",
            "Exploding dice are represented by the dice expression followed by an expression",
            "in angle brackets. The expression is made of the results of each individual die",
            "in parens, with any die that exploded being followed by an !, and the re-roll",
            "added as needed: 3x6<(1) (6!+5) (2)>.",
        ],
    }
}

impl PartialEq for Expr {
    fn eq(&self, other: &Expr) -> (r: bool) {
        if self.0.len() != other.0.len() {
            return false;
        }
        let mut i: usize = 0;
        while i < self.0.len()
            invariant
                i <= self.0@.len(),
                self.0@.len() == other.0@.len(),
                forall|j: int| 0 <= j < i ==> self.0@[j] == other.0@[j],
            decreases self.0@.len() - i,
        {
            if self.0[i] != other.0[i] {
                return false;
            }
            i = i + 1;
        }
        proof {
            assert(self.0@ =~= other.0@);
        }
        true
    }
}

impl vstd::std_specs::cmp::PartialEqSpecImpl for Expr {
    open spec fn obeys_eq_spec() -> bool {
        true
    }

    open spec fn eq_spec(&self, other: &Expr) -> bool {
        self@ == other@
    }
}

} // verus!
