//! The incremental reader: source text in, a sequence of `Value` trees out,
//! with a parenthesis-stack state carried across calls.  The executable
//! parser is proved to return exactly what the specification parser
//! (`sparse`) says.

use vstd::prelude::*;
use vstd::string::StrSliceExecFns;

use crate::value::lemma_model_seq;
use crate::value::lemma_model_seq_push;
use crate::value::model_seq;
use crate::value::SpecVal;
use crate::value::Value;

verus! {

broadcast use vstd::std_specs::vec::axiom_vec_index_decreases, vstd::seq::axiom_seq_index_decreases;

/// What parsing can fail with.
#[derive(Clone, Debug, PartialEq, Eq)]
pub enum ParseError {
    /// A closing parenthesis with no list open.
    UnmatchedClose,
    /// A string literal with no closing quote.
    UnterminatedString,
    /// A token that is neither an integer nor a symbol.
    BadToken,
    /// `finish` called while lists are still open.
    Unfinished,
}

/// The model of a `ParseError`.
pub enum PErr {
    UnmatchedClose,
    UnterminatedString,
    BadToken,
    Unfinished,
}

impl ParseError {
    /// The error this stands for in the specification parser.
    pub open spec fn model(self) -> PErr {
        match self {
            ParseError::UnmatchedClose => PErr::UnmatchedClose,
            ParseError::UnterminatedString => PErr::UnterminatedString,
            ParseError::BadToken => PErr::BadToken,
            ParseError::Unfinished => PErr::Unfinished,
        }
    }
}

/// What one parsing run yields: the top-level forms read, or an error, with
/// the parenthesis stack as it stands afterwards.
pub enum POut {
    PDone(Seq<SpecVal>, Seq<Seq<SpecVal>>),
    PFail(PErr, Seq<Seq<SpecVal>>),
}

/// Whether a character counts as whitespace.  Stands for
/// `char::is_whitespace`, a pure function of the character.
pub uninterp spec fn is_space_char(c: char) -> bool;

/// Whether a character is alphabetic.  Stands for `char::is_alphabetic`,
/// a pure function of the character.
pub uninterp spec fn is_alpha_char(c: char) -> bool;

/// Whether a character is alphanumeric.  Stands for
/// `char::is_alphanumeric`, a pure function of the character.
pub uninterp spec fn is_alnum_char(c: char) -> bool;

/// Relies on `char::is_whitespace`: the result depends on the character
/// alone.
#[verifier::external_body]
fn char_is_space(c: char) -> (r: bool)
    ensures
        r == is_space_char(c),
{
    c.is_whitespace()
}

/// Relies on `char::is_alphabetic`: the result depends on the character
/// alone.
#[verifier::external_body]
fn char_is_alpha(c: char) -> (r: bool)
    ensures
        r == is_alpha_char(c),
{
    c.is_alphabetic()
}

/// Relies on `char::is_alphanumeric`: the result depends on the character
/// alone.
#[verifier::external_body]
fn char_is_alnum(c: char) -> (r: bool)
    ensures
        r == is_alnum_char(c),
{
    c.is_alphanumeric()
}

/// The value of a decimal digit character.
pub open spec fn char_digit(c: char) -> Option<nat> {
    if c == '0' {
        Some(0)
    } else if c == '1' {
        Some(1)
    } else if c == '2' {
        Some(2)
    } else if c == '3' {
        Some(3)
    } else if c == '4' {
        Some(4)
    } else if c == '5' {
        Some(5)
    } else if c == '6' {
        Some(6)
    } else if c == '7' {
        Some(7)
    } else if c == '8' {
        Some(8)
    } else if c == '9' {
        Some(9)
    } else {
        None
    }
}

/// The value of a decimal digit character, or zero.
pub open spec fn digit_or_zero(c: char) -> nat {
    match char_digit(c) {
        Some(d) => d,
        None => 0,
    }
}

/// Whether every character is a decimal digit.
pub open spec fn all_digits(s: Seq<char>) -> bool {
    forall|i: int| 0 <= i < s.len() ==> (#[trigger] char_digit(s[i])) is Some
}

/// The number the digit characters denote, most significant first.
pub open spec fn digits_val(s: Seq<char>) -> nat
    decreases s.len(),
{
    if s.len() == 0 {
        0
    } else {
        digits_val(s.drop_last()) * 10 + digit_or_zero(s.last())
    }
}

/// How `str::parse::<i64>` reads a token: an optional sign, then at least
/// one decimal digit, rejecting values outside the 64-bit signed range.
pub open spec fn parse_int_chars(s: Seq<char>) -> Option<i64> {
    let signed = s.len() > 0 && (s[0] == '+' || s[0] == '-');
    let neg = s.len() > 0 && s[0] == '-';
    let ds = if signed {
        s.subrange(1, s.len() as int)
    } else {
        s
    };
    if ds.len() == 0 || !all_digits(ds) {
        None
    } else if neg {
        if digits_val(ds) <= 0x8000000000000000 {
            Some((-(digits_val(ds) as int)) as i64)
        } else {
            None
        }
    } else {
        if digits_val(ds) <= 0x7FFFFFFFFFFFFFFF {
            Some(digits_val(ds) as int as i64)
        } else {
            None
        }
    }
}

/// Whether a character may continue a symbol.
pub open spec fn is_symbol_tail_char(c: char) -> bool {
    is_alnum_char(c) || c == '?' || c == '/' || c == '_'
}

/// Whether a token is a symbol: one of the fixed operator characters, or an
/// alphabetic head followed by alphanumerics, `?`, `/` and `_`.
pub open spec fn is_symbol_chars(t: Seq<char>) -> bool {
    (t.len() == 1 && (t[0] == '+' || t[0] == '-' || t[0] == '*' || t[0] == '/' || t[0] == '='
        || t[0] == '>' || t[0] == '<')) || (t.len() > 0 && is_alpha_char(t[0]) && (forall|i: int|
        1 <= i < t.len() ==> #[trigger] is_symbol_tail_char(t[i])))
}

/// The position of the first newline at or after `i`, or the end.
pub open spec fn find_newline(s: Seq<char>, i: int) -> int
    decreases s.len() - i,
{
    if i >= s.len() {
        s.len() as int
    } else if s[i] == '\n' {
        i
    } else {
        find_newline(s, i + 1)
    }
}

/// The position of the first double quote at or after `i`, or the end.
pub open spec fn find_quote(s: Seq<char>, i: int) -> int
    decreases s.len() - i,
{
    if i >= s.len() {
        s.len() as int
    } else if s[i] == '"' {
        i
    } else {
        find_quote(s, i + 1)
    }
}

/// The position of the first whitespace or closing parenthesis at or after
/// `i`, or the end: where a token ends.
pub open spec fn find_token_end(s: Seq<char>, i: int) -> int
    decreases s.len() - i,
{
    if i >= s.len() {
        s.len() as int
    } else if is_space_char(s[i]) || s[i] == ')' {
        i
    } else {
        find_token_end(s, i + 1)
    }
}

/// `find_newline` stays between its start and the end of the text.
pub proof fn lemma_find_newline_bounds(s: Seq<char>, i: int)
    requires
        i <= s.len(),
    ensures
        i <= find_newline(s, i) <= s.len(),
    decreases s.len() - i,
{
    if i < s.len() && s[i] != '\n' {
        lemma_find_newline_bounds(s, i + 1);
    }
}

/// `find_quote` stays between its start and the end of the text.
pub proof fn lemma_find_quote_bounds(s: Seq<char>, i: int)
    requires
        i <= s.len(),
    ensures
        i <= find_quote(s, i) <= s.len(),
    decreases s.len() - i,
{
    if i < s.len() && s[i] != '"' {
        lemma_find_quote_bounds(s, i + 1);
    }
}

/// `find_token_end` stays between its start and the end of the text.
pub proof fn lemma_find_token_end_bounds(s: Seq<char>, i: int)
    requires
        i <= s.len(),
    ensures
        i <= find_token_end(s, i) <= s.len(),
    decreases s.len() - i,
{
    if i < s.len() && !(is_space_char(s[i]) || s[i] == ')') {
        lemma_find_token_end_bounds(s, i + 1);
    }
}

/// The specification parser, reading `s[i..]` against an open-list stack:
/// whitespace is skipped; `;` discards the rest of the line; `(` opens a
/// list; `)` closes the innermost one; `"` reads a string literal without
/// escapes; anything else is a token, an integer if it parses as one, else a
/// symbol.  A finished value lands in the innermost open list, or among the
/// returned top-level forms when no list is open.
pub open spec fn sparse(st: Seq<Seq<SpecVal>>, s: Seq<char>, i: int) -> POut
    decreases s.len() - i, 1int,
    via sparse_via
{
    if i >= s.len() {
        POut::PDone(Seq::empty(), st)
    } else if is_space_char(s[i]) {
        sparse(st, s, i + 1)
    } else if s[i] == ';' {
        sparse(st, s, find_newline(s, i + 1))
    } else if s[i] == '(' {
        sparse(st.push(Seq::empty()), s, i + 1)
    } else if s[i] == ')' {
        if st.len() == 0 {
            POut::PFail(PErr::UnmatchedClose, st)
        } else {
            sparse_emit(SpecVal::List(st.last()), st.drop_last(), s, i + 1)
        }
    } else if s[i] == '"' {
        let j = find_quote(s, i + 1);
        if j >= s.len() {
            POut::PFail(PErr::UnterminatedString, st)
        } else {
            sparse_emit(SpecVal::Str(s.subrange(i + 1, j)), st, s, j + 1)
        }
    } else {
        let j = find_token_end(s, i);
        let tok = s.subrange(i, j);
        match parse_int_chars(tok) {
            Some(n) => sparse_emit(SpecVal::Integer(n), st, s, j),
            None => if is_symbol_chars(tok) {
                sparse_emit(SpecVal::Symbol(tok), st, s, j)
            } else {
                POut::PFail(PErr::BadToken, st)
            },
        }
    }
}

#[via_fn]
proof fn sparse_via(st: Seq<Seq<SpecVal>>, s: Seq<char>, i: int) {
    if i < s.len() {
        if !is_space_char(s[i]) && s[i] == ';' {
            lemma_find_newline_bounds(s, i + 1);
        }
        if !is_space_char(s[i]) && s[i] != ';' && s[i] != '(' && s[i] != ')' && s[i] == '"' {
            lemma_find_quote_bounds(s, i + 1);
        }
        if !is_space_char(s[i]) && s[i] != ';' && s[i] != '(' && s[i] != ')' && s[i] != '"' {
            lemma_find_token_end_bounds(s, i + 1);
        }
    }
}

/// Settles one finished value against the stack: into the innermost open
/// list, or — with no list open — in front of the forms the rest of the text
/// yields; then parsing continues.
pub open spec fn sparse_emit(v: SpecVal, st: Seq<Seq<SpecVal>>, s: Seq<char>, i: int) -> POut
    decreases s.len() - i, 2int,
{
    if st.len() == 0 {
        match sparse(st, s, i) {
            POut::PDone(out, stf) => POut::PDone(Seq::empty().push(v) + out, stf),
            POut::PFail(e, stf) => POut::PFail(e, stf),
        }
    } else {
        sparse(st.update(st.len() - 1, st.last().push(v)), s, i)
    }
}

/// Models of the open lists on the parser's stack.
pub open spec fn model_stack(ss: Seq<Vec<Value>>) -> Seq<Seq<SpecVal>>
    decreases ss,
    via model_stack_via
{
    if ss.len() <= 0 {
        Seq::empty()
    } else {
        Seq::empty().push(model_seq(ss[0]@)) + model_stack(ss.subrange(1, ss.len() as int))
    }
}

#[via_fn]
proof fn model_stack_via(ss: Seq<Vec<Value>>) {
    if ss.len() > 0 {
        assert(decreases_to!(ss => ss[0]));
    }
}

/// The model of the stack has one open list per entry.
pub proof fn lemma_model_stack(ss: Seq<Vec<Value>>)
    ensures
        model_stack(ss).len() == ss.len(),
        forall|i: int| 0 <= i < ss.len() ==> #[trigger] model_stack(ss)[i] == model_seq(ss[i]@),
    decreases ss.len(),
{
    if ss.len() > 0 {
        let tail = ss.subrange(1, ss.len() as int);
        lemma_model_stack(tail);
        assert forall|i: int| 0 <= i < ss.len() implies #[trigger] model_stack(ss)[i] == model_seq(
            ss[i]@,
        ) by {
            if i > 0 {
                assert(model_stack(ss)[i] == model_stack(tail)[i - 1]);
                assert(tail[i - 1] == ss[i]);
            }
        }
    }
}

/// The loop relation of `parse_next`: parsing the rest of the text against
/// the current stack completes the whole run, with the forms already
/// collected standing in front.
pub open spec fn rest_completes(
    st0: Seq<Seq<SpecVal>>,
    s: Seq<char>,
    done: Seq<SpecVal>,
    st: Seq<Seq<SpecVal>>,
    i: int,
) -> bool {
    match sparse(st, s, i) {
        POut::PDone(out, stf) => sparse(st0, s, 0) == POut::PDone(done + out, stf),
        POut::PFail(e, stf) => sparse(st0, s, 0) == POut::PFail(e, stf),
    }
}

/// Collects the characters of a text, in order.
fn str_to_chars(s: &str) -> (r: Vec<char>)
    ensures
        r@ == s@,
{
    let n = s.unicode_len();
    let mut out: Vec<char> = Vec::new();
    let mut i: usize = 0;
    while i < n
        invariant
            n == s@.len(),
            i <= n,
            out@.len() == i,
            forall|j: int| 0 <= j < i ==> out@[j] == s@[j],
        decreases n - i,
    {
        out.push(s.get_char(i));
        i = i + 1;
    }
    proof {
        assert(out@ =~= s@);
    }
    out
}

/// The value of one decimal digit character.
fn char_digit_exec(c: char) -> (r: Option<u64>)
    ensures
        (match char_digit(c) {
            Some(d) => r is Some && r.unwrap() == d,
            None => r is None,
        }),
{
    if c == '0' {
        Some(0)
    } else if c == '1' {
        Some(1)
    } else if c == '2' {
        Some(2)
    } else if c == '3' {
        Some(3)
    } else if c == '4' {
        Some(4)
    } else if c == '5' {
        Some(5)
    } else if c == '6' {
        Some(6)
    } else if c == '7' {
        Some(7)
    } else if c == '8' {
        Some(8)
    } else if c == '9' {
        Some(9)
    } else {
        None
    }
}

/// Appending digits never shrinks the number they denote.
proof fn lemma_digits_val_mono(s: Seq<char>, m: int)
    requires
        0 <= m <= s.len(),
    ensures
        digits_val(s) >= digits_val(s.take(m)),
    decreases s.len(),
{
    if m < s.len() {
        let p = s.drop_last();
        lemma_digits_val_mono(p, m);
        assert(p.take(m) =~= s.take(m));
    } else {
        assert(s.take(m) =~= s);
    }
}

/// Reads the token `cs[a..b]` as a 64-bit signed integer, exactly as the
/// specification says.
#[verifier::loop_isolation(false)]
fn parse_int_exec(cs: &Vec<char>, a: usize, b: usize) -> (r: Option<i64>)
    requires
        a <= b <= cs@.len(),
    ensures
        r == parse_int_chars(cs@.subrange(a as int, b as int)),
{
    let ghost t = cs@.subrange(a as int, b as int);
    if a >= b {
        return None;
    }
    let c0 = cs[a];
    proof {
        assert(t[0] == cs@[a as int]);
    }
    let neg = c0 == '-';
    let signed = c0 == '+' || c0 == '-';
    let start = if signed {
        a + 1
    } else {
        a
    };
    let ghost ds = cs@.subrange(start as int, b as int);
    proof {
        if signed {
            assert(ds =~= t.subrange(1, t.len() as int));
        } else {
            assert(ds =~= t);
        }
    }
    if start >= b {
        return None;
    }
    let limit: u64 = if neg {
        0x8000000000000000
    } else {
        0x7FFFFFFFFFFFFFFF
    };
    let mut acc: u64 = 0;
    let mut k = start;
    while k < b
        invariant
            start <= k <= b,
            b <= cs@.len(),
            ds == cs@.subrange(start as int, b as int),
            all_digits(ds.take(k - start)),
            acc == digits_val(ds.take(k - start)),
            acc <= limit,
            limit == 0x8000000000000000 || limit == 0x7FFFFFFFFFFFFFFF,
        decreases b - k,
    {
        let d = match char_digit_exec(cs[k]) {
            Some(d) => d,
            None => {
                proof {
                    assert(ds[k - start] == cs@[k as int]);
                    assert(!all_digits(ds));
                }
                return None;
            },
        };
        proof {
            assert(ds[k - start] == cs@[k as int]);
            assert(d < 10);
        }
        let over = acc > limit / 10 || (acc == limit / 10 && d > limit % 10);
        if over {
            proof {
                assert(acc * 10 + d > limit) by (nonlinear_arith)
                    requires
                        acc > limit / 10 || (acc == limit / 10 && d > limit % 10),
                        limit == 0x8000000000000000 || limit == 0x7FFFFFFFFFFFFFFF,
                        d < 10,
                ;
                assert(ds.take(k - start + 1).drop_last() =~= ds.take(k - start));
                assert(digits_val(ds.take(k - start + 1)) == acc * 10 + d);
                if all_digits(ds) {
                    lemma_digits_val_mono(ds, k - start + 1);
                    assert(digits_val(ds) > limit);
                }
            }
            return None;
        }
        proof {
            assert(acc * 10 + d <= limit) by (nonlinear_arith)
                requires
                    !(acc > limit / 10 || (acc == limit / 10 && d > limit % 10)),
                    limit == 0x8000000000000000 || limit == 0x7FFFFFFFFFFFFFFF,
                    d < 10,
            ;
            assert(ds.take(k - start + 1).drop_last() =~= ds.take(k - start));
            assert(digits_val(ds.take(k - start + 1)) == acc * 10 + d);
        }
        acc = acc * 10 + d;
        k = k + 1;
    }
    proof {
        assert(ds.take(b - start) =~= ds);
    }
    if neg {
        if acc == 0x8000000000000000 {
            Some(i64::MIN)
        } else {
            Some(-(acc as i64))
        }
    } else {
        Some(acc as i64)
    }
}

/// Whether the token `cs[a..b]` is a symbol.
fn is_symbol_exec(cs: &Vec<char>, a: usize, b: usize) -> (r: bool)
    requires
        a <= b <= cs@.len(),
    ensures
        r == is_symbol_chars(cs@.subrange(a as int, b as int)),
{
    let ghost t = cs@.subrange(a as int, b as int);
    if a >= b {
        return false;
    }
    let c0 = cs[a];
    if b - a == 1 && (c0 == '+' || c0 == '-' || c0 == '*' || c0 == '/' || c0 == '=' || c0 == '>'
        || c0 == '<') {
        return true;
    }
    if !char_is_alpha(c0) {
        proof {
            assert(t[0] == cs@[a as int]);
        }
        return false;
    }
    let mut k = a + 1;
    while k < b
        invariant
            a + 1 <= k <= b,
            b <= cs@.len(),
            t == cs@.subrange(a as int, b as int),
            is_alpha_char(t[0]),
            forall|j: int| 1 <= j < k - a ==> #[trigger] is_symbol_tail_char(t[j]),
        decreases b - k,
    {
        let c = cs[k];
        let ok = char_is_alnum(c) || c == '?' || c == '/' || c == '_';
        if !ok {
            proof {
                assert(t[k - a] == cs@[k as int]);
                assert(!is_symbol_tail_char(t[k - a]));
            }
            return false;
        }
        proof {
            assert(t[k - a] == cs@[k as int]);
        }
        k = k + 1;
    }
    true
}

/// The incremental reader.  `parse_next` may be called line by line; lists
/// left open carry over on the stack, and `finish` checks that none remain.
pub struct Parser {
    state: Vec<Vec<Value>>,
}

impl View for Parser {
    type V = Seq<Seq<SpecVal>>;

    closed spec fn view(&self) -> Seq<Seq<SpecVal>> {
        model_stack(self.state@)
    }
}

impl Parser {
    /// A fresh parser with no open list.
    pub fn new() -> (p: Parser)
        ensures
            p@ == Seq::<Seq<SpecVal>>::empty(),
    {
        let p = Parser { state: Vec::new() };
        proof {
            assert(p@ =~= Seq::<Seq<SpecVal>>::empty());
        }
        p
    }

    /// Settles one finished value: into the innermost open list, or into the
    /// top-level results when no list is open.
    fn emit_value(&mut self, result: &mut Vec<Value>, v: Value)
        ensures
            old(self)@.len() == 0 ==> final(self)@ == old(self)@ && model_seq(final(result)@)
                == model_seq(old(result)@).push(v.model()),
            old(self)@.len() > 0 ==> model_seq(final(result)@) == model_seq(old(result)@) && final(self)@
                == old(self)@.update(old(self)@.len() - 1, old(self)@.last().push(v.model())),
    {
        proof {
            lemma_model_stack(self.state@);
        }
        let ghost vg = v;
        if self.state.len() == 0 {
            let ghost r0 = result@;
            result.push(v);
            proof {
                lemma_model_seq_push(r0, vg);
            }
        } else {
            let ghost st0 = self.state@;
            let top = self.state.pop().unwrap();
            let mut p = top;
            let ghost p0 = p@;
            p.push(v);
            proof {
                lemma_model_seq_push(p0, vg);
            }
            self.state.push(p);
            proof {
                lemma_model_stack(self.state@);
                assert(model_stack(self.state@) =~= model_stack(st0).update(
                    model_stack(st0).len() - 1,
                    model_stack(st0).last().push(vg.model()),
                ));
            }
        }
    }

    /// Reads every form in `src`, returning the top-level values completed,
    /// in source order; lists still open stay on the stack for the next
    /// call.
    #[verifier::loop_isolation(false)]
    pub fn parse_next(&mut self, src: &str) -> (r: Result<Vec<Value>, ParseError>)
        ensures
            (match sparse(old(self)@, src@, 0) {
                POut::PDone(out, stf) => (match r {
                    Ok(vals) => model_seq(vals@) == out && final(self)@ == stf,
                    Err(_) => false,
                }),
                POut::PFail(e, stf) => (match r {
                    Ok(_) => false,
                    Err(err) => err.model() == e && final(self)@ == stf,
                }),
            }),
    {
        let chars = str_to_chars(src);
        let ghost s = src@;
        let ghost st0 = self@;
        let mut result: Vec<Value> = Vec::new();
        let mut i: usize = 0;
        loop
            invariant
                i <= chars@.len(),
                chars@ == s,
                rest_completes(st0, s, model_seq(result@), self@, i as int),
            decreases chars@.len() - i,
        {
            if i >= chars.len() {
                proof {
                    assert(model_seq(result@) + Seq::<SpecVal>::empty() =~= model_seq(result@));
                }
                return Ok(result);
            }
            let c = chars[i];
            if char_is_space(c) {
                i = i + 1;
                proof {
                    assert(rest_completes(st0, s, model_seq(result@), self@, i as int));
                }
            } else if c == ';' {
                let mut j = i + 1;
                while j < chars.len() && chars[j] != '\n'
                    invariant
                        i + 1 <= j <= chars@.len(),
                        chars@ == s,
                        find_newline(s, i + 1) == find_newline(s, j as int),
                    decreases chars@.len() - j,
                {
                    j = j + 1;
                }
                i = j;
                proof {
                    assert(rest_completes(st0, s, model_seq(result@), self@, i as int));
                }
            } else if c == '(' {
                let ghost st1 = self.state@;
                self.state.push(Vec::new());
                proof {
                    lemma_model_stack(st1);
                    lemma_model_stack(self.state@);
                    assert(model_stack(self.state@) =~= model_stack(st1).push(
                        Seq::<SpecVal>::empty(),
                    ));
                }
                i = i + 1;
                proof {
                    assert(rest_completes(st0, s, model_seq(result@), self@, i as int));
                }
            } else if c == ')' {
                proof {
                    lemma_model_stack(self.state@);
                }
                let ghost stc = self@;
                let top = match self.state.pop() {
                    Some(t) => t,
                    None => {
                        return Err(ParseError::UnmatchedClose);
                    },
                };
                proof {
                    lemma_model_stack(self.state@);
                    assert(model_stack(self.state@) =~= stc.drop_last());
                    assert(stc.last() == model_seq(top@));
                }
                let closed = Value::List(top);
                let ghost st_b = self@;
                let ghost r_b = result@;
                let ghost vm = closed.model();
                self.emit_value(&mut result, closed);
                proof {
                    assert(vm == SpecVal::List(stc.last()));
                    assert(st_b == stc.drop_last());
                    assert(sparse(stc, s, i as int) == sparse_emit(
                        SpecVal::List(stc.last()),
                        stc.drop_last(),
                        s,
                        i + 1,
                    ));
                    assert(sparse_emit(SpecVal::List(stc.last()), stc.drop_last(), s, i + 1)
                        == sparse_emit(vm, st_b, s, i + 1));
                    if st_b.len() == 0 {
                        assert(sparse_emit(vm, st_b, s, i + 1) == (match sparse(st_b, s, i + 1) {
                            POut::PDone(out, stf) => POut::PDone(Seq::empty().push(vm) + out, stf),
                            POut::PFail(e, stf) => POut::PFail(e, stf),
                        }));
                        match sparse(st_b, s, i + 1) {
                            POut::PDone(out2, stf) => {
                                assert(model_seq(r_b) + (Seq::empty().push(vm) + out2)
                                    =~= model_seq(r_b).push(vm) + out2);
                                assert(model_seq(result@) == model_seq(r_b).push(vm));
                            },
                            POut::PFail(_, _) => {},
                        }
                        assert(rest_completes(st0, s, model_seq(result@), self@, i + 1));
                    } else {
                        assert(self@ == st_b.update(st_b.len() - 1, st_b.last().push(vm)));
                        assert(sparse_emit(vm, st_b, s, i + 1) == sparse(
                            st_b.update(st_b.len() - 1, st_b.last().push(vm)),
                            s,
                            i + 1,
                        ));
                        assert(rest_completes(st0, s, model_seq(result@), self@, i + 1));
                    }
                }
                i = i + 1;
                proof {
                    assert(rest_completes(st0, s, model_seq(result@), self@, i as int));
                }
            } else if c == '"' {
                let mut j = i + 1;
                while j < chars.len() && chars[j] != '"'
                    invariant
                        i + 1 <= j <= chars@.len(),
                        chars@ == s,
                        find_quote(s, i + 1) == find_quote(s, j as int),
                    decreases chars@.len() - j,
                {
                    j = j + 1;
                }
                if j >= chars.len() {
                    return Err(ParseError::UnterminatedString);
                }
                let tok = src.substring_char(i + 1, j).to_owned();
                let sv = Value::Str(tok);
                let ghost st_b = self@;
                let ghost r_b = result@;
                let ghost vm = sv.model();
                self.emit_value(&mut result, sv);
                proof {
                    assert(find_quote(s, i + 1) == j as int);
                    assert(vm == SpecVal::Str(s.subrange(i + 1, j as int)));
                    assert(sparse(st_b, s, i as int) == sparse_emit(vm, st_b, s, j + 1));
                    if st_b.len() == 0 {
                        assert(sparse_emit(vm, st_b, s, j + 1) == (match sparse(st_b, s, j + 1) {
                            POut::PDone(out, stf) => POut::PDone(Seq::empty().push(vm) + out, stf),
                            POut::PFail(e, stf) => POut::PFail(e, stf),
                        }));
                        match sparse(st_b, s, j + 1) {
                            POut::PDone(out2, stf) => {
                                assert(model_seq(r_b) + (Seq::empty().push(vm) + out2)
                                    =~= model_seq(r_b).push(vm) + out2);
                                assert(model_seq(result@) == model_seq(r_b).push(vm));
                            },
                            POut::PFail(_, _) => {},
                        }
                        assert(rest_completes(st0, s, model_seq(result@), self@, j + 1));
                    } else {
                        assert(self@ == st_b.update(st_b.len() - 1, st_b.last().push(vm)));
                        assert(sparse_emit(vm, st_b, s, j + 1) == sparse(
                            st_b.update(st_b.len() - 1, st_b.last().push(vm)),
                            s,
                            j + 1,
                        ));
                        assert(rest_completes(st0, s, model_seq(result@), self@, j + 1));
                    }
                }
                i = j + 1;
                proof {
                    assert(rest_completes(st0, s, model_seq(result@), self@, i as int));
                }
            } else {
                let mut j = i;
                while j < chars.len() && !(char_is_space(chars[j]) || chars[j] == ')')
                    invariant
                        i <= j <= chars@.len(),
                        chars@ == s,
                        find_token_end(s, i as int) == find_token_end(s, j as int),
                    decreases chars@.len() - j,
                {
                    j = j + 1;
                }
                proof {
                    assert(find_token_end(s, i as int) == j as int);
                }
                match parse_int_exec(&chars, i, j) {
                    Some(n) => {
                        let iv = Value::Integer(n);
                        let ghost st_b = self@;
                        let ghost r_b = result@;
                        let ghost vm = iv.model();
                        self.emit_value(&mut result, iv);
                        proof {
                            assert(vm == SpecVal::Integer(n));
                            assert(sparse(st_b, s, i as int) == sparse_emit(vm, st_b, s, j as int));
                            if st_b.len() == 0 {
                                assert(sparse_emit(vm, st_b, s, j as int) == (match sparse(
                                    st_b,
                                    s,
                                    j as int,
                                ) {
                                    POut::PDone(out, stf) => POut::PDone(
                                        Seq::empty().push(vm) + out,
                                        stf,
                                    ),
                                    POut::PFail(e, stf) => POut::PFail(e, stf),
                                }));
                                match sparse(st_b, s, j as int) {
                                    POut::PDone(out2, stf) => {
                                        assert(model_seq(r_b) + (Seq::empty().push(vm) + out2)
                                            =~= model_seq(r_b).push(vm) + out2);
                                        assert(model_seq(result@) == model_seq(r_b).push(vm));
                                    },
                                    POut::PFail(_, _) => {},
                                }
                                assert(rest_completes(st0, s, model_seq(result@), self@, j as int));
                            } else {
                                assert(self@ == st_b.update(st_b.len() - 1, st_b.last().push(vm)));
                                assert(rest_completes(st0, s, model_seq(result@), self@, j as int));
                            }
                        }
                    },
                    None => {
                        if is_symbol_exec(&chars, i, j) {
                            let tok = src.substring_char(i, j).to_owned();
                            let sv = Value::Symbol(tok);
                            let ghost st_b = self@;
                            let ghost r_b = result@;
                            let ghost vm = sv.model();
                            self.emit_value(&mut result, sv);
                            proof {
                                assert(vm == SpecVal::Symbol(s.subrange(i as int, j as int)));
                                assert(sparse(st_b, s, i as int) == sparse_emit(
                                    vm,
                                    st_b,
                                    s,
                                    j as int,
                                ));
                                if st_b.len() == 0 {
                                    assert(sparse_emit(vm, st_b, s, j as int) == (match sparse(
                                        st_b,
                                        s,
                                        j as int,
                                    ) {
                                        POut::PDone(out, stf) => POut::PDone(
                                            Seq::empty().push(vm) + out,
                                            stf,
                                        ),
                                        POut::PFail(e, stf) => POut::PFail(e, stf),
                                    }));
                                    match sparse(st_b, s, j as int) {
                                        POut::PDone(out2, stf) => {
                                            assert(model_seq(r_b) + (Seq::empty().push(vm) + out2)
                                                =~= model_seq(r_b).push(vm) + out2);
                                            assert(model_seq(result@) == model_seq(r_b).push(vm));
                                        },
                                        POut::PFail(_, _) => {},
                                    }
                                    assert(rest_completes(st0, s, model_seq(result@), self@, j as int));
                                } else {
                                    assert(self@ == st_b.update(
                                        st_b.len() - 1,
                                        st_b.last().push(vm),
                                    ));
                                    assert(rest_completes(st0, s, model_seq(result@), self@, j as int));
                                }
                            }
                        } else {
                            return Err(ParseError::BadToken);
                        }
                    },
                }
                i = j;
                proof {
                    assert(rest_completes(st0, s, model_seq(result@), self@, i as int));
                }
            }
        }
    }

    /// Succeeds exactly when no list is left open.
    pub fn finish(self) -> (r: Result<(), ParseError>)
        ensures
            self@.len() == 0 ==> r is Ok,
            self@.len() != 0 ==> r == Err::<(), ParseError>(ParseError::Unfinished),
    {
        proof {
            lemma_model_stack(self.state@);
        }
        if self.state.len() == 0 {
            Ok(())
        } else {
            Err(ParseError::Unfinished)
        }
    }
}

} // verus!
