//! The parser of the rule language.
//!
//! The grammar is a parsing-expression grammar over characters:
//!
//! ```text
//! expr      := value (operation)*
//! value     := "true" | "false" | digits | "[" value* "]" | string
//!            | "." [A-Za-z.]* | "(" expr ")"
//! operation := "not" | "length" | "lines"
//!            | ("=" | "<" | ">" | "and" | "or" | "xor" | "all" | "any"
//!               | "filter" | "map" | "test") value
//! ```
//!
//! Whitespace may precede every token. Operations fold to the left.
use vstd::prelude::*;
use vstd::string::StringExecFns;
use vstd::string::StrSliceExecFns;
use crate::text::chars_of;
use crate::value::{
    exprs_model, lemma_exprs_model_push, literal, BinaryOp, Expr, ExprModel, Operation, UnaryOp, Value,
    ValueModel,
};

verus! {

pub open spec fn is_space(c: char) -> bool {
    c == ' ' || c == '\t' || c == '\n' || c == '\r'
}

pub open spec fn is_digit(c: char) -> bool {
    '0' <= c && c <= '9'
}

pub open spec fn is_path_char(c: char) -> bool {
    ('a' <= c && c <= 'z') || ('A' <= c && c <= 'Z') || c == '.'
}

/// The number of whitespace characters starting at `i`.
pub open spec fn ws_len(s: Seq<char>, i: int) -> nat
    decreases s.len() - i,
{
    if 0 <= i < s.len() && is_space(s[i]) {
        1 + ws_len(s, i + 1)
    } else {
        0
    }
}

/// The number of digits starting at `i`.
pub open spec fn digits_len(s: Seq<char>, i: int) -> nat
    decreases s.len() - i,
{
    if 0 <= i < s.len() && is_digit(s[i]) {
        1 + digits_len(s, i + 1)
    } else {
        0
    }
}

/// The number of path characters starting at `i`.
pub open spec fn path_len(s: Seq<char>, i: int) -> nat
    decreases s.len() - i,
{
    if 0 <= i < s.len() && is_path_char(s[i]) {
        1 + path_len(s, i + 1)
    } else {
        0
    }
}

/// The number that a string of decimal digits denotes.
pub open spec fn digits_value(t: Seq<char>) -> nat
    decreases t.len(),
{
    if t.len() == 0 {
        0
    } else {
        digits_value(t.drop_last()) * 10 + ((t.last() as u32 - '0' as u32) as nat)
    }
}

/// Whether the characters of `w` stand at position `i` of `s`.
pub open spec fn word_at(s: Seq<char>, i: int, w: Seq<char>) -> bool {
    0 <= i && i + w.len() <= s.len() && s.subrange(i, i + w.len()) == w
}

/// An operator token.
#[derive(Clone, Copy, Debug, PartialEq, Eq, Structural)]
pub enum Token {
    Unary(UnaryOp),
    Binary(BinaryOp),
}

/// The operator token at position `j`, with its length, trying the operators
/// that take no argument first.
pub open spec fn token_at(s: Seq<char>, j: int) -> Option<(Token, nat)> {
    if word_at(s, j, seq!['n', 'o', 't']) {
        Some((Token::Unary(UnaryOp::Not), 3))
    } else if word_at(s, j, seq!['l', 'e', 'n', 'g', 't', 'h']) {
        Some((Token::Unary(UnaryOp::Length), 6))
    } else if word_at(s, j, seq!['l', 'i', 'n', 'e', 's']) {
        Some((Token::Unary(UnaryOp::Lines), 5))
    } else if word_at(s, j, seq!['=']) {
        Some((Token::Binary(BinaryOp::Equal), 1))
    } else if word_at(s, j, seq!['<']) {
        Some((Token::Binary(BinaryOp::LessThan), 1))
    } else if word_at(s, j, seq!['>']) {
        Some((Token::Binary(BinaryOp::GreaterThan), 1))
    } else if word_at(s, j, seq!['a', 'n', 'd']) {
        Some((Token::Binary(BinaryOp::And), 3))
    } else if word_at(s, j, seq!['o', 'r']) {
        Some((Token::Binary(BinaryOp::Or), 2))
    } else if word_at(s, j, seq!['x', 'o', 'r']) {
        Some((Token::Binary(BinaryOp::Xor), 3))
    } else if word_at(s, j, seq!['a', 'l', 'l']) {
        Some((Token::Binary(BinaryOp::All), 3))
    } else if word_at(s, j, seq!['a', 'n', 'y']) {
        Some((Token::Binary(BinaryOp::Any), 3))
    } else if word_at(s, j, seq!['f', 'i', 'l', 't', 'e', 'r']) {
        Some((Token::Binary(BinaryOp::Filter), 6))
    } else if word_at(s, j, seq!['m', 'a', 'p']) {
        Some((Token::Binary(BinaryOp::Transform), 3))
    } else if word_at(s, j, seq!['t', 'e', 's', 't']) {
        Some((Token::Binary(BinaryOp::Test), 4))
    } else {
        None
    }
}

/// The body of a string literal from position `k` (after the opening quote)
/// up to and including the closing quote, appended to `acc`; the position
/// after the closing quote. `\"` stands for `"`, `\\` for `\`, and any other
/// backslash for itself followed by the next character.
pub open spec fn string_body(s: Seq<char>, k: int, acc: Seq<char>) -> Option<(Seq<char>, int)>
    decreases s.len() - k,
{
    if k < 0 || k >= s.len() {
        None
    } else if s[k] == '"' {
        Some((acc, k + 1))
    } else if s[k] == '\\' {
        if k + 1 >= s.len() {
            None
        } else if s[k + 1] == '"' || s[k + 1] == '\\' {
            string_body(s, k + 2, acc.push(s[k + 1]))
        } else {
            string_body(s, k + 2, acc.push('\\').push(s[k + 1]))
        }
    } else {
        string_body(s, k + 1, acc.push(s[k]))
    }
}

/// The value at position `i`, after optional whitespace, with the position
/// after it.
pub open spec fn value_at(s: Seq<char>, i: int) -> Option<(ExprModel, int)>
    decreases s.len() - i, 1nat,
{
    let j = i + ws_len(s, i);
    if i < 0 || j >= s.len() {
        None
    } else if word_at(s, j, seq!['t', 'r', 'u', 'e']) {
        Some((ExprModel::Literal(ValueModel::Boolean(true)), j + 4))
    } else if word_at(s, j, seq!['f', 'a', 'l', 's', 'e']) {
        Some((ExprModel::Literal(ValueModel::Boolean(false)), j + 5))
    } else if is_digit(s[j]) {
        let e = j + digits_len(s, j);
        let n = digits_value(s.subrange(j, e));
        if n <= usize::MAX {
            Some((ExprModel::Literal(ValueModel::Numeral(n as usize)), e))
        } else {
            None
        }
    } else if s[j] == '[' {
        let (items, k) = items_at(s, j + 1, Seq::empty());
        let k2 = k + ws_len(s, k);
        if 0 <= k2 < s.len() && s[k2] == ']' {
            Some((ExprModel::Literal(ValueModel::List(items)), k2 + 1))
        } else {
            None
        }
    } else if s[j] == '"' {
        match string_body(s, j + 1, Seq::empty()) {
            Some((t, e)) => Some((ExprModel::Literal(ValueModel::Str(t)), e)),
            None => None,
        }
    } else if s[j] == '.' {
        let e = j + 1 + path_len(s, j + 1);
        Some((ExprModel::Context(s.subrange(j + 1, e)), e))
    } else if s[j] == '(' {
        match expr_at(s, j + 1) {
            Some((x, k)) => {
                let k2 = k + ws_len(s, k);
                if 0 <= k2 < s.len() && s[k2] == ')' {
                    Some((x, k2 + 1))
                } else {
                    None
                }
            },
            None => None,
        }
    } else {
        None
    }
}

/// The values from position `k` on, appended to `acc`, with the position
/// after the last of them.
pub open spec fn items_at(s: Seq<char>, k: int, acc: Seq<ExprModel>) -> (Seq<ExprModel>, int)
    decreases s.len() - k, 2nat,
{
    if k < 0 || k > s.len() {
        (acc, k)
    } else {
        match value_at(s, k) {
            Some((v, k2)) => if k < k2 <= s.len() {
                items_at(s, k2, acc.push(v))
            } else {
                (acc, k)
            },
            None => (acc, k),
        }
    }
}

/// The expression at position `i`: a value and the operations that follow it.
pub open spec fn expr_at(s: Seq<char>, i: int) -> Option<(ExprModel, int)>
    decreases s.len() - i, 4nat,
{
    match value_at(s, i) {
        Some((init, k)) => if i <= k <= s.len() {
            Some(ops_at(s, k, init))
        } else {
            None
        },
        None => None,
    }
}

/// The operations from position `k` on, folded onto `acc` from the left,
/// with the position after the last of them.
pub open spec fn ops_at(s: Seq<char>, k: int, acc: ExprModel) -> (ExprModel, int)
    decreases s.len() - k, 3nat,
{
    let j = k + ws_len(s, k);
    if k < 0 || k > s.len() {
        (acc, k)
    } else {
        match token_at(s, j) {
            Some((Token::Unary(u), n)) => if 0 < n && j + n <= s.len() {
                ops_at(s, j + n, ExprModel::Unary(u, Box::new(acc)))
            } else {
                (acc, k)
            },
            Some((Token::Binary(b), n)) => if j + n <= s.len() {
                match value_at(s, j + n) {
                    Some((arg, k2)) => if k < k2 <= s.len() {
                        ops_at(s, k2, ExprModel::Binary(b, Box::new(acc), Box::new(arg)))
                    } else {
                        (acc, k)
                    },
                    None => (acc, k),
                }
            } else {
                (acc, k)
            },
            None => (acc, k),
        }
    }
}

/// Lemma: one step of the operations that follow a value.
pub proof fn lemma_ops_at_next(s: Seq<char>, k: int, acc: ExprModel)
    requires
        0 <= k <= s.len(),
    ensures
        ops_at(s, k, acc) == match token_at(s, k + ws_len(s, k)) {
            Some((Token::Unary(u), n)) => if 0 < n && k + ws_len(s, k) + n <= s.len() {
                ops_at(s, k + ws_len(s, k) + n, ExprModel::Unary(u, Box::new(acc)))
            } else {
                (acc, k)
            },
            Some((Token::Binary(b), n)) => if k + ws_len(s, k) + n <= s.len() {
                match value_at(s, k + ws_len(s, k) + n) {
                    Some((arg, k2)) => if k < k2 <= s.len() {
                        ops_at(s, k2, ExprModel::Binary(b, Box::new(acc), Box::new(arg)))
                    } else {
                        (acc, k)
                    },
                    None => (acc, k),
                }
            } else {
                (acc, k)
            },
            None => (acc, k),
        },
{
}

/// Lemma: one step of the values of a list.
pub proof fn lemma_items_at_next(s: Seq<char>, k: int, acc: Seq<ExprModel>)
    requires
        0 <= k <= s.len(),
    ensures
        items_at(s, k, acc) == match value_at(s, k) {
            Some((v, k2)) => if k < k2 <= s.len() {
                items_at(s, k2, acc.push(v))
            } else {
                (acc, k)
            },
            None => (acc, k),
        },
{
}

/// Lemma: an expression is a value followed by operations.
pub proof fn lemma_expr_at_unfold(s: Seq<char>, i: int)
    ensures
        expr_at(s, i) == match value_at(s, i) {
            Some((init, k)) => if i <= k <= s.len() {
                Some(ops_at(s, k, init))
            } else {
                None
            },
            None => None,
        },
{
}

/// Why a text is not an expression.
#[derive(Clone, Copy, Debug, PartialEq, Eq, Structural)]
pub enum ParseError {
    /// No expression starts at this character position.
    Syntax(usize),
    /// An expression was read, but text other than whitespace remains from
    /// this character position on.
    RemainingInput(usize),
}

/// The result of parsing the whole of `s`.
pub open spec fn parse_spec(s: Seq<char>) -> Result<ExprModel, ParseError> {
    match expr_at(s, 0) {
        None => Err(ParseError::Syntax(ws_len(s, 0) as usize)),
        Some((e, k)) => if k + ws_len(s, k) == s.len() {
            Ok(e)
        } else {
            Err(ParseError::RemainingInput((k + ws_len(s, k)) as usize))
        },
    }
}

fn space_char(c: char) -> (r: bool)
    ensures
        r == is_space(c),
{
    c == ' ' || c == '\t' || c == '\n' || c == '\r'
}

fn digit_char(c: char) -> (r: bool)
    ensures
        r == is_digit(c),
{
    '0' <= c && c <= '9'
}

fn path_char(c: char) -> (r: bool)
    ensures
        r == is_path_char(c),
{
    ('a' <= c && c <= 'z') || ('A' <= c && c <= 'Z') || c == '.'
}

/// The position after the whitespace that starts at `i`.
fn skip_spaces(cs: &Vec<char>, i: usize) -> (r: usize)
    requires
        i <= cs.len(),
    ensures
        r == i + ws_len(cs@, i as int),
        r <= cs.len(),
{
    let mut k: usize = i;
    while k < cs.len() && space_char(cs[k])
        invariant
            i <= k <= cs.len(),
            ws_len(cs@, i as int) == (k - i) + ws_len(cs@, k as int),
        decreases cs.len() - k,
    {
        k = k + 1;
    }
    k
}

/// Whether the characters of `w` stand at position `j` of `cs`.
fn word_here(cs: &Vec<char>, j: usize, w: &[char]) -> (r: bool)
    ensures
        r == word_at(cs@, j as int, w@),
{
    if j > cs.len() || w.len() > cs.len() - j {
        return false;
    }
    let mut m: usize = 0;
    while m < w.len()
        invariant
            j + w.len() <= cs.len(),
            m <= w.len(),
            forall|q: int| 0 <= q < m ==> cs@[j + q] == w@[q],
        decreases w.len() - m,
    {
        if cs[j + m] != w[m] {
            assert(cs@.subrange(j as int, j + w.len())[m as int] != w@[m as int]);
            return false;
        }
        m = m + 1;
    }
    assert(cs@.subrange(j as int, j + w.len()) =~= w@);
    true
}

/// The operator token at position `j`, with its length.
fn token_here(cs: &Vec<char>, j: usize) -> (r: Option<(Token, usize)>)
    ensures
        match r {
            Some((t, n)) => token_at(cs@, j as int) == Some((t, n as nat)),
            None => token_at(cs@, j as int) is None,
        },
{
    proof {
        assert(['n', 'o', 't']@ =~= seq!['n', 'o', 't']);
        assert(['l', 'e', 'n', 'g', 't', 'h']@ =~= seq!['l', 'e', 'n', 'g', 't', 'h']);
        assert(['l', 'i', 'n', 'e', 's']@ =~= seq!['l', 'i', 'n', 'e', 's']);
        assert(['=']@ =~= seq!['=']);
        assert(['<']@ =~= seq!['<']);
        assert(['>']@ =~= seq!['>']);
        assert(['a', 'n', 'd']@ =~= seq!['a', 'n', 'd']);
        assert(['o', 'r']@ =~= seq!['o', 'r']);
        assert(['x', 'o', 'r']@ =~= seq!['x', 'o', 'r']);
        assert(['a', 'l', 'l']@ =~= seq!['a', 'l', 'l']);
        assert(['a', 'n', 'y']@ =~= seq!['a', 'n', 'y']);
        assert(['f', 'i', 'l', 't', 'e', 'r']@ =~= seq!['f', 'i', 'l', 't', 'e', 'r']);
        assert(['m', 'a', 'p']@ =~= seq!['m', 'a', 'p']);
        assert(['t', 'e', 's', 't']@ =~= seq!['t', 'e', 's', 't']);
    }
    if word_here(cs, j, &['n', 'o', 't']) {
        Some((Token::Unary(UnaryOp::Not), 3))
    } else if word_here(cs, j, &['l', 'e', 'n', 'g', 't', 'h']) {
        Some((Token::Unary(UnaryOp::Length), 6))
    } else if word_here(cs, j, &['l', 'i', 'n', 'e', 's']) {
        Some((Token::Unary(UnaryOp::Lines), 5))
    } else if word_here(cs, j, &['=']) {
        Some((Token::Binary(BinaryOp::Equal), 1))
    } else if word_here(cs, j, &['<']) {
        Some((Token::Binary(BinaryOp::LessThan), 1))
    } else if word_here(cs, j, &['>']) {
        Some((Token::Binary(BinaryOp::GreaterThan), 1))
    } else if word_here(cs, j, &['a', 'n', 'd']) {
        Some((Token::Binary(BinaryOp::And), 3))
    } else if word_here(cs, j, &['o', 'r']) {
        Some((Token::Binary(BinaryOp::Or), 2))
    } else if word_here(cs, j, &['x', 'o', 'r']) {
        Some((Token::Binary(BinaryOp::Xor), 3))
    } else if word_here(cs, j, &['a', 'l', 'l']) {
        Some((Token::Binary(BinaryOp::All), 3))
    } else if word_here(cs, j, &['a', 'n', 'y']) {
        Some((Token::Binary(BinaryOp::Any), 3))
    } else if word_here(cs, j, &['f', 'i', 'l', 't', 'e', 'r']) {
        Some((Token::Binary(BinaryOp::Filter), 6))
    } else if word_here(cs, j, &['m', 'a', 'p']) {
        Some((Token::Binary(BinaryOp::Transform), 3))
    } else if word_here(cs, j, &['t', 'e', 's', 't']) {
        Some((Token::Binary(BinaryOp::Test), 4))
    } else {
        None
    }
}

proof fn lemma_digits_value_grows(t: Seq<char>, m: int)
    requires
        0 <= m <= t.len(),
    ensures
        digits_value(t.take(m)) <= digits_value(t),
    decreases t.len(),
{
    if m < t.len() {
        lemma_digits_value_grows(t.drop_last(), m);
        assert(t.drop_last().take(m) =~= t.take(m));
    } else {
        assert(t.take(m) =~= t);
    }
}

/// The end of the digits that start at `j`, and the number they denote when
/// it fits in a `usize`.
fn number_here(cs: &Vec<char>, j: usize) -> (r: (usize, Option<usize>))
    requires
        j <= cs.len(),
    ensures
        r.0 == j + digits_len(cs@, j as int),
        r.0 <= cs.len(),
        match r.1 {
            Some(n) => digits_value(cs@.subrange(j as int, r.0 as int)) == n,
            None => digits_value(cs@.subrange(j as int, r.0 as int)) > usize::MAX,
        },
{
    let mut k: usize = j;
    let mut n: usize = 0;
    let mut overflow = false;
    assert(cs@.subrange(j as int, j as int) =~= Seq::<char>::empty());
    while k < cs.len() && digit_char(cs[k])
        invariant
            j <= k <= cs.len(),
            digits_len(cs@, j as int) == (k - j) + digits_len(cs@, k as int),
            !overflow ==> n == digits_value(cs@.subrange(j as int, k as int)),
            overflow ==> digits_value(cs@.subrange(j as int, k as int)) > usize::MAX,
        decreases cs.len() - k,
    {
        let d = (cs[k] as u32 - '0' as u32) as usize;
        proof {
            assert(cs@.subrange(j as int, k + 1).drop_last() =~= cs@.subrange(j as int, k as int));
        }
        if !overflow {
            match n.checked_mul(10) {
                Some(t) => match t.checked_add(d) {
                    Some(u) => {
                        n = u;
                    },
                    None => {
                        overflow = true;
                    },
                },
                None => {
                    overflow = true;
                },
            }
        }
        k = k + 1;
    }
    (k, if overflow { None } else { Some(n) })
}

/// The end of the path characters that start at `j`.
fn path_end(cs: &Vec<char>, j: usize) -> (r: usize)
    requires
        j <= cs.len(),
    ensures
        r == j + path_len(cs@, j as int),
        r <= cs.len(),
{
    let mut k: usize = j;
    while k < cs.len() && path_char(cs[k])
        invariant
            j <= k <= cs.len(),
            path_len(cs@, j as int) == (k - j) + path_len(cs@, k as int),
        decreases cs.len() - k,
    {
        k = k + 1;
    }
    k
}

/// The contents of the string literal whose body starts at `k0`, and the
/// position after its closing quote.
fn string_here(text: &str, cs: &Vec<char>, k0: usize) -> (r: Option<(String, usize)>)
    requires
        cs@ == text@,
        k0 <= cs.len(),
    ensures
        match r {
            Some((t, e)) => string_body(cs@, k0 as int, Seq::empty()) == Some((t@, e as int)) && e <= cs.len(),
            None => string_body(cs@, k0 as int, Seq::empty()) is None,
        },
{
    let mut acc = String::new();
    let mut k: usize = k0;
    loop
        invariant
            cs@ == text@,
            k0 <= k <= cs.len(),
            string_body(cs@, k0 as int, Seq::empty()) == string_body(cs@, k as int, acc@),
        decreases cs.len() - k,
    {
        if k >= cs.len() {
            return None;
        }
        if cs[k] == '"' {
            return Some((acc, k + 1));
        }
        if cs[k] == '\\' {
            if k + 1 >= cs.len() {
                return None;
            }
            if cs[k + 1] == '"' || cs[k + 1] == '\\' {
                let piece = text.substring_char(k + 1, k + 2);
                proof {
                    assert(piece@ =~= seq![cs@[k + 1]]);
                    assert(acc@.push(cs@[k + 1]) =~= acc@ + piece@);
                }
                acc.append(piece);
            } else {
                let piece = text.substring_char(k, k + 2);
                proof {
                    assert(piece@ =~= seq!['\\', cs@[k + 1]]);
                    assert(acc@.push('\\').push(cs@[k + 1]) =~= acc@ + piece@);
                }
                acc.append(piece);
            }
            k = k + 2;
        } else {
            let piece = text.substring_char(k, k + 1);
            proof {
                assert(piece@ =~= seq![cs@[k as int]]);
                assert(acc@.push(cs@[k as int]) =~= acc@ + piece@);
            }
            acc.append(piece);
            k = k + 1;
        }
    }
}

/// The operation `u` applied to `a`.
pub fn make_unary(u: UnaryOp, a: Expr) -> (r: Expr)
    ensures
        r@ == ExprModel::Unary(u, Box::new(a@)),
{
    match u {
        UnaryOp::Not => Expr::Operation(Operation::Not(Box::new(a))),
        UnaryOp::Length => Expr::Operation(Operation::Length(Box::new(a))),
        UnaryOp::Lines => Expr::Operation(Operation::Lines(Box::new(a))),
    }
}

/// The operation `op` applied to `a` and `b`.
pub fn make_binary(op: BinaryOp, a: Expr, b: Expr) -> (r: Expr)
    ensures
        r@ == ExprModel::Binary(op, Box::new(a@), Box::new(b@)),
{
    let (x, y) = (Box::new(a), Box::new(b));
    Expr::Operation(
        match op {
            BinaryOp::Equal => Operation::Equal(x, y),
            BinaryOp::LessThan => Operation::LessThan(x, y),
            BinaryOp::GreaterThan => Operation::GreaterThan(x, y),
            BinaryOp::And => Operation::And(x, y),
            BinaryOp::Or => Operation::Or(x, y),
            BinaryOp::Xor => Operation::Xor(x, y),
            BinaryOp::All => Operation::All(x, y),
            BinaryOp::Any => Operation::Any(x, y),
            BinaryOp::Filter => Operation::Filter(x, y),
            BinaryOp::Transform => Operation::Transform(x, y),
            BinaryOp::Test => Operation::Test(x, y),
        },
    )
}

/// The model of a parse result with its position.
pub open spec fn parsed_model(r: Option<(Expr, usize)>) -> Option<(ExprModel, int)> {
    match r {
        Some((e, k)) => Some((e@, k as int)),
        None => None,
    }
}

fn value_here(text: &str, cs: &Vec<char>, i: usize) -> (r: Option<(Expr, usize)>)
    requires
        cs@ == text@,
        i <= cs.len(),
    ensures
        parsed_model(r) == value_at(cs@, i as int),
        r matches Some((_, k)) ==> k <= cs.len(),
    decreases cs.len() - i, 1nat,
{
    proof {
        assert(['t', 'r', 'u', 'e']@ =~= seq!['t', 'r', 'u', 'e']);
        assert(['f', 'a', 'l', 's', 'e']@ =~= seq!['f', 'a', 'l', 's', 'e']);
    }
    let j = skip_spaces(cs, i);
    if j >= cs.len() {
        return None;
    }
    if word_here(cs, j, &['t', 'r', 'u', 'e']) {
        return Some((literal(Value::Boolean(true)), j + 4));
    }
    if word_here(cs, j, &['f', 'a', 'l', 's', 'e']) {
        return Some((literal(Value::Boolean(false)), j + 5));
    }
    if digit_char(cs[j]) {
        let (e, n) = number_here(cs, j);
        return match n {
            Some(n) => Some((literal(Value::Numeral(n)), e)),
            None => None,
        };
    }
    if cs[j] == '[' {
        let mut items: Vec<Expr> = Vec::new();
        let mut k: usize = j + 1;
        loop
            invariant
                cs@ == text@,
                i < j + 1 <= k <= cs.len(),
                items_at(cs@, j + 1, Seq::empty()) == items_at(cs@, k as int, exprs_model(items@)),
            ensures
                i < j + 1 <= k <= cs.len(),
                items_at(cs@, j + 1, Seq::empty()) == (exprs_model(items@), k as int),
            decreases cs.len() - k,
        {
            proof {
                lemma_items_at_next(cs@, k as int, exprs_model(items@));
            }
            match value_here(text, cs, k) {
                Some((v, k2)) => {
                    if k < k2 && k2 <= cs.len() {
                        proof {
                            lemma_exprs_model_push(items@, v);
                        }
                        items.push(v);
                        k = k2;
                    } else {
                        break;
                    }
                },
                None => {
                    break;
                },
            }
        }
        let k2 = skip_spaces(cs, k);
        if k2 < cs.len() && cs[k2] == ']' {
            return Some((literal(Value::List(items)), k2 + 1));
        }
        return None;
    }
    if cs[j] == '"' {
        return match string_here(text, cs, j + 1) {
            Some((t, e)) => Some((literal(Value::String(t)), e)),
            None => None,
        };
    }
    if cs[j] == '.' {
        let e = path_end(cs, j + 1);
        let p = text.substring_char(j + 1, e).to_owned();
        return Some((Expr::Operation(Operation::Context(p)), e));
    }
    if cs[j] == '(' {
        return match expr_here(text, cs, j + 1) {
            Some((x, k)) => {
                let k2 = skip_spaces(cs, k);
                if k2 < cs.len() && cs[k2] == ')' {
                    Some((x, k2 + 1))
                } else {
                    None
                }
            },
            None => None,
        };
    }
    None
}

fn expr_here(text: &str, cs: &Vec<char>, i: usize) -> (r: Option<(Expr, usize)>)
    requires
        cs@ == text@,
        i <= cs.len(),
    ensures
        parsed_model(r) == expr_at(cs@, i as int),
        r matches Some((_, k)) ==> k <= cs.len(),
    decreases cs.len() - i, 4nat,
{
    proof {
        lemma_expr_at_unfold(cs@, i as int);
    }
    let (init, k0) = match value_here(text, cs, i) {
        Some(p) => p,
        None => {
            return None;
        },
    };
    if !(i <= k0 && k0 <= cs.len()) {
        return None;
    }
    let ghost m0 = init@;
    let mut acc = init;
    let mut k: usize = k0;
    loop
        invariant
            cs@ == text@,
            i <= k0 <= k <= cs.len(),
            ops_at(cs@, k0 as int, m0) == ops_at(cs@, k as int, acc@),
        ensures
            i <= k <= cs.len(),
            ops_at(cs@, k0 as int, m0) == (acc@, k as int),
        decreases cs.len() - k,
    {
        proof {
            lemma_ops_at_next(cs@, k as int, acc@);
        }
        let j = skip_spaces(cs, k);
        match token_here(cs, j) {
            None => {
                break;
            },
            Some((Token::Unary(u), n)) => {
                if 0 < n && n <= cs.len() - j {
                    acc = make_unary(u, acc);
                    k = j + n;
                } else {
                    break;
                }
            },
            Some((Token::Binary(b), n)) => {
                if n <= cs.len() - j {
                    match value_here(text, cs, j + n) {
                        Some((arg, k2)) => {
                            if k < k2 && k2 <= cs.len() {
                                acc = make_binary(b, acc, arg);
                                k = k2;
                            } else {
                                break;
                            }
                        },
                        None => {
                            break;
                        },
                    }
                } else {
                    break;
                }
            },
        }
    }
    Some((acc, k))
}

/// Parses the whole of `expression`.
pub fn parse(expression: &str) -> (r: Result<Expr, ParseError>)
    ensures
        match r {
            Ok(e) => parse_spec(expression@) == Ok::<ExprModel, ParseError>(e@),
            Err(x) => parse_spec(expression@) == Err::<ExprModel, ParseError>(x),
        },
{
    let cs = chars_of(expression);
    match expr_here(expression, &cs, 0) {
        None => Err(ParseError::Syntax(skip_spaces(&cs, 0))),
        Some((e, k)) => {
            let k2 = skip_spaces(&cs, k);
            if k2 == cs.len() {
                Ok(e)
            } else {
                Err(ParseError::RemainingInput(k2))
            }
        },
    }
}

/// Law: when the longest expression at the start of `s` is followed by
/// something other than whitespace, parsing fails with `RemainingInput` at
/// the first such character, and no expression is returned.
pub proof fn law_remaining_input(s: Seq<char>, e: ExprModel, k: int)
    requires
        expr_at(s, 0) == Some((e, k)),
        k + ws_len(s, k) < s.len(),
    ensures
        parse_spec(s) == Err::<ExprModel, ParseError>(ParseError::RemainingInput((k + ws_len(s, k)) as usize)),
{
}

} // verus!
