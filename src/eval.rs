//! The evaluator of the rule language.
use vstd::prelude::*;
use crate::parser::{parse, parse_spec, ParseError};
use crate::text::{split_at_char, split_on, views_of};
use crate::value::{
    exprs_model, find_key, literal, lemma_entries_model_lookup, lemma_exprs_model_index,
    lemma_exprs_model_len, lemma_exprs_model_push, values_equal, BinaryOp, Expr,
    ExprModel, Operation, UnaryOp, Value, ValueModel,
};

verus! {

/// Why an evaluation failed.
#[derive(Clone, Copy, Debug, PartialEq, Eq, Structural)]
pub enum EvalError {
    /// An operator was applied to a value of the wrong kind.
    TypeError,
    /// A context path named a key that the dictionary does not hold.
    KeyNotFound,
    /// The pattern of `test` is not a valid regular expression.
    RegexError,
    /// Elements of lists were evaluated inside one another deeper than the
    /// depth budget allows.
    DepthExceeded,
}

/// The description of an evaluation error.
pub open spec fn eval_error_text(e: EvalError) -> Seq<char> {
    match e {
        EvalError::TypeError => "Invalid type"@,
        EvalError::KeyNotFound => "No such key"@,
        EvalError::RegexError => "Invalid regular expression"@,
        EvalError::DepthExceeded => "Evaluation nested too deeply"@,
    }
}

impl EvalError {
    /// A short description of the error.
    pub fn message(&self) -> (r: String)
        ensures
            r@ == eval_error_text(*self),
    {
        match self {
            EvalError::TypeError => String::from_str("Invalid type"),
            EvalError::KeyNotFound => String::from_str("No such key"),
            EvalError::RegexError => String::from_str("Invalid regular expression"),
            EvalError::DepthExceeded => String::from_str("Evaluation nested too deeply"),
        }
    }
}

/// Whether `pattern` is accepted by the regular-expression compiler.
pub uninterp spec fn regex_is_valid(pattern: Seq<char>) -> bool;

/// Whether the compiled `pattern` matches somewhere in `haystack`.
pub uninterp spec fn regex_matches(pattern: Seq<char>, haystack: Seq<char>) -> bool;

/// Relies on `regex::Regex::new`, which fails exactly on the patterns it does
/// not accept, and on `regex::Regex::is_match` of the compiled pattern.
#[verifier::external_body]
fn regex_search(pattern: &str, haystack: &str) -> (r: Option<bool>)
    ensures
        r is Some <==> regex_is_valid(pattern@),
        r matches Some(b) ==> b == regex_matches(pattern@, haystack@),
{
    match regex::Regex::new(pattern) {
        Ok(re) => Some(re.is_match(haystack)),
        Err(_) => None,
    }
}

/// The depth budget that `eval` and `eval_expr` give an evaluation.
pub const MAX_DEPTH: usize = 512;

/// Whether `v` has the kind that operator `op` takes as an operand.
pub open spec fn operand_ok(op: BinaryOp, v: ValueModel) -> bool {
    match op {
        BinaryOp::LessThan | BinaryOp::GreaterThan => v is Numeral,
        BinaryOp::And | BinaryOp::Or | BinaryOp::Xor => v is Boolean,
        BinaryOp::Test => v is Str,
        _ => true,
    }
}

/// Whether `op` is a list comprehension.
pub open spec fn is_comprehension(op: BinaryOp) -> bool {
    op is All || op is Any || op is Filter || op is Transform
}

/// Each piece of a string as a string literal.
pub open spec fn string_literals(parts: Seq<Seq<char>>) -> Seq<ExprModel> {
    parts.map_values(|p: Seq<char>| ExprModel::Literal(ValueModel::Str(p)))
}

/// A one-operand operator applied to an evaluated operand.
pub open spec fn unary_spec(op: UnaryOp, v: ValueModel) -> Result<ValueModel, EvalError> {
    match op {
        UnaryOp::Not => match v {
            ValueModel::Boolean(b) => Ok(ValueModel::Boolean(!b)),
            _ => Err(EvalError::TypeError),
        },
        UnaryOp::Length => match v {
            ValueModel::List(l) => Ok(ValueModel::Numeral(l.len() as usize)),
            _ => Err(EvalError::TypeError),
        },
        UnaryOp::Lines => match v {
            ValueModel::Str(s) => Ok(ValueModel::List(string_literals(split_on(s, '\n')))),
            _ => Err(EvalError::TypeError),
        },
    }
}

/// A two-operand operator, other than a comprehension, applied to operands of
/// the kinds it takes.
pub open spec fn binary_spec(op: BinaryOp, a: ValueModel, b: ValueModel) -> Result<ValueModel, EvalError> {
    match (a, b) {
        (ValueModel::Numeral(x), ValueModel::Numeral(y)) => match op {
            BinaryOp::LessThan => Ok(ValueModel::Boolean(x < y)),
            BinaryOp::GreaterThan => Ok(ValueModel::Boolean(x > y)),
            _ => Ok(ValueModel::Boolean(a == b)),
        },
        (ValueModel::Boolean(x), ValueModel::Boolean(y)) => match op {
            BinaryOp::And => Ok(ValueModel::Boolean(x && y)),
            BinaryOp::Or => Ok(ValueModel::Boolean(x || y)),
            BinaryOp::Xor => Ok(ValueModel::Boolean(x != y)),
            _ => Ok(ValueModel::Boolean(a == b)),
        },
        (ValueModel::Str(h), ValueModel::Str(p)) => match op {
            BinaryOp::Test => if regex_is_valid(p) {
                Ok(ValueModel::Boolean(regex_matches(p, h)))
            } else {
                Err(EvalError::RegexError)
            },
            _ => Ok(ValueModel::Boolean(a == b)),
        },
        _ => Ok(ValueModel::Boolean(a == b)),
    }
}

/// Following the non-empty segments of a context path from `ctx`.
pub open spec fn navigate(ctx: ValueModel, segs: Seq<Seq<char>>) -> Result<ValueModel, EvalError>
    decreases segs.len(),
{
    if segs.len() == 0 {
        Ok(ctx)
    } else if segs[0].len() == 0 {
        navigate(ctx, segs.drop_first())
    } else {
        match ctx {
            ValueModel::Dictionary(m) => if m.contains_key(segs[0]) {
                navigate(m[segs[0]], segs.drop_first())
            } else {
                Err(EvalError::KeyNotFound)
            },
            _ => Err(EvalError::TypeError),
        }
    }
}

/// Evaluation of `e` in context `ctx`, where list elements may be evaluated
/// inside one another at most `fuel` deep.
pub open spec fn eval_spec(e: ExprModel, ctx: ValueModel, fuel: nat) -> Result<ValueModel, EvalError>
    decreases fuel, e, 0nat,
{
    match e {
        ExprModel::Literal(v) => Ok(v),
        ExprModel::Context(p) => navigate(ctx, split_on(p, '.')),
        ExprModel::Unary(op, a) => match eval_spec(*a, ctx, fuel) {
            Ok(v) => unary_spec(op, v),
            Err(x) => Err(x),
        },
        ExprModel::Binary(op, a, b) => if is_comprehension(op) {
            match eval_spec(*a, ctx, fuel) {
                Ok(ValueModel::List(items)) => if op is All {
                    match search_spec(items, *b, ctx, fuel, items.len(), false) {
                        Ok(found) => Ok(ValueModel::Boolean(!found)),
                        Err(x) => Err(x),
                    }
                } else if op is Any {
                    match search_spec(items, *b, ctx, fuel, items.len(), true) {
                        Ok(found) => Ok(ValueModel::Boolean(found)),
                        Err(x) => Err(x),
                    }
                } else {
                    match collect_spec(items, *b, ctx, fuel, items.len(), op is Filter) {
                        Ok(s) => Ok(ValueModel::List(s)),
                        Err(x) => Err(x),
                    }
                },
                Ok(_) => Err(EvalError::TypeError),
                Err(x) => Err(x),
            }
        } else {
            match eval_spec(*a, ctx, fuel) {
                Ok(va) => if !operand_ok(op, va) {
                    Err(EvalError::TypeError)
                } else {
                    match eval_spec(*b, ctx, fuel) {
                        Ok(vb) => if !operand_ok(op, vb) {
                            Err(EvalError::TypeError)
                        } else {
                            binary_spec(op, va, vb)
                        },
                        Err(x) => Err(x),
                    }
                },
                Err(x) => Err(x),
            }
        },
    }
}

/// Scans the first `n` elements in order: each is evaluated in `ctx`, then
/// `pred` in the element's value, which must give a boolean. The scan stops
/// at the first element whose predicate equals `target` (`Ok(true)`) or at
/// the first error; `Ok(false)` when no element stops it.
pub open spec fn search_spec(
    items: Seq<ExprModel>,
    pred: ExprModel,
    ctx: ValueModel,
    fuel: nat,
    n: nat,
    target: bool,
) -> Result<bool, EvalError>
    decreases fuel, pred, n,
{
    if n == 0 {
        Ok(false)
    } else {
        match search_spec(items, pred, ctx, fuel, (n - 1) as nat, target) {
            Ok(false) => if fuel == 0 {
                Err(EvalError::DepthExceeded)
            } else {
                match eval_spec(items[n - 1], ctx, (fuel - 1) as nat) {
                    Ok(v) => match eval_spec(pred, v, fuel) {
                        Ok(ValueModel::Boolean(c)) => Ok(c == target),
                        Ok(_) => Err(EvalError::TypeError),
                        Err(x) => Err(x),
                    },
                    Err(x) => Err(x),
                }
            },
            other => other,
        }
    }
}

/// The first `n` elements, each evaluated in `ctx`, then `pred` in its value.
/// With `keep`, the elements whose predicate is `true` (the predicate must
/// give a boolean); without it, the predicate's results. The first error
/// stops the scan.
pub open spec fn collect_spec(
    items: Seq<ExprModel>,
    pred: ExprModel,
    ctx: ValueModel,
    fuel: nat,
    n: nat,
    keep: bool,
) -> Result<Seq<ExprModel>, EvalError>
    decreases fuel, pred, n,
{
    if n == 0 {
        Ok(Seq::empty())
    } else {
        match collect_spec(items, pred, ctx, fuel, (n - 1) as nat, keep) {
            Ok(acc) => if fuel == 0 {
                Err(EvalError::DepthExceeded)
            } else {
                match eval_spec(items[n - 1], ctx, (fuel - 1) as nat) {
                    Ok(v) => match eval_spec(pred, v, fuel) {
                        Ok(w) => if keep {
                            match w {
                                ValueModel::Boolean(c) => Ok(
                                    if c {
                                        acc.push(ExprModel::Literal(v))
                                    } else {
                                        acc
                                    },
                                ),
                                _ => Err(EvalError::TypeError),
                            }
                        } else {
                            Ok(acc.push(ExprModel::Literal(w)))
                        },
                        Err(x) => Err(x),
                    },
                    Err(x) => Err(x),
                }
            },
            Err(x) => Err(x),
        }
    }
}

/// Lemma: once a scan has stopped, scanning further elements changes nothing.
pub proof fn lemma_search_stops(
    items: Seq<ExprModel>,
    pred: ExprModel,
    ctx: ValueModel,
    fuel: nat,
    k: nat,
    n: nat,
    target: bool,
)
    requires
        k <= n,
        search_spec(items, pred, ctx, fuel, k, target) != Ok::<bool, EvalError>(false),
    ensures
        search_spec(items, pred, ctx, fuel, n, target) == search_spec(items, pred, ctx, fuel, k, target),
    decreases n,
{
    if n > k {
        lemma_search_stops(items, pred, ctx, fuel, k, (n - 1) as nat, target);
    }
}

/// Lemma: once a collection has failed, collecting further elements changes
/// nothing.
pub proof fn lemma_collect_stops(
    items: Seq<ExprModel>,
    pred: ExprModel,
    ctx: ValueModel,
    fuel: nat,
    k: nat,
    n: nat,
    keep: bool,
)
    requires
        k <= n,
        collect_spec(items, pred, ctx, fuel, k, keep) is Err,
    ensures
        collect_spec(items, pred, ctx, fuel, n, keep) == collect_spec(items, pred, ctx, fuel, k, keep),
    decreases n,
{
    if n > k {
        lemma_collect_stops(items, pred, ctx, fuel, k, (n - 1) as nat, keep);
    }
}

/// The model of an evaluation result.
pub open spec fn result_model(r: Result<Value, EvalError>) -> Result<ValueModel, EvalError> {
    match r {
        Ok(v) => Ok(v@),
        Err(x) => Err(x),
    }
}

/// The number of operation nodes and leaves of an expression tree; the
/// contents of literals are not counted.
pub open spec fn expr_size(e: Expr) -> nat
    decreases e,
{
    match e {
        Expr::Value(_) => 1,
        Expr::Operation(op) => match op {
            Operation::Equal(a, b) => 1 + expr_size(*a) + expr_size(*b),
            Operation::LessThan(a, b) => 1 + expr_size(*a) + expr_size(*b),
            Operation::GreaterThan(a, b) => 1 + expr_size(*a) + expr_size(*b),
            Operation::And(a, b) => 1 + expr_size(*a) + expr_size(*b),
            Operation::Or(a, b) => 1 + expr_size(*a) + expr_size(*b),
            Operation::Xor(a, b) => 1 + expr_size(*a) + expr_size(*b),
            Operation::Not(a) => 1 + expr_size(*a),
            Operation::All(a, b) => 1 + expr_size(*a) + expr_size(*b),
            Operation::Any(a, b) => 1 + expr_size(*a) + expr_size(*b),
            Operation::Filter(a, b) => 1 + expr_size(*a) + expr_size(*b),
            Operation::Transform(a, b) => 1 + expr_size(*a) + expr_size(*b),
            Operation::Length(a) => 1 + expr_size(*a),
            Operation::Test(a, b) => 1 + expr_size(*a) + expr_size(*b),
            Operation::Lines(a) => 1 + expr_size(*a),
            Operation::Context(_) => 1,
        },
    }
}

/// Evaluates `e` in context `ctx` with a depth budget of `fuel`.
pub fn eval_depth(e: &Expr, ctx: &Value, fuel: usize) -> (r: Result<Value, EvalError>)
    ensures
        result_model(r) == eval_spec(e@, ctx@, fuel as nat),
    decreases fuel, expr_size(*e), 1nat,
{
    match e {
        Expr::Value(v) => Ok(v.duplicate()),
        Expr::Operation(op) => match op {
            Operation::Equal(a, b) => eval_binary(BinaryOp::Equal, a, b, ctx, fuel),
            Operation::LessThan(a, b) => eval_binary(BinaryOp::LessThan, a, b, ctx, fuel),
            Operation::GreaterThan(a, b) => eval_binary(BinaryOp::GreaterThan, a, b, ctx, fuel),
            Operation::And(a, b) => eval_binary(BinaryOp::And, a, b, ctx, fuel),
            Operation::Or(a, b) => eval_binary(BinaryOp::Or, a, b, ctx, fuel),
            Operation::Xor(a, b) => eval_binary(BinaryOp::Xor, a, b, ctx, fuel),
            Operation::Not(a) => eval_unary(UnaryOp::Not, a, ctx, fuel),
            Operation::All(a, b) => eval_comprehension(BinaryOp::All, a, b, ctx, fuel),
            Operation::Any(a, b) => eval_comprehension(BinaryOp::Any, a, b, ctx, fuel),
            Operation::Filter(a, b) => eval_comprehension(BinaryOp::Filter, a, b, ctx, fuel),
            Operation::Transform(a, b) => eval_comprehension(BinaryOp::Transform, a, b, ctx, fuel),
            Operation::Length(a) => eval_unary(UnaryOp::Length, a, ctx, fuel),
            Operation::Test(a, b) => eval_binary(BinaryOp::Test, a, b, ctx, fuel),
            Operation::Lines(a) => eval_unary(UnaryOp::Lines, a, ctx, fuel),
            Operation::Context(p) => navigate_path(ctx, p),
        },
    }
}

fn eval_unary(op: UnaryOp, a: &Expr, ctx: &Value, fuel: usize) -> (r: Result<Value, EvalError>)
    ensures
        result_model(r) == eval_spec(ExprModel::Unary(op, Box::new(a@)), ctx@, fuel as nat),
    decreases fuel, expr_size(*a) + 1, 0nat,
{
    match eval_depth(a, ctx, fuel) {
        Ok(v) => apply_unary(op, v),
        Err(x) => Err(x),
    }
}

/// A one-operand operator applied to a value.
pub fn apply_unary(op: UnaryOp, v: Value) -> (r: Result<Value, EvalError>)
    ensures
        result_model(r) == unary_spec(op, v@),
{
    match op {
        UnaryOp::Not => match v {
            Value::Boolean(b) => Ok(Value::Boolean(!b)),
            _ => Err(EvalError::TypeError),
        },
        UnaryOp::Length => match v {
            Value::List(l) => {
                proof {
                    lemma_exprs_model_len(l@);
                }
                Ok(Value::Numeral(l.len()))
            },
            _ => Err(EvalError::TypeError),
        },
        UnaryOp::Lines => match v {
            Value::String(s) => {
                let pieces = split_at_char(s.as_str(), '\n');
                let mut out: Vec<Expr> = Vec::new();
                let mut i: usize = 0;
                while i < pieces.len()
                    invariant
                        i <= pieces.len(),
                        exprs_model(out@) == string_literals(views_of(pieces@).take(i as int)),
                    decreases pieces.len() - i,
                {
                    let piece = pieces[i].clone();
                    let x = literal(Value::String(piece));
                    proof {
                        lemma_exprs_model_push(out@, x);
                        assert(string_literals(views_of(pieces@).take(i + 1)) =~= string_literals(
                            views_of(pieces@).take(i as int),
                        ).push(x@));
                    }
                    out.push(x);
                    i = i + 1;
                }
                proof {
                    assert(views_of(pieces@).take(pieces.len() as int) =~= views_of(pieces@));
                }
                Ok(Value::List(out))
            },
            _ => Err(EvalError::TypeError),
        },
    }
}

/// Whether `v` has the kind that `op` takes as an operand.
pub fn operand_fits(op: BinaryOp, v: &Value) -> (r: bool)
    ensures
        r == operand_ok(op, v@),
{
    match op {
        BinaryOp::LessThan | BinaryOp::GreaterThan => matches!(v, Value::Numeral(_)),
        BinaryOp::And | BinaryOp::Or | BinaryOp::Xor => matches!(v, Value::Boolean(_)),
        BinaryOp::Test => matches!(v, Value::String(_)),
        _ => true,
    }
}

fn eval_binary(op: BinaryOp, a: &Expr, b: &Expr, ctx: &Value, fuel: usize) -> (r: Result<Value, EvalError>)
    requires
        !is_comprehension(op),
    ensures
        result_model(r) == eval_spec(ExprModel::Binary(op, Box::new(a@), Box::new(b@)), ctx@, fuel as nat),
    decreases fuel, expr_size(*a) + expr_size(*b) + 1, 0nat,
{
    let va = match eval_depth(a, ctx, fuel) {
        Ok(v) => v,
        Err(x) => {
            return Err(x);
        },
    };
    if !operand_fits(op, &va) {
        return Err(EvalError::TypeError);
    }
    let vb = match eval_depth(b, ctx, fuel) {
        Ok(v) => v,
        Err(x) => {
            return Err(x);
        },
    };
    if !operand_fits(op, &vb) {
        return Err(EvalError::TypeError);
    }
    apply_binary(op, &va, &vb)
}

/// A two-operand operator, other than a comprehension, applied to two values.
pub fn apply_binary(op: BinaryOp, a: &Value, b: &Value) -> (r: Result<Value, EvalError>)
    ensures
        result_model(r) == binary_spec(op, a@, b@),
{
    match (a, b) {
        (Value::Numeral(x), Value::Numeral(y)) => match op {
            BinaryOp::LessThan => Ok(Value::Boolean(*x < *y)),
            BinaryOp::GreaterThan => Ok(Value::Boolean(*x > *y)),
            _ => Ok(Value::Boolean(values_equal(a, b))),
        },
        (Value::Boolean(x), Value::Boolean(y)) => match op {
            BinaryOp::And => Ok(Value::Boolean(*x && *y)),
            BinaryOp::Or => Ok(Value::Boolean(*x || *y)),
            BinaryOp::Xor => Ok(Value::Boolean(*x != *y)),
            _ => Ok(Value::Boolean(values_equal(a, b))),
        },
        (Value::String(h), Value::String(p)) => match op {
            BinaryOp::Test => match regex_search(p.as_str(), h.as_str()) {
                Some(m) => Ok(Value::Boolean(m)),
                None => Err(EvalError::RegexError),
            },
            _ => Ok(Value::Boolean(values_equal(a, b))),
        },
        _ => Ok(Value::Boolean(values_equal(a, b))),
    }
}

fn eval_comprehension(op: BinaryOp, a: &Expr, b: &Expr, ctx: &Value, fuel: usize) -> (r: Result<Value, EvalError>)
    requires
        is_comprehension(op),
    ensures
        result_model(r) == eval_spec(ExprModel::Binary(op, Box::new(a@), Box::new(b@)), ctx@, fuel as nat),
    decreases fuel, expr_size(*a) + expr_size(*b) + 1, 0nat,
{
    let items: Vec<Expr> = match eval_depth(a, ctx, fuel) {
        Ok(Value::List(items)) => items,
        Ok(_) => {
            return Err(EvalError::TypeError);
        },
        Err(x) => {
            return Err(x);
        },
    };
    let ghost m = exprs_model(items@);
    let ghost pm = b@;
    let ghost cm = ctx@;
    let ghost f = fuel as nat;
    proof {
        lemma_exprs_model_len(items@);
    }
    match op {
        BinaryOp::All | BinaryOp::Any => {
            let target: bool = match op {
                BinaryOp::Any => true,
                _ => false,
            };
            let mut i: usize = 0;
            while i < items.len()
                invariant
                    i <= items.len(),
                    m == exprs_model(items@),
                    m.len() == items.len(),
                    f == fuel as nat,
                    pm == b@,
                    cm == ctx@,
                    target == (op is Any),
                    op is All || op is Any,
                    eval_spec(a@, cm, f) == Ok::<ValueModel, EvalError>(ValueModel::List(m)),
                    search_spec(m, pm, cm, f, i as nat, target) == Ok::<bool, EvalError>(false),
                decreases items.len() - i,
            {
                proof {
                    lemma_exprs_model_index(items@, i as int);
                    lemma_search_next(m, pm, cm, f, i as nat, target);
                }
                if fuel == 0 {
                    proof {
                        lemma_search_stops(m, pm, cm, f, (i + 1) as nat, m.len(), target);
                    }
                    return Err(EvalError::DepthExceeded);
                }
                let v = match eval_depth(&items[i], ctx, fuel - 1) {
                    Ok(v) => v,
                    Err(x) => {
                        proof {
                            lemma_search_stops(m, pm, cm, f, (i + 1) as nat, m.len(), target);
                        }
                        return Err(x);
                    },
                };
                match eval_depth(b, &v, fuel) {
                    Ok(Value::Boolean(c)) => {
                        if c == target {
                            proof {
                                lemma_search_stops(m, pm, cm, f, (i + 1) as nat, m.len(), target);
                            }
                            return Ok(Value::Boolean(target));
                        }
                    },
                    Ok(_) => {
                        proof {
                            lemma_search_stops(m, pm, cm, f, (i + 1) as nat, m.len(), target);
                        }
                        return Err(EvalError::TypeError);
                    },
                    Err(x) => {
                        proof {
                            lemma_search_stops(m, pm, cm, f, (i + 1) as nat, m.len(), target);
                        }
                        return Err(x);
                    },
                }
                i = i + 1;
            }
            Ok(Value::Boolean(!target))
        },
        _ => {
            let keep: bool = match op {
                BinaryOp::Filter => true,
                _ => false,
            };
            let mut out: Vec<Expr> = Vec::new();
            let mut i: usize = 0;
            while i < items.len()
                invariant
                    i <= items.len(),
                    m == exprs_model(items@),
                    m.len() == items.len(),
                    f == fuel as nat,
                    pm == b@,
                    cm == ctx@,
                    keep == (op is Filter),
                    op is Filter || op is Transform,
                    eval_spec(a@, cm, f) == Ok::<ValueModel, EvalError>(ValueModel::List(m)),
                    collect_spec(m, pm, cm, f, i as nat, keep) == Ok::<Seq<ExprModel>, EvalError>(exprs_model(out@)),
                decreases items.len() - i,
            {
                proof {
                    lemma_exprs_model_index(items@, i as int);
                    lemma_collect_next(m, pm, cm, f, i as nat, keep, exprs_model(out@));
                }
                if fuel == 0 {
                    proof {
                        lemma_collect_stops(m, pm, cm, f, (i + 1) as nat, m.len(), keep);
                    }
                    return Err(EvalError::DepthExceeded);
                }
                let v = match eval_depth(&items[i], ctx, fuel - 1) {
                    Ok(v) => v,
                    Err(x) => {
                        proof {
                            lemma_collect_stops(m, pm, cm, f, (i + 1) as nat, m.len(), keep);
                        }
                        return Err(x);
                    },
                };
                let w = match eval_depth(b, &v, fuel) {
                    Ok(w) => w,
                    Err(x) => {
                        proof {
                            lemma_collect_stops(m, pm, cm, f, (i + 1) as nat, m.len(), keep);
                        }
                        return Err(x);
                    },
                };
                if keep {
                    match w {
                        Value::Boolean(c) => {
                            if c {
                                let x = Expr::Value(v);
                                proof {
                                    lemma_exprs_model_push(out@, x);
                                }
                                out.push(x);
                            }
                        },
                        _ => {
                            proof {
                                lemma_collect_stops(m, pm, cm, f, (i + 1) as nat, m.len(), keep);
                            }
                            return Err(EvalError::TypeError);
                        },
                    }
                } else {
                    let x = Expr::Value(w);
                    proof {
                        lemma_exprs_model_push(out@, x);
                    }
                    out.push(x);
                }
                i = i + 1;
            }
            Ok(Value::List(out))
        },
    }
}

/// Follows the dotted path `path` from `ctx`: every non-empty segment must
/// name a key of the current dictionary.
pub fn navigate_path(ctx: &Value, path: &String) -> (r: Result<Value, EvalError>)
    ensures
        result_model(r) == navigate(ctx@, split_on(path@, '.')),
{
    let segs = split_at_char(path.as_str(), '.');
    let ghost ss = split_on(path@, '.');
    let mut cur: &Value = ctx;
    let mut i: usize = 0;
    proof {
        assert(ss.skip(0) =~= ss);
    }
    while i < segs.len()
        invariant
            i <= segs.len(),
            views_of(segs@) == ss,
            ss == split_on(path@, '.'),
            navigate(ctx@, ss) == navigate(cur@, ss.skip(i as int)),
        decreases segs.len() - i,
    {
        proof {
            assert(ss.skip(i as int).drop_first() =~= ss.skip(i + 1));
            assert(ss.len() == segs.len());
            assert(ss.skip(i as int).len() > 0);
            assert(ss.skip(i as int)[0] == segs@[i as int]@);
            lemma_navigate_next(cur@, ss.skip(i as int));
        }
        if !segs[i].as_str().is_empty() {
            match cur {
                Value::Dictionary(d) => {
                    proof {
                        lemma_entries_model_lookup(d@, segs@[i as int]@);
                    }
                    match find_key(d, &segs[i]) {
                        Some(j) => {
                            cur = &d[j].1;
                        },
                        None => {
                            return Err(EvalError::KeyNotFound);
                        },
                    }
                },
                _ => {
                    return Err(EvalError::TypeError);
                },
            }
        }
        i = i + 1;
    }
    proof {
        assert(ss.skip(segs.len() as int) =~= Seq::<Seq<char>>::empty());
    }
    Ok(cur.duplicate())
}

/// Evaluates `expr` in `context` with the depth budget `MAX_DEPTH`.
pub fn eval_expr(expr: &Expr, context: &Value) -> (r: Result<Value, EvalError>)
    ensures
        result_model(r) == eval_spec(expr@, context@, MAX_DEPTH as nat),
{
    eval_depth(expr, context, MAX_DEPTH)
}

/// Lemma: one more step of a scan that has not stopped.
pub proof fn lemma_search_next(
    items: Seq<ExprModel>,
    pred: ExprModel,
    ctx: ValueModel,
    fuel: nat,
    k: nat,
    target: bool,
)
    requires
        search_spec(items, pred, ctx, fuel, k, target) == Ok::<bool, EvalError>(false),
    ensures
        search_spec(items, pred, ctx, fuel, k + 1, target) == if fuel == 0 {
            Err(EvalError::DepthExceeded)
        } else {
            match eval_spec(items[k as int], ctx, (fuel - 1) as nat) {
                Ok(v) => match eval_spec(pred, v, fuel) {
                    Ok(ValueModel::Boolean(c)) => Ok(c == target),
                    Ok(_) => Err(EvalError::TypeError),
                    Err(x) => Err(x),
                },
                Err(x) => Err(x),
            }
        },
{
}

/// Lemma: one more step of a collection that has not failed.
pub proof fn lemma_collect_next(
    items: Seq<ExprModel>,
    pred: ExprModel,
    ctx: ValueModel,
    fuel: nat,
    k: nat,
    keep: bool,
    acc: Seq<ExprModel>,
)
    requires
        collect_spec(items, pred, ctx, fuel, k, keep) == Ok::<Seq<ExprModel>, EvalError>(acc),
    ensures
        collect_spec(items, pred, ctx, fuel, k + 1, keep) == if fuel == 0 {
            Err(EvalError::DepthExceeded)
        } else {
            match eval_spec(items[k as int], ctx, (fuel - 1) as nat) {
                Ok(v) => match eval_spec(pred, v, fuel) {
                    Ok(w) => if keep {
                        match w {
                            ValueModel::Boolean(c) => Ok(
                                if c {
                                    acc.push(ExprModel::Literal(v))
                                } else {
                                    acc
                                },
                            ),
                            _ => Err(EvalError::TypeError),
                        }
                    } else {
                        Ok(acc.push(ExprModel::Literal(w)))
                    },
                    Err(x) => Err(x),
                },
                Err(x) => Err(x),
            }
        },
{
}

/// Lemma: one step along a context path.
pub proof fn lemma_navigate_next(ctx: ValueModel, segs: Seq<Seq<char>>)
    requires
        segs.len() > 0,
    ensures
        navigate(ctx, segs) == if segs[0].len() == 0 {
            navigate(ctx, segs.drop_first())
        } else {
            match ctx {
                ValueModel::Dictionary(m) => if m.contains_key(segs[0]) {
                    navigate(m[segs[0]], segs.drop_first())
                } else {
                    Err(EvalError::KeyNotFound)
                },
                _ => Err(EvalError::TypeError),
            }
        },
{
}

/// Why a rule could not be decided.
#[derive(Clone, Copy, Debug, PartialEq, Eq, Structural)]
pub enum RuleError {
    /// The rule's text is not an expression.
    Parse(ParseError),
    /// Evaluating the expression failed.
    Eval(EvalError),
    /// The expression evaluated to something other than a boolean.
    NotBoolean,
}

/// The description of a rule error.
pub open spec fn rule_error_text(e: RuleError) -> Seq<char> {
    match e {
        RuleError::Parse(ParseError::Syntax(_)) => "Failed to parse expression"@,
        RuleError::Parse(ParseError::RemainingInput(_)) => "Failed to parse expression: input remaining"@,
        RuleError::Eval(x) => eval_error_text(x),
        RuleError::NotBoolean => "Invalid result"@,
    }
}

impl RuleError {
    /// A short description of the error.
    pub fn message(&self) -> (r: String)
        ensures
            r@ == rule_error_text(*self),
    {
        match self {
            RuleError::Parse(ParseError::Syntax(_)) => String::from_str("Failed to parse expression"),
            RuleError::Parse(ParseError::RemainingInput(_)) => String::from_str(
                "Failed to parse expression: input remaining",
            ),
            RuleError::Eval(e) => e.message(),
            RuleError::NotBoolean => String::from_str("Invalid result"),
        }
    }
}

/// The verdict of the rule text `text` on the context `ctx`.
pub open spec fn rule_spec(text: Seq<char>, ctx: ValueModel) -> Result<bool, RuleError> {
    match parse_spec(text) {
        Err(p) => Err(RuleError::Parse(p)),
        Ok(e) => match eval_spec(e, ctx, MAX_DEPTH as nat) {
            Ok(ValueModel::Boolean(b)) => Ok(b),
            Ok(_) => Err(RuleError::NotBoolean),
            Err(x) => Err(RuleError::Eval(x)),
        },
    }
}

/// Parses `expression` and evaluates it in `input`; the result must be a
/// boolean.
pub fn eval(expression: &str, input: &Value) -> (r: Result<bool, RuleError>)
    ensures
        r == rule_spec(expression@, input@),
{
    match parse(expression) {
        Err(p) => Err(RuleError::Parse(p)),
        Ok(e) => match eval_expr(&e, input) {
            Ok(Value::Boolean(b)) => Ok(b),
            Ok(_) => Err(RuleError::NotBoolean),
            Err(x) => Err(RuleError::Eval(x)),
        },
    }
}

/// Lemma: one step of evaluating a one-operand operator.
pub proof fn lemma_eval_unary(op: UnaryOp, a: ExprModel, ctx: ValueModel, fuel: nat)
    ensures
        eval_spec(ExprModel::Unary(op, Box::new(a)), ctx, fuel) == match eval_spec(a, ctx, fuel) {
            Ok(v) => unary_spec(op, v),
            Err(x) => Err(x),
        },
{
}

/// Lemma: one step of evaluating a comprehension.
pub proof fn lemma_eval_comprehension(op: BinaryOp, a: ExprModel, b: ExprModel, ctx: ValueModel, fuel: nat)
    requires
        is_comprehension(op),
    ensures
        eval_spec(ExprModel::Binary(op, Box::new(a), Box::new(b)), ctx, fuel) == match eval_spec(a, ctx, fuel) {
            Ok(ValueModel::List(items)) => if op is All {
                match search_spec(items, b, ctx, fuel, items.len(), false) {
                    Ok(found) => Ok(ValueModel::Boolean(!found)),
                    Err(x) => Err(x),
                }
            } else if op is Any {
                match search_spec(items, b, ctx, fuel, items.len(), true) {
                    Ok(found) => Ok(ValueModel::Boolean(found)),
                    Err(x) => Err(x),
                }
            } else {
                match collect_spec(items, b, ctx, fuel, items.len(), op is Filter) {
                    Ok(s) => Ok(ValueModel::List(s)),
                    Err(x) => Err(x),
                }
            },
            Ok(_) => Err(EvalError::TypeError),
            Err(x) => Err(x),
        },
{
}

proof fn lemma_search_negated(
    items: Seq<ExprModel>,
    pred: ExprModel,
    ctx: ValueModel,
    fuel: nat,
    n: nat,
)
    ensures
        search_spec(items, ExprModel::Unary(UnaryOp::Not, Box::new(pred)), ctx, fuel, n, true)
            == search_spec(items, pred, ctx, fuel, n, false),
    decreases n,
{
    if n > 0 {
        lemma_search_negated(items, pred, ctx, fuel, (n - 1) as nat);
        let np = ExprModel::Unary(UnaryOp::Not, Box::new(pred));
        if search_spec(items, pred, ctx, fuel, (n - 1) as nat, false) == Ok::<bool, EvalError>(false) {
            lemma_search_next(items, pred, ctx, fuel, (n - 1) as nat, false);
            lemma_search_next(items, np, ctx, fuel, (n - 1) as nat, true);
            if fuel > 0 {
                if let Ok(v) = eval_spec(items[n - 1], ctx, (fuel - 1) as nat) {
                    assert(eval_spec(np, v, fuel) == match eval_spec(pred, v, fuel) {
                        Ok(w) => unary_spec(UnaryOp::Not, w),
                        Err(x) => Err(x),
                    });
                }
            }
        }
    }
}

/// Law: `L all p` has the same outcome as `(L any (p not)) not`, errors
/// included.
pub proof fn law_all_is_not_any_not(list: ExprModel, pred: ExprModel, ctx: ValueModel, fuel: nat)
    ensures
        eval_spec(ExprModel::Binary(BinaryOp::All, Box::new(list), Box::new(pred)), ctx, fuel) == eval_spec(
            ExprModel::Unary(
                UnaryOp::Not,
                Box::new(
                    ExprModel::Binary(
                        BinaryOp::Any,
                        Box::new(list),
                        Box::new(ExprModel::Unary(UnaryOp::Not, Box::new(pred))),
                    ),
                ),
            ),
            ctx,
            fuel,
        ),
{
    let np = ExprModel::Unary(UnaryOp::Not, Box::new(pred));
    let any = ExprModel::Binary(BinaryOp::Any, Box::new(list), Box::new(np));
    lemma_eval_comprehension(BinaryOp::All, list, pred, ctx, fuel);
    lemma_eval_comprehension(BinaryOp::Any, list, np, ctx, fuel);
    lemma_eval_unary(UnaryOp::Not, any, ctx, fuel);
    if let Ok(ValueModel::List(items)) = eval_spec(list, ctx, fuel) {
        lemma_search_negated(items, pred, ctx, fuel, items.len());
    }
}

proof fn lemma_collect_kept_len(
    items: Seq<ExprModel>,
    pred: ExprModel,
    ctx: ValueModel,
    fuel: nat,
    n: nat,
)
    ensures
        collect_spec(items, pred, ctx, fuel, n, true) matches Ok(acc) ==> acc.len() <= n,
    decreases n,
{
    if n > 0 {
        lemma_collect_kept_len(items, pred, ctx, fuel, (n - 1) as nat);
        if let Ok(acc) = collect_spec(items, pred, ctx, fuel, (n - 1) as nat, true) {
            lemma_collect_next(items, pred, ctx, fuel, (n - 1) as nat, true, acc);
        }
    }
}

/// Law: filtering a list never makes it longer. When `L` evaluates to a
/// list, `L length` is its length, and `L filter p length`, when it
/// succeeds, is at most that.
pub proof fn law_filter_never_grows(list: ExprModel, pred: ExprModel, ctx: ValueModel, fuel: nat)
    requires
        eval_spec(list, ctx, fuel) matches Ok(ValueModel::List(items)) && items.len() <= usize::MAX,
    ensures
        eval_spec(ExprModel::Unary(UnaryOp::Length, Box::new(list)), ctx, fuel) matches Ok(ValueModel::Numeral(m))
            && (eval_spec(
            ExprModel::Unary(
                UnaryOp::Length,
                Box::new(ExprModel::Binary(BinaryOp::Filter, Box::new(list), Box::new(pred))),
            ),
            ctx,
            fuel,
        ) matches Ok(ValueModel::Numeral(n)) ==> n <= m),
{
    let filtered = ExprModel::Binary(BinaryOp::Filter, Box::new(list), Box::new(pred));
    lemma_eval_unary(UnaryOp::Length, list, ctx, fuel);
    lemma_eval_unary(UnaryOp::Length, filtered, ctx, fuel);
    lemma_eval_comprehension(BinaryOp::Filter, list, pred, ctx, fuel);
    if let Ok(ValueModel::List(items)) = eval_spec(list, ctx, fuel) {
        lemma_collect_kept_len(items, pred, ctx, fuel, items.len());
    }
}

proof fn lemma_split_without_sep(s: Seq<char>, sep: char)
    requires
        forall|i: int| 0 <= i < s.len() ==> s[i] != sep,
    ensures
        split_on(s, sep) == seq![s],
    decreases s.len(),
{
    if s.len() > 0 {
        lemma_split_without_sep(s.drop_last(), sep);
        assert(s.drop_last().push(s.last()) =~= s);
        assert(s.last() != sep);
        assert(seq![s.drop_last()].update(0, s.drop_last().push(s.last())) =~= seq![s]);
    } else {
        assert(s =~= Seq::<char>::empty());
    }
}

/// Law: the path `.` (the empty path) evaluates to the context itself.
pub proof fn law_context_root(ctx: ValueModel, fuel: nat)
    ensures
        eval_spec(ExprModel::Context(Seq::empty()), ctx, fuel) == Ok::<ValueModel, EvalError>(ctx),
{
    lemma_navigate_next(ctx, seq![Seq::<char>::empty()]);
    assert(seq![Seq::<char>::empty()].drop_first() =~= Seq::<Seq<char>>::empty());
}

/// Law: a path of one key that the context dictionary does not hold fails
/// with `KeyNotFound`; one that it holds gives the key's value.
pub proof fn law_context_key(m: Map<Seq<char>, ValueModel>, key: Seq<char>, fuel: nat)
    requires
        key.len() > 0,
        forall|i: int| 0 <= i < key.len() ==> key[i] != '.',
    ensures
        eval_spec(ExprModel::Context(key), ValueModel::Dictionary(m), fuel) == if m.contains_key(key) {
            Ok::<ValueModel, EvalError>(m[key])
        } else {
            Err(EvalError::KeyNotFound)
        },
{
    lemma_split_without_sep(key, '.');
    lemma_navigate_next(ValueModel::Dictionary(m), seq![key]);
    assert(seq![key].drop_first() =~= Seq::<Seq<char>>::empty());
}

/// Law: an operator, other than a comprehension, whose operand evaluates to
/// a value of a kind it does not take fails with `TypeError`. The left
/// operand is checked before the right one is evaluated.
pub proof fn law_operand_kinds(op: BinaryOp, a: ExprModel, b: ExprModel, ctx: ValueModel, fuel: nat)
    requires
        !is_comprehension(op),
        eval_spec(a, ctx, fuel) is Ok,
    ensures
        !operand_ok(op, eval_spec(a, ctx, fuel)->Ok_0) ==> eval_spec(
            ExprModel::Binary(op, Box::new(a), Box::new(b)),
            ctx,
            fuel,
        ) == Err::<ValueModel, EvalError>(EvalError::TypeError),
        operand_ok(op, eval_spec(a, ctx, fuel)->Ok_0) && eval_spec(b, ctx, fuel) is Ok && !operand_ok(
            op,
            eval_spec(b, ctx, fuel)->Ok_0,
        ) ==> eval_spec(ExprModel::Binary(op, Box::new(a), Box::new(b)), ctx, fuel) == Err::<
            ValueModel,
            EvalError,
        >(EvalError::TypeError),
{
}

/// Law: a comprehension over something that is not a list fails with
/// `TypeError`.
pub proof fn law_comprehension_needs_list(op: BinaryOp, a: ExprModel, b: ExprModel, ctx: ValueModel, fuel: nat)
    requires
        is_comprehension(op),
        eval_spec(a, ctx, fuel) matches Ok(v) && !(v is List),
    ensures
        eval_spec(ExprModel::Binary(op, Box::new(a), Box::new(b)), ctx, fuel) == Err::<ValueModel, EvalError>(
            EvalError::TypeError,
        ),
{
}

/// Law: `not` takes only booleans, `length` only lists, `lines` only strings.
pub proof fn law_unary_kinds(op: UnaryOp, a: ExprModel, ctx: ValueModel, fuel: nat)
    requires
        eval_spec(a, ctx, fuel) matches Ok(v) && match op {
            UnaryOp::Not => !(v is Boolean),
            UnaryOp::Length => !(v is List),
            UnaryOp::Lines => !(v is Str),
        },
    ensures
        eval_spec(ExprModel::Unary(op, Box::new(a)), ctx, fuel) == Err::<ValueModel, EvalError>(
            EvalError::TypeError,
        ),
{
}

/// The elements whose predicate result is `true`, as literals, in order,
/// among the first `n`.
pub open spec fn kept_values(vals: Seq<ValueModel>, res: Seq<ValueModel>, n: nat) -> Seq<ExprModel>
    decreases n,
{
    if n == 0 {
        Seq::empty()
    } else {
        let prev = kept_values(vals, res, (n - 1) as nat);
        if res[n - 1] == ValueModel::Boolean(true) {
            prev.push(ExprModel::Literal(vals[n - 1]))
        } else {
            prev
        }
    }
}

/// Each result as a literal.
pub open spec fn literals_of(res: Seq<ValueModel>) -> Seq<ExprModel> {
    res.map_values(|r: ValueModel| ExprModel::Literal(r))
}

/// Whether every result is a boolean.
pub open spec fn all_booleans(res: Seq<ValueModel>) -> bool {
    forall|i: int| 0 <= i < res.len() ==> (#[trigger] res[i]) is Boolean
}

/// Whether some result among the first `n` is the boolean `b`.
pub open spec fn some_result_is(res: Seq<ValueModel>, n: nat, b: bool) -> bool {
    exists|i: int| 0 <= i < n && #[trigger] res[i] == ValueModel::Boolean(b)
}

/// The hypothesis of the comprehension laws: element `i` evaluates to
/// `vals[i]` in `ctx`, and the predicate to `res[i]` in that value.
pub open spec fn elements_give(
    items: Seq<ExprModel>,
    pred: ExprModel,
    ctx: ValueModel,
    fuel: nat,
    vals: Seq<ValueModel>,
    res: Seq<ValueModel>,
) -> bool {
    &&& fuel > 0
    &&& vals.len() == items.len()
    &&& res.len() == items.len()
    &&& forall|i: int|
        0 <= i < items.len() ==> eval_spec(#[trigger] items[i], ctx, (fuel - 1) as nat) == Ok::<
            ValueModel,
            EvalError,
        >(vals[i]) && eval_spec(pred, vals[i], fuel) == Ok::<ValueModel, EvalError>(res[i])
}

proof fn lemma_comprehension_prefix(
    items: Seq<ExprModel>,
    pred: ExprModel,
    ctx: ValueModel,
    fuel: nat,
    vals: Seq<ValueModel>,
    res: Seq<ValueModel>,
    n: nat,
)
    requires
        elements_give(items, pred, ctx, fuel, vals, res),
        n <= items.len(),
    ensures
        collect_spec(items, pred, ctx, fuel, n, false) == Ok::<Seq<ExprModel>, EvalError>(
            literals_of(res.take(n as int)),
        ),
        all_booleans(res) ==> search_spec(items, pred, ctx, fuel, n, true) == Ok::<bool, EvalError>(
            some_result_is(res, n, true),
        ),
        all_booleans(res) ==> search_spec(items, pred, ctx, fuel, n, false) == Ok::<bool, EvalError>(
            some_result_is(res, n, false),
        ),
        all_booleans(res) ==> collect_spec(items, pred, ctx, fuel, n, true) == Ok::<Seq<ExprModel>, EvalError>(
            kept_values(vals, res, n),
        ),
    decreases n,
{
    if n == 0 {
        assert(literals_of(res.take(0)) =~= Seq::<ExprModel>::empty());
    } else {
        let m = (n - 1) as nat;
        lemma_comprehension_prefix(items, pred, ctx, fuel, vals, res, m);
        let k = m as int;
        assert(eval_spec(items[k], ctx, (fuel - 1) as nat) == Ok::<ValueModel, EvalError>(vals[k]));
        lemma_collect_next(items, pred, ctx, fuel, m, false, literals_of(res.take(k)));
        assert(literals_of(res.take(n as int)) =~= literals_of(res.take(k)).push(ExprModel::Literal(res[k])));
        if all_booleans(res) {
            assert(res[k] is Boolean);
            lemma_collect_next(items, pred, ctx, fuel, m, true, kept_values(vals, res, m));
            if some_result_is(res, m, true) {
                let w = choose|i: int| 0 <= i < m && #[trigger] res[i] == ValueModel::Boolean(true);
                assert(0 <= w < n && res[w] == ValueModel::Boolean(true));
                lemma_search_stops(items, pred, ctx, fuel, m, n, true);
            } else {
                lemma_search_next(items, pred, ctx, fuel, m, true);
                if res[k] == ValueModel::Boolean(true) {
                    assert(some_result_is(res, n, true));
                } else {
                    assert forall|i: int| 0 <= i < n implies #[trigger] res[i] != ValueModel::Boolean(true) by {
                        if i < m {
                            assert(!some_result_is(res, m, true));
                        }
                    }
                }
            }
            if some_result_is(res, m, false) {
                let w = choose|i: int| 0 <= i < m && #[trigger] res[i] == ValueModel::Boolean(false);
                assert(0 <= w < n && res[w] == ValueModel::Boolean(false));
                lemma_search_stops(items, pred, ctx, fuel, m, n, false);
            } else {
                lemma_search_next(items, pred, ctx, fuel, m, false);
                if res[k] == ValueModel::Boolean(false) {
                    assert(some_result_is(res, n, false));
                } else {
                    assert forall|i: int| 0 <= i < n implies #[trigger] res[i] != ValueModel::Boolean(false) by {
                        if i < m {
                            assert(!some_result_is(res, m, false));
                        }
                    }
                }
            }
        }
    }
}

/// Law: a comprehension whose elements and predicate evaluate without error
/// gives, element by element: for `all`, whether every result is `true`;
/// for `any`, whether some result is `true`; for `filter`, the elements
/// whose result is `true`, in order; for `map`, every result, in order.
/// Elements are evaluated with one less depth than the comprehension.
pub proof fn law_comprehension_results(
    list: ExprModel,
    pred: ExprModel,
    ctx: ValueModel,
    fuel: nat,
    items: Seq<ExprModel>,
    vals: Seq<ValueModel>,
    res: Seq<ValueModel>,
)
    requires
        eval_spec(list, ctx, fuel) == Ok::<ValueModel, EvalError>(ValueModel::List(items)),
        elements_give(items, pred, ctx, fuel, vals, res),
    ensures
        eval_spec(ExprModel::Binary(BinaryOp::Transform, Box::new(list), Box::new(pred)), ctx, fuel) == Ok::<
            ValueModel,
            EvalError,
        >(ValueModel::List(literals_of(res))),
        all_booleans(res) ==> eval_spec(ExprModel::Binary(BinaryOp::All, Box::new(list), Box::new(pred)), ctx, fuel)
            == Ok::<ValueModel, EvalError>(ValueModel::Boolean(!some_result_is(res, res.len(), false))),
        all_booleans(res) ==> eval_spec(ExprModel::Binary(BinaryOp::Any, Box::new(list), Box::new(pred)), ctx, fuel)
            == Ok::<ValueModel, EvalError>(ValueModel::Boolean(some_result_is(res, res.len(), true))),
        all_booleans(res) ==> eval_spec(ExprModel::Binary(BinaryOp::Filter, Box::new(list), Box::new(pred)), ctx, fuel)
            == Ok::<ValueModel, EvalError>(ValueModel::List(kept_values(vals, res, res.len()))),
{
    lemma_comprehension_prefix(items, pred, ctx, fuel, vals, res, items.len());
    assert(res.take(items.len() as int) =~= res);
    lemma_eval_comprehension(BinaryOp::Transform, list, pred, ctx, fuel);
    lemma_eval_comprehension(BinaryOp::All, list, pred, ctx, fuel);
    lemma_eval_comprehension(BinaryOp::Any, list, pred, ctx, fuel);
    lemma_eval_comprehension(BinaryOp::Filter, list, pred, ctx, fuel);
}

/// Law: a context path is followed segment by segment from the context.
/// Empty segments are skipped. A non-empty segment must name a key of the
/// dictionary reached so far: a missing key fails with `KeyNotFound`, and a
/// value that is not a dictionary fails with `TypeError`.
pub proof fn law_path_segments(ctx: ValueModel, p: Seq<char>, segs: Seq<Seq<char>>, fuel: nat)
    requires
        segs.len() > 0,
    ensures
        eval_spec(ExprModel::Context(p), ctx, fuel) == navigate(ctx, split_on(p, '.')),
        segs[0].len() == 0 ==> navigate(ctx, segs) == navigate(ctx, segs.drop_first()),
        segs[0].len() > 0 && !(ctx is Dictionary) ==> navigate(ctx, segs) == Err::<ValueModel, EvalError>(
            EvalError::TypeError,
        ),
        segs[0].len() > 0 && ctx is Dictionary && !ctx->Dictionary_0.contains_key(segs[0]) ==> navigate(ctx, segs)
            == Err::<ValueModel, EvalError>(EvalError::KeyNotFound),
        segs[0].len() > 0 && ctx is Dictionary && ctx->Dictionary_0.contains_key(segs[0]) ==> navigate(ctx, segs)
            == navigate(ctx->Dictionary_0[segs[0]], segs.drop_first()),
{
    lemma_navigate_next(ctx, segs);
}

} // verus!
