//! The values and expression trees of the rule language, and their
//! mathematical models.
use vstd::prelude::*;

verus! {

/// A runtime datum of the rule language.
///
/// A dictionary is a list of entries; when a key occurs more than once, the
/// last entry with that key is the one that counts. The language compares
/// values with `values_equal`, dictionaries as maps; the derived `==`
/// compares entries in order.
#[derive(Debug, PartialEq)]
pub enum Value {
    Numeral(usize),
    Boolean(bool),
    String(String),
    List(Vec<Expr>),
    Dictionary(Vec<(String, Value)>),
}

/// An expression: a literal value or an operation.
#[derive(Debug, PartialEq)]
pub enum Expr {
    Value(Value),
    Operation(Operation),
}

/// The operators of the rule language.
#[derive(Debug, PartialEq)]
pub enum Operation {
    Equal(Box<Expr>, Box<Expr>),
    LessThan(Box<Expr>, Box<Expr>),
    GreaterThan(Box<Expr>, Box<Expr>),
    And(Box<Expr>, Box<Expr>),
    Or(Box<Expr>, Box<Expr>),
    Xor(Box<Expr>, Box<Expr>),
    Not(Box<Expr>),
    All(Box<Expr>, Box<Expr>),
    Any(Box<Expr>, Box<Expr>),
    Filter(Box<Expr>, Box<Expr>),
    Transform(Box<Expr>, Box<Expr>),
    Length(Box<Expr>),
    Test(Box<Expr>, Box<Expr>),
    Lines(Box<Expr>),
    Context(String),
}

/// Mathematical model of a value. Dictionaries are maps from keys to values.
pub enum ValueModel {
    Numeral(usize),
    Boolean(bool),
    Str(Seq<char>),
    List(Seq<ExprModel>),
    Dictionary(Map<Seq<char>, ValueModel>),
}

/// Operators that take one operand.
#[derive(Clone, Copy, Debug, PartialEq, Eq, Structural)]
pub enum UnaryOp {
    Not,
    Length,
    Lines,
}

/// Operators that take two operands.
#[derive(Clone, Copy, Debug, PartialEq, Eq, Structural)]
pub enum BinaryOp {
    Equal,
    LessThan,
    GreaterThan,
    And,
    Or,
    Xor,
    All,
    Any,
    Filter,
    Transform,
    Test,
}

/// Mathematical model of an expression.
pub enum ExprModel {
    Literal(ValueModel),
    Unary(UnaryOp, Box<ExprModel>),
    Binary(BinaryOp, Box<ExprModel>, Box<ExprModel>),
    Context(Seq<char>),
}

/// The model of a list of expressions, element by element.
pub open spec fn exprs_model(s: Seq<Expr>) -> Seq<ExprModel>
    decreases s,
{
    if s.len() == 0 {
        Seq::empty()
    } else {
        exprs_model(s.drop_last()).push(expr_model(s.last()))
    }
}

/// The model of a dictionary's entries: a later entry overrides an earlier one
/// with the same key.
pub open spec fn entries_model(s: Seq<(String, Value)>) -> Map<Seq<char>, ValueModel>
    decreases s,
{
    if s.len() == 0 {
        Map::empty()
    } else {
        entries_model(s.drop_last()).insert(s.last().0@, value_model(s.last().1))
    }
}

pub open spec fn value_model(v: Value) -> ValueModel
    decreases v,
{
    match v {
        Value::Numeral(n) => ValueModel::Numeral(n),
        Value::Boolean(b) => ValueModel::Boolean(b),
        Value::String(s) => ValueModel::Str(s@),
        Value::List(l) => ValueModel::List(exprs_model(l@)),
        Value::Dictionary(d) => ValueModel::Dictionary(entries_model(d@)),
    }
}

pub open spec fn expr_model(e: Expr) -> ExprModel
    decreases e,
{
    match e {
        Expr::Value(v) => ExprModel::Literal(value_model(v)),
        Expr::Operation(op) => match op {
            Operation::Equal(a, b) => ExprModel::Binary(BinaryOp::Equal, Box::new(expr_model(*a)), Box::new(expr_model(*b))),
            Operation::LessThan(a, b) => ExprModel::Binary(BinaryOp::LessThan, Box::new(expr_model(*a)), Box::new(expr_model(*b))),
            Operation::GreaterThan(a, b) => ExprModel::Binary(BinaryOp::GreaterThan, Box::new(expr_model(*a)), Box::new(expr_model(*b))),
            Operation::And(a, b) => ExprModel::Binary(BinaryOp::And, Box::new(expr_model(*a)), Box::new(expr_model(*b))),
            Operation::Or(a, b) => ExprModel::Binary(BinaryOp::Or, Box::new(expr_model(*a)), Box::new(expr_model(*b))),
            Operation::Xor(a, b) => ExprModel::Binary(BinaryOp::Xor, Box::new(expr_model(*a)), Box::new(expr_model(*b))),
            Operation::Not(a) => ExprModel::Unary(UnaryOp::Not, Box::new(expr_model(*a))),
            Operation::All(a, b) => ExprModel::Binary(BinaryOp::All, Box::new(expr_model(*a)), Box::new(expr_model(*b))),
            Operation::Any(a, b) => ExprModel::Binary(BinaryOp::Any, Box::new(expr_model(*a)), Box::new(expr_model(*b))),
            Operation::Filter(a, b) => ExprModel::Binary(BinaryOp::Filter, Box::new(expr_model(*a)), Box::new(expr_model(*b))),
            Operation::Transform(a, b) => ExprModel::Binary(BinaryOp::Transform, Box::new(expr_model(*a)), Box::new(expr_model(*b))),
            Operation::Length(a) => ExprModel::Unary(UnaryOp::Length, Box::new(expr_model(*a))),
            Operation::Test(a, b) => ExprModel::Binary(BinaryOp::Test, Box::new(expr_model(*a)), Box::new(expr_model(*b))),
            Operation::Lines(a) => ExprModel::Unary(UnaryOp::Lines, Box::new(expr_model(*a))),
            Operation::Context(p) => ExprModel::Context(p@),
        },
    }
}

impl View for Value {
    type V = ValueModel;

    open spec fn view(&self) -> ValueModel {
        value_model(*self)
    }
}

impl View for Expr {
    type V = ExprModel;

    open spec fn view(&self) -> ExprModel {
        expr_model(*self)
    }
}

/// Lemma: appending an expression appends its model.
pub proof fn lemma_exprs_model_push(s: Seq<Expr>, e: Expr)
    ensures
        exprs_model(s.push(e)) == exprs_model(s).push(expr_model(e)),
        exprs_model(s).len() == s.len(),
{
    assert(s.push(e).drop_last() =~= s);
    lemma_exprs_model_len(s);
}

pub proof fn lemma_exprs_model_len(s: Seq<Expr>)
    ensures
        exprs_model(s).len() == s.len(),
    decreases s.len(),
{
    if s.len() > 0 {
        lemma_exprs_model_len(s.drop_last());
    }
}

/// Lemma: the model of the i-th element is the i-th element of the model.
pub proof fn lemma_exprs_model_index(s: Seq<Expr>, i: int)
    requires
        0 <= i < s.len(),
    ensures
        exprs_model(s).len() == s.len(),
        exprs_model(s)[i] == expr_model(s[i]),
    decreases s.len(),
{
    lemma_exprs_model_len(s);
    if i < s.len() - 1 {
        lemma_exprs_model_index(s.drop_last(), i);
    }
}

/// Lemma: two lists of expressions have equal models when their elements do.
pub proof fn lemma_exprs_model_ext(s: Seq<Expr>, t: Seq<Expr>)
    requires
        s.len() == t.len(),
        forall|i: int| 0 <= i < s.len() ==> expr_model(#[trigger] s[i]) == expr_model(t[i]),
    ensures
        exprs_model(s) == exprs_model(t),
{
    lemma_exprs_model_len(s);
    lemma_exprs_model_len(t);
    assert forall|i: int| 0 <= i < s.len() implies exprs_model(s)[i] == exprs_model(t)[i] by {
        lemma_exprs_model_index(s, i);
        lemma_exprs_model_index(t, i);
    }
    assert(exprs_model(s) =~= exprs_model(t));
}

/// The index of the last entry with key `k`, if any.
pub open spec fn last_index_of(s: Seq<(String, Value)>, k: Seq<char>) -> Option<int>
    decreases s.len(),
{
    if s.len() == 0 {
        None
    } else if s.last().0@ == k {
        Some(s.len() - 1)
    } else {
        last_index_of(s.drop_last(), k)
    }
}

/// Lemma: a dictionary's model holds key `k` exactly when some entry has it,
/// and then maps it to the value of the last such entry.
pub proof fn lemma_entries_model_lookup(s: Seq<(String, Value)>, k: Seq<char>)
    ensures
        entries_model(s).contains_key(k) <==> last_index_of(s, k) is Some,
        match last_index_of(s, k) {
            Some(i) => 0 <= i < s.len() && s[i].0@ == k && entries_model(s)[k] == value_model(s[i].1)
                && forall|j: int| i < j < s.len() ==> s[j].0@ != k,
            None => forall|j: int| 0 <= j < s.len() ==> s[j].0@ != k,
        },
    decreases s.len(),
{
    if s.len() > 0 {
        let t = s.drop_last();
        lemma_entries_model_lookup(t, k);
        assert(forall|j: int| 0 <= j < t.len() ==> t[j] == s[j]);
    }
}

impl From<String> for Value {
    fn from(s: String) -> (r: Value) {
        Value::String(s)
    }
}

impl vstd::std_specs::convert::FromSpecImpl<String> for Value {
    open spec fn obeys_from_spec() -> bool {
        true
    }

    open spec fn from_spec(s: String) -> Value {
        Value::String(s)
    }
}

/// The expression that stands for the value `v`.
pub fn literal(v: Value) -> (r: Expr)
    ensures
        r@ == ExprModel::Literal(v@),
{
    Expr::Value(v)
}

impl Value {
    /// A deep copy of the value.
    pub fn duplicate(&self) -> (r: Value)
        ensures
            r@ == self@,
        decreases self,
    {
        match self {
            Value::Numeral(n) => Value::Numeral(*n),
            Value::Boolean(b) => Value::Boolean(*b),
            Value::String(s) => Value::String(s.clone()),
            Value::List(l) => Value::List(duplicate_exprs(l)),
            Value::Dictionary(d) => Value::Dictionary(duplicate_entries(d)),
        }
    }
}

/// A deep copy of a dictionary's entries.
pub fn duplicate_entries(d: &Vec<(String, Value)>) -> (r: Vec<(String, Value)>)
    ensures
        entries_model(r@) == entries_model(d@),
        r.len() == d.len(),
        forall|j: int| 0 <= j < d.len() ==> (#[trigger] r@[j]).0@ == d@[j].0@,
    decreases d,
{
    let mut out: Vec<(String, Value)> = Vec::new();
    let mut i: usize = 0;
    while i < d.len()
        invariant
            i <= d.len(),
            out.len() == i,
            entries_model(out@) == entries_model(d@.take(i as int)),
            forall|j: int| 0 <= j < i ==> (#[trigger] out@[j]).0@ == d@[j].0@,
        decreases d.len() - i,
    {
        let k = d[i].0.clone();
        proof {
            assert(decreases_to!(d => d[i as int]));
        }
        let v = d[i].1.duplicate();
        let ghost old_out = out@;
        out.push((k, v));
        proof {
            assert(out@.drop_last() =~= old_out);
            assert(d@.take(i + 1).drop_last() =~= d@.take(i as int));
        }
        i = i + 1;
    }
    assert(d@.take(d.len() as int) =~= d@);
    out
}

/// A deep copy of a list of expressions.
pub fn duplicate_exprs(l: &Vec<Expr>) -> (r: Vec<Expr>)
    ensures
        exprs_model(r@) == exprs_model(l@),
        r.len() == l.len(),
    decreases l,
{
    let mut out: Vec<Expr> = Vec::new();
    let mut i: usize = 0;
    while i < l.len()
        invariant
            i <= l.len(),
            out.len() == i,
            exprs_model(out@) == exprs_model(l@.take(i as int)),
        decreases l.len() - i,
    {
        let e = l[i].duplicate();
        proof {
            lemma_exprs_model_push(out@, e);
            lemma_exprs_model_push(l@.take(i as int), l@[i as int]);
            assert(l@.take(i + 1) =~= l@.take(i as int).push(l@[i as int]));
        }
        out.push(e);
        i = i + 1;
    }
    assert(l@.take(l.len() as int) =~= l@);
    out
}

impl Expr {
    /// A deep copy of the expression.
    pub fn duplicate(&self) -> (r: Expr)
        ensures
            r@ == self@,
        decreases self,
    {
        match self {
            Expr::Value(v) => Expr::Value(v.duplicate()),
            Expr::Operation(op) => Expr::Operation(match op {
                Operation::Equal(a, b) => Operation::Equal(Box::new(a.duplicate()), Box::new(b.duplicate())),
                Operation::LessThan(a, b) => Operation::LessThan(Box::new(a.duplicate()), Box::new(b.duplicate())),
                Operation::GreaterThan(a, b) => Operation::GreaterThan(Box::new(a.duplicate()), Box::new(b.duplicate())),
                Operation::And(a, b) => Operation::And(Box::new(a.duplicate()), Box::new(b.duplicate())),
                Operation::Or(a, b) => Operation::Or(Box::new(a.duplicate()), Box::new(b.duplicate())),
                Operation::Xor(a, b) => Operation::Xor(Box::new(a.duplicate()), Box::new(b.duplicate())),
                Operation::Not(a) => Operation::Not(Box::new(a.duplicate())),
                Operation::All(a, b) => Operation::All(Box::new(a.duplicate()), Box::new(b.duplicate())),
                Operation::Any(a, b) => Operation::Any(Box::new(a.duplicate()), Box::new(b.duplicate())),
                Operation::Filter(a, b) => Operation::Filter(Box::new(a.duplicate()), Box::new(b.duplicate())),
                Operation::Transform(a, b) => Operation::Transform(Box::new(a.duplicate()), Box::new(b.duplicate())),
                Operation::Length(a) => Operation::Length(Box::new(a.duplicate())),
                Operation::Test(a, b) => Operation::Test(Box::new(a.duplicate()), Box::new(b.duplicate())),
                Operation::Lines(a) => Operation::Lines(Box::new(a.duplicate())),
                Operation::Context(p) => Operation::Context(p.clone()),
            }),
        }
    }
}

/// Whether two strings hold the same characters.
pub fn strings_equal(a: &String, b: &String) -> (r: bool)
    ensures
        r == (a@ == b@),
{
    a.eq(b)
}

/// The index of the last entry of `d` whose key is `k`, if any.
pub fn find_key(d: &Vec<(String, Value)>, k: &String) -> (r: Option<usize>)
    ensures
        match r {
            Some(i) => last_index_of(d@, k@) == Some(i as int),
            None => last_index_of(d@, k@) is None,
        },
{
    let mut i: usize = d.len();
    assert(d@.take(d.len() as int) =~= d@);
    while i > 0
        invariant
            i <= d.len(),
            last_index_of(d@, k@) == last_index_of(d@.take(i as int), k@),
        decreases i,
    {
        assert(d@.take(i as int).drop_last() =~= d@.take(i - 1));
        if strings_equal(&d[i - 1].0, k) {
            return Some(i - 1);
        }
        i = i - 1;
    }
    None
}

/// Whether two values have the same model: numerals, booleans and strings by
/// their contents, lists element by element, dictionaries as maps.
pub fn values_equal(a: &Value, b: &Value) -> (r: bool)
    ensures
        r == (a@ == b@),
    decreases a,
{
    match a {
        Value::Numeral(x) => match b {
            Value::Numeral(y) => *x == *y,
            _ => false,
        },
        Value::Boolean(x) => match b {
            Value::Boolean(y) => *x == *y,
            _ => false,
        },
        Value::String(x) => match b {
            Value::String(y) => strings_equal(x, y),
            _ => false,
        },
        Value::List(x) => match b {
            Value::List(y) => lists_equal(x, y),
            _ => false,
        },
        Value::Dictionary(x) => match b {
            Value::Dictionary(y) => entries_equal(x, y),
            _ => false,
        },
    }
}

/// Whether two lists of expressions have the same model.
pub fn lists_equal(a: &Vec<Expr>, b: &Vec<Expr>) -> (r: bool)
    ensures
        r == (exprs_model(a@) == exprs_model(b@)),
    decreases a,
{
    proof {
        lemma_exprs_model_len(a@);
        lemma_exprs_model_len(b@);
    }
    if a.len() != b.len() {
        return false;
    }
    let mut i: usize = 0;
    while i < a.len()
        invariant
            i <= a.len(),
            a.len() == b.len(),
            forall|j: int| 0 <= j < i ==> expr_model(#[trigger] a@[j]) == expr_model(b@[j]),
        decreases a.len() - i,
    {
        proof {
            assert(decreases_to!(a => a[i as int]));
        }
        if !exprs_equal(&a[i], &b[i]) {
            proof {
                lemma_exprs_model_index(a@, i as int);
                lemma_exprs_model_index(b@, i as int);
            }
            return false;
        }
        i = i + 1;
    }
    proof {
        lemma_exprs_model_ext(a@, b@);
    }
    true
}

/// Whether two dictionaries' entries have the same model, as maps.
pub fn entries_equal(a: &Vec<(String, Value)>, b: &Vec<(String, Value)>) -> (r: bool)
    ensures
        r == (entries_model(a@) == entries_model(b@)),
    decreases a,
{
    let mut i: usize = 0;
    while i < a.len()
        invariant
            i <= a.len(),
            forall|j: int| 0 <= j < i ==> {
                let k = (#[trigger] a@[j]).0@;
                entries_model(a@).contains_key(k) && entries_model(b@).contains_key(k)
                    && entries_model(a@)[k] == entries_model(b@)[k]
            },
        decreases a.len() - i,
    {
        let ghost k = a@[i as int].0@;
        proof {
            lemma_entries_model_lookup(a@, k);
            lemma_entries_model_lookup(b@, k);
        }
        let ia = find_key(a, &a[i].0);
        let ib = find_key(b, &a[i].0);
        match ib {
            None => {
                return false;
            },
            Some(jb) => {
                let ja = ia.unwrap();
                proof {
                    assert(decreases_to!(a => a[ja as int]));
                }
                if !values_equal(&a[ja].1, &b[jb].1) {
                    return false;
                }
            },
        }
        i = i + 1;
    }
    let mut j: usize = 0;
    while j < b.len()
        invariant
            j <= b.len(),
            forall|m: int| 0 <= m < j ==> entries_model(a@).contains_key((#[trigger] b@[m]).0@),
            forall|m: int| 0 <= m < a.len() ==> {
                let k = (#[trigger] a@[m]).0@;
                entries_model(a@).contains_key(k) && entries_model(b@).contains_key(k)
                    && entries_model(a@)[k] == entries_model(b@)[k]
            },
        decreases b.len() - j,
    {
        let ghost k = b@[j as int].0@;
        proof {
            lemma_entries_model_lookup(a@, k);
            lemma_entries_model_lookup(b@, k);
        }
        if find_key(a, &b[j].0).is_none() {
            return false;
        }
        j = j + 1;
    }
    proof {
        let ma = entries_model(a@);
        let mb = entries_model(b@);
        assert forall|k: Seq<char>| #[trigger] ma.dom().contains(k) == mb.dom().contains(k)
            && (ma.dom().contains(k) ==> ma[k] == mb[k]) by {
            lemma_entries_model_lookup(a@, k);
            lemma_entries_model_lookup(b@, k);
            if let Some(x) = last_index_of(a@, k) {
                assert(a@[x].0@ == k);
            }
            if let Some(y) = last_index_of(b@, k) {
                assert(b@[y].0@ == k);
            }
        }
        assert(ma =~= mb);
    }
    true
}

/// Whether two expressions have the same model.
pub fn exprs_equal(a: &Expr, b: &Expr) -> (r: bool)
    ensures
        r == (a@ == b@),
    decreases a,
{
    match a {
        Expr::Value(x) => match b {
            Expr::Value(y) => values_equal(x, y),
            _ => false,
        },
        Expr::Operation(x) => match b {
            Expr::Operation(y) => operations_equal(x, y),
            _ => false,
        },
    }
}

/// Whether two operations have the same model: the same operator, with
/// operands that have the same model.
pub fn operations_equal(a: &Operation, b: &Operation) -> (r: bool)
    ensures
        r == (expr_model(Expr::Operation(*a)) == expr_model(Expr::Operation(*b))),
    decreases a,
{
    match (a, b) {
        (Operation::Equal(a1, a2), Operation::Equal(b1, b2)) => exprs_equal(a1, b1) && exprs_equal(a2, b2),
        (Operation::LessThan(a1, a2), Operation::LessThan(b1, b2)) => exprs_equal(a1, b1) && exprs_equal(a2, b2),
        (Operation::GreaterThan(a1, a2), Operation::GreaterThan(b1, b2)) => exprs_equal(a1, b1) && exprs_equal(a2, b2),
        (Operation::And(a1, a2), Operation::And(b1, b2)) => exprs_equal(a1, b1) && exprs_equal(a2, b2),
        (Operation::Or(a1, a2), Operation::Or(b1, b2)) => exprs_equal(a1, b1) && exprs_equal(a2, b2),
        (Operation::Xor(a1, a2), Operation::Xor(b1, b2)) => exprs_equal(a1, b1) && exprs_equal(a2, b2),
        (Operation::Not(a1), Operation::Not(b1)) => exprs_equal(a1, b1),
        (Operation::All(a1, a2), Operation::All(b1, b2)) => exprs_equal(a1, b1) && exprs_equal(a2, b2),
        (Operation::Any(a1, a2), Operation::Any(b1, b2)) => exprs_equal(a1, b1) && exprs_equal(a2, b2),
        (Operation::Filter(a1, a2), Operation::Filter(b1, b2)) => exprs_equal(a1, b1) && exprs_equal(a2, b2),
        (Operation::Transform(a1, a2), Operation::Transform(b1, b2)) => exprs_equal(a1, b1) && exprs_equal(a2, b2),
        (Operation::Length(a1), Operation::Length(b1)) => exprs_equal(a1, b1),
        (Operation::Test(a1, a2), Operation::Test(b1, b2)) => exprs_equal(a1, b1) && exprs_equal(a2, b2),
        (Operation::Lines(a1), Operation::Lines(b1)) => exprs_equal(a1, b1),
        (Operation::Context(p), Operation::Context(q)) => strings_equal(p, q),
        _ => false,
    }
}

} // verus!
