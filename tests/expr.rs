use tailor::eval::{eval, eval_expr, EvalError, RuleError};
use tailor::parser::{parse, ParseError};
use tailor::value::{Expr, Operation, Value};

fn eval_pr(expression: &str) -> Result<bool, RuleError> {
    let map = vec![(
        String::from("commits"),
        Value::List(vec![
            Expr::Value(Value::Dictionary(Vec::new())),
            Expr::Value(Value::Dictionary(Vec::new())),
        ]),
    )];
    eval(expression, &Value::Dictionary(map))
}

fn num(n: usize) -> Box<Expr> {
    Box::new(Expr::Value(Value::Numeral(n)))
}

fn boolean(b: bool) -> Box<Expr> {
    Box::new(Expr::Value(Value::Boolean(b)))
}

#[test]
fn test_value() {
    assert_eq!(parse("true"), Ok(Expr::Value(Value::Boolean(true))));
    assert_eq!(parse("false"), Ok(Expr::Value(Value::Boolean(false))));
    assert_eq!(parse(" true  "), Ok(Expr::Value(Value::Boolean(true))));
    assert_eq!(parse("12"), Ok(Expr::Value(Value::Numeral(12))));
    assert_eq!(parse("  52 "), Ok(Expr::Value(Value::Numeral(52))));
    assert_eq!(parse("[]"), Ok(Expr::Value(Value::List(vec![]))));
    assert_eq!(
        parse("[1 true]"),
        Ok(Expr::Value(Value::List(vec![
            Expr::Value(Value::Numeral(1)),
            Expr::Value(Value::Boolean(true)),
        ])))
    );
    assert_eq!(parse(r#""""#), Ok(Expr::Value(Value::String(String::new()))));
    assert_eq!(
        parse(r#""simple string""#),
        Ok(Expr::Value(Value::String("simple string".to_string())))
    );
    assert_eq!(
        parse(r#""^[A-Za-z\":\\]{,100}$""#),
        Ok(Expr::Value(Value::String(r#"^[A-Za-z":\]{,100}$"#.to_string())))
    );
}

#[test]
fn test_parse() {
    assert_eq!(
        parse("1 < 7").unwrap(),
        Expr::Operation(Operation::LessThan(num(1), num(7)))
    );
    assert_eq!(
        parse("false and true not and true").unwrap(),
        Expr::Operation(Operation::And(
            Box::new(Expr::Operation(Operation::Not(Box::new(Expr::Operation(
                Operation::And(boolean(false), boolean(true))
            ))))),
            boolean(true),
        ))
    );
    assert_eq!(
        parse("((1 < 7) or (2 > 9)) and true").unwrap(),
        Expr::Operation(Operation::And(
            Box::new(Expr::Operation(Operation::Or(
                Box::new(Expr::Operation(Operation::LessThan(num(1), num(7)))),
                Box::new(Expr::Operation(Operation::GreaterThan(num(2), num(9)))),
            ))),
            boolean(true),
        ))
    );
    assert_eq!(
        parse("(.attr) length").unwrap(),
        Expr::Operation(Operation::Length(Box::new(Expr::Operation(
            Operation::Context(String::from("attr"))
        ))))
    );
    assert_eq!(
        parse(".attr length").unwrap(),
        Expr::Operation(Operation::Length(Box::new(Expr::Operation(
            Operation::Context(String::from("attr"))
        ))))
    );
    assert_eq!(
        parse(".attr.sub length").unwrap(),
        Expr::Operation(Operation::Length(Box::new(Expr::Operation(
            Operation::Context(String::from("attr.sub"))
        ))))
    );
}

#[test]
fn test_eval() {
    assert_eq!(eval_pr("true").unwrap(), true);
    assert_eq!(eval_pr("true and false").unwrap(), false);
    assert_eq!(eval_pr("(true and false) or true").unwrap(), true);
    assert_eq!(eval_pr("true and (false or true)").unwrap(), true);
    assert_eq!(eval_pr("true not").unwrap(), false);
    assert_eq!(eval_pr("false = false").unwrap(), true);
    assert_eq!(eval_pr("7 = 7").unwrap(), true);
    assert_eq!(eval_pr("7 = true").unwrap(), false);
    assert_eq!(eval_pr("[1 2 3] length = 3").unwrap(), true);
    assert_eq!(eval_pr("[true true true] all .").unwrap(), true);
    assert_eq!(eval_pr("[true true false] all .").unwrap(), false);
    assert_eq!(eval_pr("[false true false] any .").unwrap(), true);
    assert_eq!(eval_pr("[false] any .").unwrap(), false);
    assert_eq!(
        eval_pr("[false true false] filter . length = 1").unwrap(),
        true
    );
    assert_eq!(eval_pr("[false false] map(. not) all .").unwrap(), true);
    assert_eq!(eval_pr(".commits length = 2").unwrap(), true);
    assert_eq!(eval_pr(r#""hello" test "h""#).unwrap(), true);
    assert_eq!(eval_pr(r#""hello" test "z""#).unwrap(), false);
}

#[test]
fn scenario_table() {
    let empty = Value::Dictionary(Vec::new());
    assert_eq!(eval("1 < 7", &empty), Ok(true));
    assert_eq!(eval("false and true not and true", &empty), Ok(true));
    assert_eq!(eval("((1 < 7) or (2 > 9)) and true", &empty), Ok(true));
    let nested = Value::Dictionary(vec![(
        String::from("attr"),
        Value::Dictionary(vec![(
            String::from("sub"),
            Value::List(vec![
                Expr::Value(Value::Numeral(1)),
                Expr::Value(Value::Numeral(2)),
                Expr::Value(Value::Numeral(3)),
            ]),
        )]),
    )]);
    assert_eq!(eval(".attr.sub length = 3", &nested), Ok(true));
    let e = parse(".attr.sub length").unwrap();
    assert_eq!(eval_expr(&e, &nested), Ok(Value::Numeral(3)));
    assert_eq!(eval("[true true false] all .", &empty), Ok(false));
    assert_eq!(eval("[false true false] filter . length = 1", &empty), Ok(true));
    assert_eq!(eval(r#""hello" test "h""#, &empty), Ok(true));
    assert_eq!(eval(r#""hello" test "z""#, &empty), Ok(false));
    assert_eq!(eval("true length", &empty), Err(RuleError::Eval(EvalError::TypeError)));
}

#[test]
fn remaining_input_is_refused() {
    assert_eq!(parse("true false"), Err(ParseError::RemainingInput(5)));
    assert_eq!(parse("1 <"), Err(ParseError::RemainingInput(2)));
    assert_eq!(parse("  ]"), Err(ParseError::Syntax(2)));
    assert_eq!(parse(""), Err(ParseError::Syntax(0)));
    assert_eq!(parse("99999999999999999999999"), Err(ParseError::Syntax(0)));
}

#[test]
fn string_escapes() {
    assert_eq!(
        parse(r#""a\nb""#),
        Ok(Expr::Value(Value::String("a\\nb".to_string())))
    );
    assert_eq!(parse(r#""unterminated"#), Err(ParseError::Syntax(0)));
    assert_eq!(parse("[ ]"), Ok(Expr::Value(Value::List(vec![]))));
}

#[test]
fn wrong_kinds_are_type_errors() {
    let empty = Value::Dictionary(Vec::new());
    let type_error = Err(RuleError::Eval(EvalError::TypeError));
    for text in [
        "1 < true",
        "true < 1",
        "\"a\" > 1",
        "1 and true",
        "true or 1",
        "\"x\" xor true",
        "1 not",
        "\"abc\" length",
        "1 lines",
        "1 test \"a\"",
        "\"a\" test 1",
        "1 all .",
        "true any .",
        "\"s\" filter .",
        "1 map .",
        "[1] all .",
        "[1] filter .",
    ] {
        assert_eq!(eval(text, &empty), type_error, "{}", text);
    }
    assert_eq!(eval("[1 2] length = 2", &empty), Ok(true));
    assert_eq!(eval("2 > 1", &empty), Ok(true));
    assert_eq!(eval("true xor true", &empty), Ok(false));
    assert_eq!(eval("1", &empty), Err(RuleError::NotBoolean));
}

#[test]
fn comprehension_laws_on_examples() {
    let empty = Value::Dictionary(Vec::new());
    for list in ["[]", "[true]", "[false]", "[true false true]", "[false false]"] {
        let all = eval(&format!("{} all .", list), &empty);
        let not_any_not = eval(&format!("({} any (. not)) not", list), &empty);
        assert_eq!(all, not_any_not, "{}", list);
        let l = eval_expr(&parse(&format!("{} length", list)).unwrap(), &empty).unwrap();
        let f = eval_expr(&parse(&format!("{} filter . length", list)).unwrap(), &empty).unwrap();
        match (l, f) {
            (Value::Numeral(m), Value::Numeral(n)) => assert!(n <= m),
            _ => panic!("lengths expected"),
        }
    }
    assert_eq!(eval("[] all .", &empty), Ok(true));
    assert_eq!(eval("[] any .", &empty), Ok(false));
}

#[test]
fn context_navigation() {
    let v = Value::Numeral(4);
    let ctx = Value::Dictionary(vec![(
        String::from("a"),
        Value::Dictionary(vec![(String::from("b"), v)]),
    )]);
    assert_eq!(
        eval_expr(&parse(".").unwrap(), &ctx),
        Ok(Value::Dictionary(vec![(
            String::from("a"),
            Value::Dictionary(vec![(String::from("b"), Value::Numeral(4))]),
        )]))
    );
    assert_eq!(eval_expr(&parse(".a.b").unwrap(), &ctx), Ok(Value::Numeral(4)));
    assert_eq!(
        eval_expr(&parse(".a.c").unwrap(), &ctx),
        Err(EvalError::KeyNotFound)
    );
    assert_eq!(
        eval_expr(&parse(".a.b.c").unwrap(), &ctx),
        Err(EvalError::TypeError)
    );
    assert_eq!(eval_expr(&parse(".").unwrap(), &Value::Boolean(true)), Ok(Value::Boolean(true)));
}

#[test]
fn dictionaries_compare_as_maps() {
    let a = Value::Dictionary(vec![
        (String::from("x"), Value::Numeral(1)),
        (String::from("y"), Value::Numeral(2)),
    ]);
    let b = Value::Dictionary(vec![
        (String::from("y"), Value::Numeral(2)),
        (String::from("x"), Value::Numeral(1)),
    ]);
    let ctx = Value::Dictionary(vec![(String::from("a"), a), (String::from("b"), b)]);
    assert_eq!(eval(".a = .b", &ctx), Ok(true));
    assert_eq!(eval(".a.x = .b.y", &ctx), Ok(false));
}

#[test]
fn lines_split_on_newlines() {
    let ctx = Value::Dictionary(vec![(String::from("s"), Value::String(String::from("a\nb\n")))]);
    assert_eq!(
        eval_expr(&parse(".s lines").unwrap(), &ctx),
        Ok(Value::List(vec![
            Expr::Value(Value::String(String::from("a"))),
            Expr::Value(Value::String(String::from("b"))),
            Expr::Value(Value::String(String::new())),
        ]))
    );
    assert_eq!(eval(".s lines length = 3", &ctx), Ok(true));
}

#[test]
fn invalid_pattern_is_regex_error() {
    let empty = Value::Dictionary(Vec::new());
    assert_eq!(
        eval(r#""abc" test "(""#, &empty),
        Err(RuleError::Eval(EvalError::RegexError))
    );
    assert_eq!(eval(r#""abc" test "^a.c$""#, &empty), Ok(true));
}

#[test]
fn self_referential_list_hits_the_depth_budget() {
    let empty = Value::Dictionary(Vec::new());
    assert_eq!(
        eval("[[(. all .)]] all (. all .)", &empty),
        Err(RuleError::Eval(EvalError::DepthExceeded))
    );
}
