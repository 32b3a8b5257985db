use galaxy::errors::Error;
use galaxy::eval::{BuiltIn, State, Value};
use galaxy::nested::NestedList;
use galaxy::syntax::{parse_line, Stmt, Token, Var};

const STEPS: u64 = 100000;

fn load(state: &mut State, line: &str) {
    let stmt = parse_line(line).expect("program line must parse");
    state.interpret(stmt).expect("program line must compile");
}

fn eval_named(state: &mut State, name: &str) -> Result<Value, Error> {
    state.eval(&Var::Named(name.to_string()), STEPS)
}

#[test]
fn test_arithmetic_primitives() {
    let mut s = State::new();
    load(&mut s, "a = ap ap add 1 2");
    load(&mut s, "b = ap ap mul 6 7");
    load(&mut s, "c = ap ap div 7 2");
    load(&mut s, "d = ap ap div -7 2");
    load(&mut s, "e = ap inc 41");
    load(&mut s, "g = ap dec 43");
    load(&mut s, "h = ap neg 5");
    load(&mut s, "p = ap pwr2 7");
    assert_eq!(eval_named(&mut s, "a"), Ok(Value::Number(3)));
    assert_eq!(eval_named(&mut s, "b"), Ok(Value::Number(42)));
    assert_eq!(eval_named(&mut s, "c"), Ok(Value::Number(3)));
    // division truncates toward zero
    assert_eq!(eval_named(&mut s, "d"), Ok(Value::Number(-3)));
    assert_eq!(eval_named(&mut s, "e"), Ok(Value::Number(42)));
    assert_eq!(eval_named(&mut s, "g"), Ok(Value::Number(42)));
    assert_eq!(eval_named(&mut s, "h"), Ok(Value::Number(-5)));
    assert_eq!(eval_named(&mut s, "p"), Ok(Value::Number(128)));
}

#[test]
fn test_comparisons_and_selectors() {
    let mut s = State::new();
    load(&mut s, "a = ap ap eq 3 3");
    load(&mut s, "b = ap ap eq 3 4");
    load(&mut s, "c = ap ap lt 3 4");
    load(&mut s, "d = ap ap lt 4 3");
    load(&mut s, "e = ap ap t 1 2");
    load(&mut s, "g = ap ap f 1 2");
    // `if0` has no program word of its own; build its statements directly
    let if0_stmt = |name: &str, scrutinee: i64| Stmt {
        var: Var::Named(name.to_string()),
        code: vec![
            Token::Ap,
            Token::Ap,
            Token::Ap,
            Token::If0,
            Token::Number(scrutinee),
            Token::Number(42),
            Token::Number(43),
        ],
    };
    s.interpret(if0_stmt("h", 0)).expect("must compile");
    s.interpret(if0_stmt("j", 1)).expect("must compile");
    assert_eq!(eval_named(&mut s, "a"), Ok(Value::BuiltIn(BuiltIn::True)));
    assert_eq!(eval_named(&mut s, "b"), Ok(Value::BuiltIn(BuiltIn::False)));
    assert_eq!(eval_named(&mut s, "c"), Ok(Value::BuiltIn(BuiltIn::True)));
    assert_eq!(eval_named(&mut s, "d"), Ok(Value::BuiltIn(BuiltIn::False)));
    assert_eq!(eval_named(&mut s, "e"), Ok(Value::Number(1)));
    assert_eq!(eval_named(&mut s, "g"), Ok(Value::Number(2)));
    assert_eq!(eval_named(&mut s, "h"), Ok(Value::Number(42)));
    assert_eq!(eval_named(&mut s, "j"), Ok(Value::Number(43)));
}

#[test]
fn test_combinator_identities() {
    let mut s = State::new();
    // i x == x
    load(&mut s, "a = ap i 42");
    // s add inc 1 == add 1 (inc 1) == 3
    load(&mut s, "b = ap ap ap s add inc 1");
    // c a b c':  c add 1 2 == add 2 1 == 3
    load(&mut s, "d = ap ap ap c add 1 2");
    // b inc inc 1 == inc (inc 1) == 3
    load(&mut s, "e = ap ap ap b inc inc 1");
    // a cons pair applied to a selector picks a field
    load(&mut s, "g = ap ap ap cons 1 2 t");
    load(&mut s, "h = ap ap ap cons 1 2 f");
    load(&mut s, "j = ap car ap ap cons 7 8");
    load(&mut s, "k = ap cdr ap ap cons 7 8");
    // nil applied to anything is t; isnil inspects for the nil builtin
    load(&mut s, "l = ap nil 99");
    load(&mut s, "m = ap isnil nil");
    load(&mut s, "n = ap isnil 4");
    assert_eq!(eval_named(&mut s, "a"), Ok(Value::Number(42)));
    assert_eq!(eval_named(&mut s, "b"), Ok(Value::Number(3)));
    assert_eq!(eval_named(&mut s, "d"), Ok(Value::Number(3)));
    assert_eq!(eval_named(&mut s, "e"), Ok(Value::Number(3)));
    assert_eq!(eval_named(&mut s, "g"), Ok(Value::Number(1)));
    assert_eq!(eval_named(&mut s, "h"), Ok(Value::Number(2)));
    assert_eq!(eval_named(&mut s, "j"), Ok(Value::Number(7)));
    assert_eq!(eval_named(&mut s, "k"), Ok(Value::Number(8)));
    assert_eq!(eval_named(&mut s, "l"), Ok(Value::BuiltIn(BuiltIn::True)));
    assert_eq!(eval_named(&mut s, "m"), Ok(Value::BuiltIn(BuiltIn::True)));
    assert_eq!(eval_named(&mut s, "n"), Ok(Value::BuiltIn(BuiltIn::False)));
}

#[test]
fn test_errors_are_reported() {
    let mut s = State::new();
    load(&mut s, "a = ap ap div 1 0");
    load(&mut s, "b = ap inc 9223372036854775807");
    load(&mut s, "c = ap inc nil");
    load(&mut s, "d = ap ap add 1 ap ap add 2 :77");
    assert_eq!(eval_named(&mut s, "a"), Err(Error::TypeMismatch));
    assert_eq!(eval_named(&mut s, "b"), Err(Error::NumericOverflow));
    assert_eq!(eval_named(&mut s, "c"), Err(Error::TypeMismatch));
    // :77 was never bound
    assert_eq!(eval_named(&mut s, "d"), Err(Error::UnboundVariable));
    assert_eq!(
        eval_named(&mut s, "nothing"),
        Err(Error::UnboundVariable)
    );
}

#[test]
fn test_unreducible_and_depth_errors() {
    let mut s = State::new();
    // `send` is the driver's concern, not the engine's: applying it
    // cannot be reduced
    let snd = Stmt {
        var: Var::Named("w".to_string()),
        code: vec![Token::Ap, Token::Send, Token::Nil],
    };
    s.interpret(snd).expect("must compile");
    assert_eq!(
        eval_named(&mut s, "w"),
        Err(Error::UnreducibleExpression)
    );

    // reading a nested value deeper than the depth budget fails
    let deep = NestedList::Cons(
        Box::new(NestedList::Number(1)),
        Box::new(NestedList::Cons(
            Box::new(NestedList::Number(2)),
            Box::new(NestedList::Nil),
        )),
    );
    let id = deep.into_value(&mut s);
    assert_eq!(
        NestedList::from_value(&mut s, id, STEPS, 1),
        Err(Error::DepthLimitExceeded)
    );
    assert_eq!(NestedList::from_value(&mut s, id, STEPS, 10), Ok(deep));
}

#[test]
fn test_step_budget() {
    let mut s = State::new();
    // a self-referential binding loops forever; the step budget stops it
    load(&mut s, ":1 = ap i :1");
    assert_eq!(
        s.eval(&Var::Temp(1), 1000),
        Err(Error::StepLimitExceeded)
    );
}

#[test]
fn test_memoization_counts_once() {
    let mut s = State::new();
    // :1 is shared by both operands of the addition; its increment must
    // be computed exactly once
    load(&mut s, ":1 = ap inc 1");
    load(&mut s, ":2 = ap ap add :1 :1");
    assert_eq!(s.eval(&Var::Temp(2), STEPS), Ok(Value::Number(4)));
    // one `inc` and one `add`
    assert_eq!(s.ops, 2);
    // a second evaluation is served from the memoized graph entirely
    assert_eq!(s.eval(&Var::Temp(2), STEPS), Ok(Value::Number(4)));
    assert_eq!(s.ops, 2);
}

#[test]
fn test_interact_builtin_local_round() {
    let mut s = State::new();
    // a protocol that always reports flag 0, new state 7, empty draw data
    load(&mut s, "p = ap t ap t ( 0 , 7 , nil )");
    // q = ap ap ap interact p 0 nil; its result is a pair whose head is
    // the new state (behind an identity application)
    let q = Stmt {
        var: Var::Named("q".to_string()),
        code: vec![
            Token::Ap,
            Token::Ap,
            Token::Ap,
            Token::Interact,
            Token::Var(Var::Named("p".to_string())),
            Token::Number(0),
            Token::Nil,
        ],
    };
    s.interpret(q).expect("must compile");
    let r = Stmt {
        var: Var::Named("r".to_string()),
        code: vec![Token::Ap, Token::Head, Token::Var(Var::Named("q".to_string()))],
    };
    s.interpret(r).expect("must compile");
    assert_eq!(eval_named(&mut s, "r"), Ok(Value::Number(7)));
}

#[test]
fn test_lazy_branches_are_not_forced() {
    let mut s = State::new();
    // the unselected branch would fail if it were forced
    load(&mut s, "a = ap ap t 7 ap ap div 1 0");
    load(&mut s, "b = ap ap f ap ap div 1 0 8");
    assert_eq!(eval_named(&mut s, "a"), Ok(Value::Number(7)));
    assert_eq!(eval_named(&mut s, "b"), Ok(Value::Number(8)));
}
