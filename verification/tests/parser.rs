use galaxy::syntax::{parse, parse_line, parse_picture, parse_test, Token, Var};

#[test]
fn test_parse_words_and_numbers() {
    let toks = parse("ap ap add 1 -2").expect("must parse");
    assert_eq!(
        toks,
        vec![
            Token::Ap,
            Token::Ap,
            Token::Add,
            Token::Number(1),
            Token::Number(-2)
        ]
    );
    let toks2 = parse("ap pwr2 :123").expect("must parse");
    assert_eq!(
        toks2,
        vec![Token::Ap, Token::Pwr2, Token::Var(Var::Temp(123))]
    );
    // the list sugar expands to cons applications and nil
    let toks3 = parse("( 1 , 2 )").expect("must parse");
    assert_eq!(
        toks3,
        vec![
            Token::Ap,
            Token::Ap,
            Token::Cons,
            Token::Number(1),
            Token::Ap,
            Token::Ap,
            Token::Cons,
            Token::Number(2),
            Token::Nil
        ]
    );
    // car and cdr are the head and tail builtins
    let toks4 = parse("ap car ap cdr nil").expect("must parse");
    assert_eq!(
        toks4,
        vec![Token::Ap, Token::Head, Token::Ap, Token::Tail, Token::Nil]
    );
    assert_eq!(parse("wat"), None);
    assert_eq!(parse("9223372036854775808"), None);
    assert_eq!(parse("-9223372036854775808").unwrap(), vec![Token::Number(i64::MIN)]);
    assert_eq!(parse(":"), None);
}

#[test]
fn test_parse_line_variants() {
    let stmt = parse_line(":1338 = ap ap cons 0 nil").expect("must parse");
    assert_eq!(stmt.var, Var::Temp(1338));
    assert_eq!(
        stmt.code,
        vec![
            Token::Ap,
            Token::Ap,
            Token::Cons,
            Token::Number(0),
            Token::Nil
        ]
    );
    let stmt2 = parse_line("galaxy = :1338").expect("must parse");
    assert_eq!(stmt2.var, Var::Named("galaxy".to_string()));
    assert_eq!(stmt2.code, vec![Token::Var(Var::Temp(1338))]);
    // no separator, or a word that is not a token
    assert!(parse_line("galaxy").is_none());
    assert!(parse_line("x = frobnicate").is_none());
}

#[test]
fn test_parse_test_and_picture_lines() {
    let (expr, expected) = parse_test("ap ap add 1 2 == 3").expect("must parse");
    assert_eq!(expr.var, Var::Named("expr".to_string()));
    assert_eq!(
        expr.code,
        vec![
            Token::Ap,
            Token::Ap,
            Token::Add,
            Token::Number(1),
            Token::Number(2)
        ]
    );
    assert_eq!(expected.var, Var::Named("expected".to_string()));
    assert_eq!(expected.code, vec![Token::Number(3)]);
    assert!(parse_test("ap ap add 1 2").is_none());

    let pic = parse_picture("ap car nil == whatever").expect("must parse");
    assert_eq!(pic.var, Var::Named("picture".to_string()));
    assert_eq!(pic.code, vec![Token::Ap, Token::Head, Token::Nil]);
}
