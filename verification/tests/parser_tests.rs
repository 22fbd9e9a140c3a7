use nix_expr::ast::{Expr, IdentExpr};
use nix_expr::lexer::{Lexer, TokenStreamErrors, UnexpectedTokenError};
use nix_expr::parser::AstParser;
use nix_expr::tokens::{
    AdditiveOperator, ArithmComparison, LogicalComparison, MultiplicativeOperator, TokenType,
};

#[test]
fn parse_valid_binary_statements() {
    let test_cases: Vec<(Vec<TokenType>, Expr)> = vec![
        (
            vec![
                TokenType::Int(4),
                TokenType::AdditiveOperator(AdditiveOperator::Add),
                TokenType::Flo("3.45".to_string()),
            ],
            Expr::new_add(Expr::new_int(4), Expr::new_flo("3.45")),
        ),
        (
            vec![
                TokenType::Int(4),
                TokenType::AdditiveOperator(AdditiveOperator::Sub),
                TokenType::Flo("3.45".to_string()),
                TokenType::AdditiveOperator(AdditiveOperator::Sub),
                TokenType::Int(1),
            ],
            Expr::new_sub(
                Expr::new_sub(Expr::new_int(4), Expr::new_flo("3.45")),
                Expr::new_int(1),
            ),
        ),
        (
            vec![
                TokenType::Int(4),
                TokenType::AdditiveOperator(AdditiveOperator::Sub),
                TokenType::Flo("3.45".to_string()),
                TokenType::AdditiveOperator(AdditiveOperator::Sub),
                TokenType::Int(1),
                TokenType::LogicalComparison(LogicalComparison::CompareEquals),
                TokenType::Int(5),
            ],
            Expr::new_compare_equals(
                Expr::new_sub(
                    Expr::new_sub(Expr::new_int(4), Expr::new_flo("3.45")),
                    Expr::new_int(1),
                ),
                Expr::new_int(5),
            ),
        ),
    ];

    for (input, want) in test_cases {
        let mut parser = AstParser::new(input);
        let got = parser.parse().unwrap();
        assert_eq!(got, want);
    }
}

#[test]
fn parse_valid_let_statements() {
    let test1 = vec![
        (IdentExpr::new("x"), Expr::new_str("foo")),
        (IdentExpr::new("y"), Expr::new_str("bar")),
    ];

    let test2 = vec![(IdentExpr::new("newFlo"), Expr::new_flo("0.5"))];
    let test2_set = vec![
        (
            "hey".to_string(),
            Expr::new_add(Expr::new_ident("newFlo"), Expr::new_flo("1.5")),
        ),
        (
            "myList".to_string(),
            Expr::new_list(vec![Expr::new_str("elem1"), Expr::new_str("elem2")]),
        ),
    ];

    let test_cases: Vec<(Vec<TokenType>, Expr)> = vec![
        (
            vec![
                TokenType::Let,
                TokenType::Ident("x".to_string()),
                TokenType::Assign,
                TokenType::StrLiteral("foo".to_string()),
                TokenType::Semicolon,
                TokenType::Ident("y".to_string()),
                TokenType::Assign,
                TokenType::StrLiteral("bar".to_string()),
                TokenType::Semicolon,
                TokenType::In,
                TokenType::Ident("x".to_string()),
                TokenType::AdditiveOperator(AdditiveOperator::Add),
                TokenType::Ident("y".to_string()),
            ],
            Expr::new_let(
                test1,
                Expr::new_add(Expr::new_ident("x"), Expr::new_ident("y")),
            ),
        ),
        (
            vec![
                TokenType::Let,
                TokenType::Ident("newFlo".to_string()),
                TokenType::Assign,
                TokenType::Flo("0.5".to_string()),
                TokenType::Semicolon,
                TokenType::In,
                TokenType::OpenBrace,
                TokenType::Ident("hey".to_string()),
                TokenType::Assign,
                TokenType::Ident("newFlo".to_string()),
                TokenType::AdditiveOperator(AdditiveOperator::Add),
                TokenType::Flo("1.5".to_string()),
                TokenType::Semicolon,
                TokenType::Ident("myList".to_string()),
                TokenType::Assign,
                TokenType::OpenSquare,
                TokenType::StrLiteral("elem1".to_string()),
                TokenType::StrLiteral("elem2".to_string()),
                TokenType::CloseSquare,
                TokenType::Semicolon,
                TokenType::CloseBrace,
            ],
            Expr::new_let(test2, Expr::new_set(test2_set)),
        ),
    ];

    for (input, want) in test_cases {
        let mut parser = AstParser::new(input);
        let got = parser.parse().unwrap();
        assert_eq!(got, want);
    }
}

#[test]
fn parse_valid_with_statements() {
    let test_cases: Vec<(Vec<TokenType>, Expr)> = vec![(
        vec![
            TokenType::With,
            TokenType::Ident("pkgs".to_string()),
            TokenType::Semicolon,
            TokenType::OpenSquare,
            TokenType::Ident("git".to_string()),
            TokenType::CloseSquare,
        ],
        Expr::new_with(
            Expr::new_ident("pkgs"),
            Expr::new_list(vec![Expr::new_ident("git")]),
        ),
    )];

    for (input, want) in test_cases {
        let mut parser = AstParser::new(input);
        let got = parser.parse().unwrap();
        assert_eq!(got, want);
    }
}

#[test]
fn parse_valid_if_statements() {
    let test_cases: Vec<(Vec<TokenType>, Expr)> = vec![(
        vec![
            TokenType::If,
            TokenType::Int(1),
            TokenType::AdditiveOperator(AdditiveOperator::Add),
            TokenType::Int(1),
            TokenType::LogicalComparison(LogicalComparison::CompareEquals),
            TokenType::Int(2),
            TokenType::Then,
            TokenType::StrLiteral("yes!".to_string()),
            TokenType::Else,
            TokenType::StrLiteral("no...".to_string()),
        ],
        Expr::new_if(
            Expr::new_compare_equals(
                Expr::new_add(Expr::new_int(1), Expr::new_int(1)),
                Expr::new_int(2),
            ),
            Expr::new_str("yes!"),
            Expr::new_str("no..."),
        ),
    )];

    for (input, want) in test_cases {
        let mut parser = AstParser::new(input);
        let got = parser.parse().unwrap();
        assert_eq!(got, want);
    }
}

#[test]
fn parse_valid_sets_statements() {
    let test_cases: Vec<(Vec<TokenType>, Expr)> = vec![];

    for (input, want) in test_cases {
        let mut parser = AstParser::new(input);
        let got = parser.parse().unwrap();
        assert_eq!(got, want);
    }
}

#[test]
fn parse_set_with_duplicate_key_overwrites() {
    // { a = 1; b = 2; a = 3; } keeps insertion order and overwrites `a`.
    let toks = vec![
        TokenType::OpenBrace,
        TokenType::Ident("a".to_string()),
        TokenType::Assign,
        TokenType::Int(1),
        TokenType::Semicolon,
        TokenType::Ident("b".to_string()),
        TokenType::Assign,
        TokenType::Int(2),
        TokenType::Semicolon,
        TokenType::Ident("a".to_string()),
        TokenType::Assign,
        TokenType::Int(3),
        TokenType::Semicolon,
        TokenType::CloseBrace,
    ];
    let mut parser = AstParser::new(toks);
    let got = parser.parse().unwrap();
    let want = Expr::new_set(vec![
        ("a".to_string(), Expr::new_int(3)),
        ("b".to_string(), Expr::new_int(2)),
    ]);
    assert_eq!(got, want);
}

#[test]
fn parse_end_to_end_from_source() {
    // "4 - 3.45 - 1" nests left; "1+1==2" binds the comparison loosest.
    let lexer = Lexer::new("4 - 3.45 - 1");
    let mut parser = AstParser::new(lexer.tokenize().unwrap());
    assert_eq!(
        parser.parse().unwrap(),
        Expr::new_sub(
            Expr::new_sub(Expr::new_int(4), Expr::new_flo("3.45")),
            Expr::new_int(1),
        )
    );

    let lexer = Lexer::new("1+1==2");
    let mut parser = AstParser::new(lexer.tokenize().unwrap());
    assert_eq!(
        parser.parse().unwrap(),
        Expr::new_compare_equals(
            Expr::new_add(Expr::new_int(1), Expr::new_int(1)),
            Expr::new_int(2),
        )
    );

    let lexer = Lexer::new("let x = \"foo\"; y = \"bar\"; in x + y");
    let mut parser = AstParser::new(lexer.tokenize().unwrap());
    assert_eq!(
        parser.parse().unwrap(),
        Expr::new_let(
            vec![
                (IdentExpr::new("x"), Expr::new_str("foo")),
                (IdentExpr::new("y"), Expr::new_str("bar")),
            ],
            Expr::new_add(Expr::new_ident("x"), Expr::new_ident("y")),
        )
    );

    let lexer = Lexer::new("if 1+1==2 then \"yes!\" else \"no...\"");
    let mut parser = AstParser::new(lexer.tokenize().unwrap());
    assert_eq!(
        parser.parse().unwrap(),
        Expr::new_if(
            Expr::new_compare_equals(
                Expr::new_add(Expr::new_int(1), Expr::new_int(1)),
                Expr::new_int(2),
            ),
            Expr::new_str("yes!"),
            Expr::new_str("no..."),
        )
    );

    let lexer = Lexer::new("15.14 / 18");
    let mut parser = AstParser::new(lexer.tokenize().unwrap());
    assert_eq!(
        parser.parse().unwrap(),
        Expr::new_div(Expr::new_flo("15.14"), Expr::new_int(18))
    );
}

#[test]
fn parse_errors_name_expected_and_actual() {
    // A missing `then` names the expected token against the actual one.
    let toks = vec![TokenType::If, TokenType::Int(1), TokenType::Else];
    let mut parser = AstParser::new(toks);
    assert_eq!(
        parser.parse(),
        Err(TokenStreamErrors::UnexpectedToken(UnexpectedTokenError::new(
            &TokenType::Then,
            &TokenType::Else,
        )))
    );

    // A non-identifier after `.` is malformed.
    let toks = vec![
        TokenType::Ident("a".to_string()),
        TokenType::Access,
        TokenType::Int(3),
    ];
    let mut parser = AstParser::new(toks);
    assert_eq!(
        parser.parse(),
        Err(TokenStreamErrors::UnexpectedToken(UnexpectedTokenError::new(
            &TokenType::Ident(String::new()),
            &TokenType::Int(3),
        )))
    );

    // End of input where a term was expected.
    let toks = vec![TokenType::Int(1), TokenType::AdditiveOperator(AdditiveOperator::Add)];
    let mut parser = AstParser::new(toks);
    assert_eq!(parser.parse(), Err(TokenStreamErrors::UnexpectedEof));

    // An empty stream has no expression at all.
    let mut parser = AstParser::new(vec![]);
    assert_eq!(parser.parse(), Err(TokenStreamErrors::UnexpectedEof));

    // A missing closing parenthesis.
    let toks = vec![
        TokenType::OpenParen,
        TokenType::Int(1),
        TokenType::Semicolon,
    ];
    let mut parser = AstParser::new(toks);
    assert_eq!(
        parser.parse(),
        Err(TokenStreamErrors::UnexpectedToken(UnexpectedTokenError::new(
            &TokenType::CloseParen,
            &TokenType::Semicolon,
        )))
    );
}

#[test]
fn parse_multiplicative_and_unary_tiers() {
    let lexer = Lexer::new("3 *5.15");
    let mut parser = AstParser::new(lexer.tokenize().unwrap());
    assert_eq!(
        parser.parse().unwrap(),
        Expr::new_mult(Expr::new_int(3), Expr::new_flo("5.15"))
    );
    assert_eq!(
        MultiplicativeOperator::Mult,
        MultiplicativeOperator::Mult
    );
    assert_eq!(ArithmComparison::Less, ArithmComparison::Less);

    let lexer = Lexer::new("-5");
    let mut parser = AstParser::new(lexer.tokenize().unwrap());
    assert_eq!(
        parser.parse().unwrap(),
        Expr::new_arithmetic_negation(Expr::new_int(5))
    );

    let lexer = Lexer::new("!true");
    let mut parser = AstParser::new(lexer.tokenize().unwrap());
    assert_eq!(
        parser.parse().unwrap(),
        Expr::new_logical_negation(Expr::new_bool(true))
    );
}
