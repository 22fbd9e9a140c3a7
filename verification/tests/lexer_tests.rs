use nix_expr::chars::{CharType, InvalidTokenError};
use nix_expr::lexer::Lexer;
use nix_expr::tokens::{
    AdditiveOperator, ArithmComparison, LexError, LogicalComparison, MultiplicativeOperator,
    TokenType,
};

#[test]
fn token_try_from_char() {
    let test_cases: Vec<(char, CharType)> = vec![
        ('=', CharType::Equals),
        ('+', CharType::Plus),
        ('-', CharType::Minus),
        ('(', CharType::OpenParen),
        (')', CharType::CloseParen),
        ('{', CharType::OpenBrace),
        ('}', CharType::CloseBrace),
        (',', CharType::Comma),
        (';', CharType::Semicolon),
        ('[', CharType::OpenSquare),
        (']', CharType::CloseSquare),
        (',', CharType::Comma),
        ('A', CharType::Char),
        ('h', CharType::Char),
        (' ', CharType::Whitespace),
        ('@', CharType::At),
    ];

    for (input, want) in test_cases {
        let got = CharType::try_from(input).unwrap();
        assert_eq!(got, want)
    }
}

#[test]
fn invalid_token_try_from_char() {
    let test_cases: Vec<(char, InvalidTokenError)> = vec![('н', InvalidTokenError::new('н'))];

    for (input, want_error) in test_cases.iter() {
        let got = CharType::try_from(*input);
        match got {
            Ok(_) => {
                panic!("Expected error but got Ok instead")
            }
            Err(got_error) => assert_eq!(got_error, *want_error),
        }
    }
}

#[test]
fn tokenize_correct_str() {
    let test_cases: Vec<(&str, Vec<TokenType>)> = vec![
        (
            "# comment = 10;
                mine =-15
                 #; other comment",
            vec![
                TokenType::Ident("mine".to_string()),
                TokenType::Assign,
                TokenType::ArithmNegation,
                TokenType::Int(15),
            ],
        ),
        (
            "var-with-hyphens = 1",
            vec![
                TokenType::Ident("var-with-hyphens".to_string()),
                TokenType::Assign,
                TokenType::Int(1),
            ],
        ),
        (
            "xyz = 10;",
            vec![
                TokenType::Ident("xyz".to_string()),
                TokenType::Assign,
                TokenType::Int(10),
                TokenType::Semicolon,
            ],
        ),
        (
            "hello=155+34.8;",
            vec![
                TokenType::Ident("hello".to_string()),
                TokenType::Assign,
                TokenType::Int(155),
                TokenType::AdditiveOperator(AdditiveOperator::Add),
                TokenType::Flo("34.8".to_string()),
                TokenType::Semicolon,
            ],
        ),
        (
            "\"string that exists\"",
            vec![TokenType::StrLiteral("string that exists".to_string())],
        ),
        ("\"\"", vec![TokenType::StrLiteral("".to_string())]),
        (
            "value = \"something\";",
            vec![
                TokenType::Ident("value".to_string()),
                TokenType::Assign,
                TokenType::StrLiteral("something".to_string()),
                TokenType::Semicolon,
            ],
        ),
        (
            "''
                    I can't not use ', so sad
                '';",
            vec![
                TokenType::StrLiteral(
                    "
                    I can't not use ', so sad
                "
                    .to_string(),
                ),
                TokenType::Semicolon,
            ],
        ),
        (
            "bashScript = ''
                    #!/usr/bin/env bash
                    # This is a simple Bash script that greets the user

                    # Prompt the user for their name
                    echo \"What's your name?\"
                    read name

                    # Print a greeting message
                    echo \"Hello, $name! Welcome to the Bash scripting world.\"

                    # End of the script
                '';",
            vec![
                TokenType::Ident("bashScript".to_string()),
                TokenType::Assign,
                TokenType::StrLiteral(
                    "
                    #!/usr/bin/env bash
                    # This is a simple Bash script that greets the user

                    # Prompt the user for their name
                    echo \"What's your name?\"
                    read name

                    # Print a greeting message
                    echo \"Hello, $name! Welcome to the Bash scripting world.\"

                    # End of the script
                "
                    .to_string(),
                ),
                TokenType::Semicolon,
            ],
        ),
    ];

    for (input, want) in test_cases {
        let lexer = Lexer::new(input);
        let got = lexer.tokenize().unwrap();
        assert_eq!(got, want);
    }
}

#[test]
fn tokenize_path() {
    let test_cases: Vec<(&str, Vec<TokenType>)> = vec![
        (
            "./Cargo.toml",
            vec![TokenType::Path("./Cargo.toml".to_string())],
        ),
        (
            "myPath=./Cargo.toml",
            vec![
                TokenType::Ident("myPath".to_string()),
                TokenType::Assign,
                TokenType::Path("./Cargo.toml".to_string()),
            ],
        ),
        (
            "homePath=~/Music",
            vec![
                TokenType::Ident("homePath".to_string()),
                TokenType::Assign,
                TokenType::Path("~/Music".to_string()),
            ],
        ),
        (
            "absolutePath=/etc/nixos",
            vec![
                TokenType::Ident("absolutePath".to_string()),
                TokenType::Assign,
                TokenType::Path("/etc/nixos".to_string()),
            ],
        ),
        (
            "nixPath=<nixpkgs>",
            vec![
                TokenType::Ident("nixPath".to_string()),
                TokenType::Assign,
                TokenType::NixPath("<nixpkgs>".to_string()),
            ],
        ),
    ];

    for (input, want) in test_cases {
        let lexer = Lexer::new(input);
        let got = lexer.tokenize().unwrap();
        assert_eq!(got, want);
    }
}

#[test]
fn tokenize_operators() {
    let test_cases: Vec<(&str, Vec<TokenType>)> = vec![
        (
            "5 <1.1",
            vec![
                TokenType::Int(5),
                TokenType::ArithmComparison(ArithmComparison::Less),
                TokenType::Flo("1.1".to_string()),
            ],
        ),
        (
            "5.1>1.1",
            vec![
                TokenType::Flo("5.1".to_string()),
                TokenType::ArithmComparison(ArithmComparison::More),
                TokenType::Flo("1.1".to_string()),
            ],
        ),
        (
            "5.1<=1.1",
            vec![
                TokenType::Flo("5.1".to_string()),
                TokenType::ArithmComparison(ArithmComparison::LessOrEquals),
                TokenType::Flo("1.1".to_string()),
            ],
        ),
        (
            "5.1>=1.1",
            vec![
                TokenType::Flo("5.1".to_string()),
                TokenType::ArithmComparison(ArithmComparison::MoreOrEquals),
                TokenType::Flo("1.1".to_string()),
            ],
        ),
        (
            "war!=peace",
            vec![
                TokenType::Ident("war".to_string()),
                TokenType::LogicalComparison(LogicalComparison::CompareNotEquals),
                TokenType::Ident("peace".to_string()),
            ],
        ),
        (
            "\"foo\"==\"foo\"",
            vec![
                TokenType::StrLiteral("foo".to_string()),
                TokenType::LogicalComparison(LogicalComparison::CompareEquals),
                TokenType::StrLiteral("foo".to_string()),
            ],
        ),
        (
            "itWont++workInRealCode",
            vec![
                TokenType::Ident("itWont".to_string()),
                TokenType::Concat,
                TokenType::Ident("workInRealCode".to_string()),
            ],
        ),
        (
            "15.14 / 18",
            vec![
                TokenType::Flo("15.14".to_string()),
                TokenType::MultiplicativeOperator(MultiplicativeOperator::Div),
                TokenType::Int(18),
            ],
        ),
        (
            "3 *5.15",
            vec![
                TokenType::Int(3),
                TokenType::MultiplicativeOperator(MultiplicativeOperator::Mult),
                TokenType::Flo("5.15".to_string()),
            ],
        ),
    ];

    for (input, want) in test_cases {
        let lexer = Lexer::new(input);
        let got = lexer.tokenize().unwrap();
        assert_eq!(got, want);
    }
}

#[test]
fn try_tokenize_no_closing_squote() {
    let test_cases: Vec<&str> = vec![
        "bashScript = ''
                    #!/usr/bin/env bash
                    # This is a simple Bash script that greets the user

                    # Prompt the user for their name
                    echo \"What's your name?\"
                    read name

                    # Print a greeting message
                    echo \"Hello, $name! Welcome to the Bash scripting world.\"

                    # End of the script
                ;",
    ];

    for input in test_cases {
        let lexer = Lexer::new(input);
        assert_eq!(
            lexer.tokenize(),
            Err(LexError::UnterminatedIndentedString)
        );
    }
}

#[test]
fn try_tokenize_no_closing_dquote() {
    let test_cases: Vec<&str> = vec!["\"Oops forgot to close this one!", "weirdness = \""];

    for input in test_cases {
        let lexer = Lexer::new(input);
        assert_eq!(lexer.tokenize(), Err(LexError::UnterminatedString));
    }
}

#[test]
fn tokenize_is_deterministic_and_idempotent() {
    let inputs = vec!["xyz = 10;", "let x = \"foo\"; in x", "5.1<=1.1", ""];
    for input in inputs {
        let lexer = Lexer::new(input);
        let first = lexer.tokenize();
        let second = lexer.tokenize();
        assert_eq!(first, second);
        let other = Lexer::new(input);
        assert_eq!(other.tokenize(), first);
    }
}

#[test]
fn digit_runs_lex_to_int_or_flo() {
    let lexer = Lexer::new("2147483647");
    assert_eq!(lexer.tokenize().unwrap(), vec![TokenType::Int(2147483647)]);

    let lexer = Lexer::new("2147483648");
    assert_eq!(
        lexer.tokenize().unwrap(),
        vec![TokenType::Flo("2147483648".to_string())]
    );

    let lexer = Lexer::new("12.");
    assert_eq!(
        lexer.tokenize().unwrap(),
        vec![TokenType::Flo("12.".to_string())]
    );

    let lexer = Lexer::new("1.2.3");
    assert_eq!(lexer.tokenize(), Err(LexError::MalformedNumber));
}

#[test]
fn keywords_lex_to_dedicated_tokens() {
    let cases: Vec<(&str, TokenType)> = vec![
        ("let", TokenType::Let),
        ("in", TokenType::In),
        ("inherit", TokenType::Inherit),
        ("import", TokenType::Import),
        ("with", TokenType::With),
        ("map", TokenType::MapKw),
        ("null", TokenType::Null),
        ("true", TokenType::Bool(true)),
        ("false", TokenType::Bool(false)),
        ("if", TokenType::If),
        ("then", TokenType::Then),
        ("else", TokenType::Else),
        ("rec", TokenType::Rec),
    ];
    for (input, want) in cases {
        let lexer = Lexer::new(input);
        assert_eq!(lexer.tokenize().unwrap(), vec![want]);
    }
    // A near-keyword stays an identifier.
    let lexer = Lexer::new("lets");
    assert_eq!(
        lexer.tokenize().unwrap(),
        vec![TokenType::Ident("lets".to_string())]
    );
}

#[test]
fn operator_disambiguation() {
    let lexer = Lexer::new("+");
    assert_eq!(
        lexer.tokenize().unwrap(),
        vec![TokenType::AdditiveOperator(AdditiveOperator::Add)]
    );

    let lexer = Lexer::new("++");
    assert_eq!(lexer.tokenize().unwrap(), vec![TokenType::Concat]);

    // `-` after an identifier or numeric literal is subtraction.
    let lexer = Lexer::new("a - 1");
    assert_eq!(
        lexer.tokenize().unwrap(),
        vec![
            TokenType::Ident("a".to_string()),
            TokenType::AdditiveOperator(AdditiveOperator::Sub),
            TokenType::Int(1),
        ]
    );
    let lexer = Lexer::new("1.5 -1");
    assert_eq!(
        lexer.tokenize().unwrap(),
        vec![
            TokenType::Flo("1.5".to_string()),
            TokenType::AdditiveOperator(AdditiveOperator::Sub),
            TokenType::Int(1),
        ]
    );

    // Elsewhere it is a unary arithmetic negation.
    let lexer = Lexer::new("-5");
    assert_eq!(
        lexer.tokenize().unwrap(),
        vec![TokenType::ArithmNegation, TokenType::Int(5)]
    );
    let lexer = Lexer::new(") -5");
    assert_eq!(
        lexer.tokenize().unwrap(),
        vec![
            TokenType::CloseParen,
            TokenType::ArithmNegation,
            TokenType::Int(5),
        ]
    );

    let lexer = Lexer::new("=");
    assert_eq!(lexer.tokenize().unwrap(), vec![TokenType::Assign]);
    let lexer = Lexer::new("==");
    assert_eq!(
        lexer.tokenize().unwrap(),
        vec![TokenType::LogicalComparison(LogicalComparison::CompareEquals)]
    );
    let lexer = Lexer::new("!");
    assert_eq!(lexer.tokenize().unwrap(), vec![TokenType::LogicalNegation]);
    let lexer = Lexer::new("!=");
    assert_eq!(
        lexer.tokenize().unwrap(),
        vec![TokenType::LogicalComparison(
            LogicalComparison::CompareNotEquals
        )]
    );

    let lexer = Lexer::new("<nixpkgs>");
    assert_eq!(
        lexer.tokenize().unwrap(),
        vec![TokenType::NixPath("<nixpkgs>".to_string())]
    );
    let lexer = Lexer::new("/etc/nixos");
    assert_eq!(
        lexer.tokenize().unwrap(),
        vec![TokenType::Path("/etc/nixos".to_string())]
    );
}

#[test]
fn lexical_error_variants() {
    let lexer = Lexer::new("н");
    assert_eq!(lexer.tokenize(), Err(LexError::InvalidChar('н')));

    let lexer = Lexer::new("a, b");
    assert_eq!(lexer.tokenize(), Err(LexError::UnsupportedChar(',')));

    let lexer = Lexer::new("~x");
    assert_eq!(lexer.tokenize(), Err(LexError::UnsupportedChar('~')));

    let lexer = Lexer::new("'x");
    assert_eq!(lexer.tokenize(), Err(LexError::MissingSecondQuote));
}
