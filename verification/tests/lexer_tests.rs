use lexer::lexer::Lexer;
use lexer::token::Token;

#[test]
fn it_works() {
    let input = "let five = 5;
            let ten = 10;

            let add = fn(x, y) {
                x + y;
            };

            let result = add(five, ten);
            !-/*5;
            5 < 10 > 5;

            if (5 < 10) {
                return true;
            } else {
                return false;
            }

            10 != 9;
            10 == 10;
            ";

    let parsed_correctly = vec![
        Token::Let,
        Token::Ident("five"),
        Token::Assign,
        Token::Int(5),
        Token::Semicolon,
        Token::Let,
        Token::Ident("ten"),
        Token::Assign,
        Token::Int(10),
        Token::Semicolon,
        Token::Let,
        Token::Ident("add"),
        Token::Assign,
        Token::Function,
        Token::LParen,
        Token::Ident("x"),
        Token::Comma,
        Token::Ident("y"),
        Token::RParen,
        Token::LBrace,
        Token::Ident("x"),
        Token::Plus,
        Token::Ident("y"),
        Token::Semicolon,
        Token::RBrace,
        Token::Semicolon,
        Token::Let,
        Token::Ident("result"),
        Token::Assign,
        Token::Ident("add"),
        Token::LParen,
        Token::Ident("five"),
        Token::Comma,
        Token::Ident("ten"),
        Token::RParen,
        Token::Semicolon,
        Token::Bang,
        Token::Minus,
        Token::Slash,
        Token::Asterisk,
        Token::Int(5),
        Token::Semicolon,
        Token::Int(5),
        Token::LT,
        Token::Int(10),
        Token::GT,
        Token::Int(5),
        Token::Semicolon,
        Token::If,
        Token::LParen,
        Token::Int(5),
        Token::LT,
        Token::Int(10),
        Token::RParen,
        Token::LBrace,
        Token::Return,
        Token::True,
        Token::Semicolon,
        Token::RBrace,
        Token::Else,
        Token::LBrace,
        Token::Return,
        Token::False,
        Token::Semicolon,
        Token::RBrace,
        Token::Int(10),
        Token::NotEq,
        Token::Int(9),
        Token::Semicolon,
        Token::Int(10),
        Token::Eq,
        Token::Int(10),
        Token::Semicolon,
        Token::EOF,
    ];

    let mut lexer = Lexer::new(input);

    for expected_token in parsed_correctly.into_iter() {
        let token = lexer.next_token();
        println!("{:?} é igual a {:?}", token, expected_token);
        assert_eq!(token, expected_token)
    }
}

fn all_tokens(input: &str) -> Vec<Token<'_>> {
    let mut lexer = Lexer::new(input);
    let mut out = Vec::new();
    loop {
        let token = lexer.next_token();
        let done = token == Token::EOF;
        out.push(token);
        if done {
            return out;
        }
    }
}

#[test]
fn scenario_let_statement() {
    assert_eq!(
        all_tokens("let five = 5;"),
        vec![
            Token::Let,
            Token::Ident("five"),
            Token::Assign,
            Token::Int(5),
            Token::Semicolon,
            Token::EOF,
        ]
    );
}

#[test]
fn scenario_not_eq() {
    assert_eq!(
        all_tokens("10 != 9;"),
        vec![Token::Int(10), Token::NotEq, Token::Int(9), Token::Semicolon, Token::EOF]
    );
}

#[test]
fn scenario_comparisons() {
    assert_eq!(
        all_tokens("5 < 10 > 5;"),
        vec![
            Token::Int(5),
            Token::LT,
            Token::Int(10),
            Token::GT,
            Token::Int(5),
            Token::Semicolon,
            Token::EOF,
        ]
    );
}

#[test]
fn whitespace_only_input() {
    assert_eq!(all_tokens("   \n\t "), vec![Token::EOF]);
}

#[test]
fn empty_input() {
    assert_eq!(all_tokens(""), vec![Token::EOF]);
}

#[test]
fn illegal_character() {
    assert_eq!(all_tokens("@"), vec![Token::Illegal, Token::EOF]);
}

#[test]
fn illegal_character_then_scan_goes_on() {
    assert_eq!(
        all_tokens("@5;"),
        vec![Token::Illegal, Token::Int(5), Token::Semicolon, Token::EOF]
    );
}

#[test]
fn eof_is_idempotent() {
    let mut lexer = Lexer::new("x");
    assert_eq!(lexer.next_token(), Token::Ident("x"));
    for _ in 0..5 {
        assert_eq!(lexer.next_token(), Token::EOF);
    }
}

#[test]
fn every_keyword_spelling() {
    assert_eq!(
        all_tokens("fn let true false if else return"),
        vec![
            Token::Function,
            Token::Let,
            Token::True,
            Token::False,
            Token::If,
            Token::Else,
            Token::Return,
            Token::EOF,
        ]
    );
}

#[test]
fn near_keywords_are_identifiers() {
    assert_eq!(
        all_tokens("fnx lets truthy iff elser returns"),
        vec![
            Token::Ident("fnx"),
            Token::Ident("lets"),
            Token::Ident("truthy"),
            Token::Ident("iff"),
            Token::Ident("elser"),
            Token::Ident("returns"),
            Token::EOF,
        ]
    );
}

#[test]
fn underscores_continue_a_word_but_cannot_start_one() {
    assert_eq!(all_tokens("foo_bar"), vec![Token::Ident("foo_bar"), Token::EOF]);
    assert_eq!(all_tokens("_x"), vec![Token::Illegal, Token::Ident("x"), Token::EOF]);
}

#[test]
fn word_runs_are_maximal() {
    assert_eq!(all_tokens("letx"), vec![Token::Ident("letx"), Token::EOF]);
    assert_eq!(
        all_tokens("let5"),
        vec![Token::Let, Token::Int(5), Token::EOF]
    );
}

#[test]
fn non_ascii_letters_form_identifiers() {
    assert_eq!(all_tokens("é"), vec![Token::Ident("é"), Token::EOF]);
}

#[test]
fn two_char_tiebreak() {
    assert_eq!(
        all_tokens("<= >= == != < > ! ="),
        vec![
            Token::LTE,
            Token::GTE,
            Token::Eq,
            Token::NotEq,
            Token::LT,
            Token::GT,
            Token::Bang,
            Token::Assign,
            Token::EOF,
        ]
    );
    assert_eq!(all_tokens("<5"), vec![Token::LT, Token::Int(5), Token::EOF]);
    assert_eq!(all_tokens("=!"), vec![Token::Assign, Token::Bang, Token::EOF]);
    assert_eq!(all_tokens("!="), vec![Token::NotEq, Token::EOF]);
}

#[test]
fn int_literal_round_trip() {
    assert_eq!(all_tokens("0"), vec![Token::Int(0), Token::EOF]);
    assert_eq!(all_tokens("42"), vec![Token::Int(42), Token::EOF]);
    assert_eq!(all_tokens("007"), vec![Token::Int(7), Token::EOF]);
    assert_eq!(
        all_tokens("9223372036854775807"),
        vec![Token::Int(9223372036854775807), Token::EOF]
    );
}

#[test]
fn int_literal_overflow_is_illegal() {
    assert_eq!(all_tokens("9223372036854775808"), vec![Token::Illegal, Token::EOF]);
    assert_eq!(
        all_tokens("99999999999999999999 7"),
        vec![Token::Illegal, Token::Int(7), Token::EOF]
    );
}

#[test]
fn tokenize_agrees_with_pulling_tokens() {
    let input = "let a = add(1, 2) >= 3;";
    assert_eq!(Lexer::tokenize(input), all_tokens(input));
}

#[test]
fn tokenize_is_deterministic() {
    let input = "if (x != 10) { return true; } @";
    let first = Lexer::tokenize(input);
    let second = Lexer::tokenize(input);
    assert_eq!(first, second);
}

#[test]
fn token_count_is_bounded_by_input_length() {
    for input in ["", "   ", "let five = 5;", "@@@@", "a b c"] {
        let n = Lexer::tokenize(input).len();
        assert!(1 <= n && n <= input.chars().count() + 1);
    }
}
