use ghsc::compiler::Compiler;
use ghsc::position::Position;
use ghsc::scanner::Scanner;
use ghsc::token::{Keyword, Kind, Mode, Token};

fn check_results(scanner: &mut Scanner, expected: Vec<Token>) {
    let mut i = 0;

    let mut token = scanner.next_token();
    while token.kind != Kind::Eof {
        assert_eq!(token, expected[i]);
        i = i + 1;

        token = scanner.next_token();
    }
    assert_eq!(token, expected[i]);

    assert_eq!(i + 1, expected.len());
}

fn scanner_for(file: &str, source: &str) -> Scanner {
    Scanner::new(Compiler::new_using_str(file.into(), source.into()))
}

fn kinds_of(source: &str) -> Vec<Kind> {
    let mut scanner = scanner_for("kinds", source);
    scanner.scan().into_iter().map(|t| t.kind).collect()
}

#[test]
fn next_token() {
    let source = "let x = 12_000 12_000.50";

    let expected = vec![
        Token::new(Kind::Keyword(Keyword::Let), "next token scanning test".into(), Position::new(1, 1)),
        Token::new(Kind::Tag("x".into()), "next token scanning test".into(), Position::new(1, 5)),
        Token::new(Kind::Assign, "next token scanning test".into(), Position::new(1, 7)),
        Token::new(Kind::Integer("12_000".into()), "next token scanning test".into(), Position::new(1, 9)),
        Token::new(Kind::Float("12_000.50".into()), "next token scanning test".into(), Position::new(1, 16)),
        Token::new(Kind::Eof, "next token scanning test".into(), Position::new(1, 25)),
    ];

    let mut scanner = scanner_for("next token scanning test", source);

    check_results(&mut scanner, expected);
}

#[test]
fn compound_op() {
    let source = "== != >= <= |> <| << <> >> ++ -- ** -> => .. ..= :=";
    let file = "compound operator scanning test";

    let expected = vec![
        Token::new(Kind::Equal, file.into(), Position::new(1, 1)),
        Token::new(Kind::NotEqual, file.into(), Position::new(1, 4)),
        Token::new(Kind::GreaterEq, file.into(), Position::new(1, 7)),
        Token::new(Kind::LesserEq, file.into(), Position::new(1, 10)),
        Token::new(Kind::ReverseApp, file.into(), Position::new(1, 13)),
        Token::new(Kind::ForwardApp, file.into(), Position::new(1, 16)),
        Token::new(Kind::LeftShift, file.into(), Position::new(1, 19)),
        Token::new(Kind::Concat, file.into(), Position::new(1, 22)),
        Token::new(Kind::RightShift, file.into(), Position::new(1, 25)),
        Token::new(Kind::Increment, file.into(), Position::new(1, 28)),
        Token::new(Kind::Decrement, file.into(), Position::new(1, 31)),
        Token::new(Kind::Power, file.into(), Position::new(1, 34)),
        Token::new(Kind::Arrow, file.into(), Position::new(1, 37)),
        Token::new(Kind::WideArrow, file.into(), Position::new(1, 40)),
        Token::new(Kind::RangeExc, file.into(), Position::new(1, 43)),
        Token::new(Kind::RangeInc, file.into(), Position::new(1, 46)),
        Token::new(Kind::AssignExp, file.into(), Position::new(1, 50)),
        Token::new(Kind::Eof, file.into(), Position::new(1, 52)),
    ];

    let mut scanner = scanner_for(file, source);

    check_results(&mut scanner, expected);
}

#[test]
fn string_reading() {
    let source = "let x = \"Hello, world!\"";
    let file = "string reading scanning test";

    let expected = vec![
        Token::new(Kind::Keyword(Keyword::Let), file.into(), Position::new(1, 1)),
        Token::new(Kind::Tag("x".into()), file.into(), Position::new(1, 5)),
        Token::new(Kind::Assign, file.into(), Position::new(1, 7)),
        Token::new(Kind::String("Hello, world!".into()), file.into(), Position::new(1, 9)),
        Token::new(Kind::Eof, file.into(), Position::new(1, 24)),
    ];

    let mut scanner = scanner_for(file, source);

    check_results(&mut scanner, expected);
}

#[test]
fn multiline_string_reading() {
    let source = "let x = \"|\n\
            | Hello, world!\n\
            |\"";
    let file = "multiline string scanning test";

    let expected = vec![
        Token::new(Kind::Keyword(Keyword::Let), file.into(), Position::new(1, 1)),
        Token::new(Kind::Tag("x".into()), file.into(), Position::new(1, 5)),
        Token::new(Kind::Assign, file.into(), Position::new(1, 7)),
        Token::new(Kind::String("\n Hello, world!\n".into()), file.into(), Position::new(1, 9)),
        Token::new(Kind::Eof, file.into(), Position::new(3, 3)),
    ];

    let mut scanner = scanner_for(file, source);

    check_results(&mut scanner, expected);

    let compiler = scanner.into_compiler();
    assert_eq!(compiler.errors.len(), 0);
}

#[test]
fn escape_characters() {
    let source = "let x = \"Hello, \\n\\sworld!\"";
    let file = "escape character scanning test";

    let expected = vec![
        Token::new(Kind::Keyword(Keyword::Let), file.into(), Position::new(1, 1)),
        Token::new(Kind::Tag("x".into()), file.into(), Position::new(1, 5)),
        Token::new(Kind::Assign, file.into(), Position::new(1, 7)),
        Token::new(Kind::String("Hello, \n\\sworld!".into()), file.into(), Position::new(1, 9)),
        Token::new(Kind::Eof, file.into(), Position::new(1, 28)),
    ];

    let mut scanner = scanner_for(file, source);

    check_results(&mut scanner, expected);

    let compiler = scanner.into_compiler();
    assert!(compiler.errors.len() == 1);
    let message: String = "Unrecognized escape character: \\s".into();
    assert!(compiler.errors[0].message() == &message);
}

#[test]
fn skip_single_comment() {
    let source = "let x = //12_000 12_000.50";
    let file = "single comment skip scanning test";

    let expected = vec![
        Token::new(Kind::Keyword(Keyword::Let), file.into(), Position::new(1, 1)),
        Token::new(Kind::Tag("x".into()), file.into(), Position::new(1, 5)),
        Token::new(Kind::Assign, file.into(), Position::new(1, 7)),
        Token::new(Kind::Eof, file.into(), Position::new(1, 27)),
    ];

    let mut scanner = scanner_for(file, source);

    check_results(&mut scanner, expected);
}

#[test]
fn skip_multi_comment() {
    let source = "let x = /*\n\
                      12_000 12_000.50\n\
                   */";
    let file = "multi comment skip scanning test";

    let expected = vec![
        Token::new(Kind::Keyword(Keyword::Let), file.into(), Position::new(1, 1)),
        Token::new(Kind::Tag("x".into()), file.into(), Position::new(1, 5)),
        Token::new(Kind::Assign, file.into(), Position::new(1, 7)),
        Token::new(Kind::Eof, file.into(), Position::new(3, 3)),
    ];

    let mut scanner = scanner_for(file, source);

    check_results(&mut scanner, expected);

    let compiler = scanner.into_compiler();
    assert_eq!(compiler.errors.len(), 0);
}

#[test]
fn eof_repeats_at_the_same_position() {
    let mut scanner = scanner_for("eof", "a ");
    assert_eq!(scanner.next_token().kind, Kind::Tag("a".into()));
    let first = scanner.next_token();
    assert_eq!(first.kind, Kind::Eof);
    assert_eq!(first.pos, Position::new(1, 3));
    for _ in 0..3 {
        let again = scanner.next_token();
        assert_eq!(again, first);
    }
    assert_eq!(scanner.into_compiler().errors.len(), 0);
}

#[test]
fn empty_text_is_eof() {
    let mut scanner = scanner_for("empty", "");
    let token = scanner.next_token();
    assert_eq!(token, Token::new(Kind::Eof, "empty".into(), Position::new(1, 1)));
    assert_eq!(scanner.next_token(), token);
}

#[test]
fn positions_never_go_back() {
    let mut scanner = scanner_for("order", "a\n  bb /* x\n y */ c\t\"s\"\n// z\n9");
    let tokens = scanner.scan();
    for pair in tokens.windows(2) {
        let (a, b) = (&pair[0].pos, &pair[1].pos);
        assert!(a.line < b.line || (a.line == b.line && a.column <= b.column));
    }
    assert_eq!(tokens.last().map(|t| t.kind.clone()), Some(Kind::Eof));
}

#[test]
fn range_takes_the_longest_match() {
    assert_eq!(kinds_of("..="), vec![Kind::RangeInc, Kind::Eof]);
    assert_eq!(kinds_of(".."), vec![Kind::RangeExc, Kind::Eof]);
    assert_eq!(kinds_of("."), vec![Kind::Dot, Kind::Eof]);
    assert_eq!(kinds_of("..=="), vec![Kind::RangeInc, Kind::Assign, Kind::Eof]);
}

#[test]
fn float_keeps_its_separators() {
    assert_eq!(kinds_of("12_000.50"), vec![Kind::Float("12_000.50".into()), Kind::Eof]);
    assert_eq!(kinds_of("7."), vec![Kind::Float("7.".into()), Kind::Eof]);
    assert_eq!(kinds_of("1_2"), vec![Kind::Integer("1_2".into()), Kind::Eof]);
}

#[test]
fn keywords_and_modes_before_tags() {
    assert_eq!(kinds_of("let"), vec![Kind::Keyword(Keyword::Let), Kind::Eof]);
    assert_eq!(kinds_of("mut"), vec![Kind::Mode(Mode::Mut), Kind::Eof]);
    assert_eq!(kinds_of("letx"), vec![Kind::Tag("letx".into()), Kind::Eof]);
    assert_eq!(kinds_of("as"), vec![Kind::Keyword(Keyword::As), Kind::Eof]);
    assert_eq!(kinds_of("comptime"), vec![Kind::Mode(Mode::Comptime), Kind::Eof]);
    assert_eq!(kinds_of("begin"), vec![Kind::Tag("begin".into()), Kind::Eof]);
}

#[test]
fn comments_give_no_tokens() {
    assert_eq!(kinds_of("// all of it"), vec![Kind::Eof]);
    assert_eq!(kinds_of("a /* b\n c */ d"), vec![Kind::Tag("a".into()), Kind::Tag("d".into()), Kind::Eof]);
    assert_eq!(kinds_of("a // b\nc"), vec![Kind::Tag("a".into()), Kind::Newline, Kind::Tag("c".into()), Kind::Eof]);
}

#[test]
fn unterminated_block_comment_is_reported_once() {
    let mut scanner = scanner_for("comment", "a /* b");
    let kinds: Vec<Kind> = scanner.scan().into_iter().map(|t| t.kind).collect();
    assert_eq!(kinds, vec![Kind::Tag("a".into()), Kind::Eof]);
    let compiler = scanner.into_compiler();
    assert_eq!(compiler.errors.len(), 1);
    assert_eq!(compiler.errors[0].message(), &String::from("Unterminated block comment"));
    assert_eq!(compiler.errors[0].category, String::from("Scanning error"));
    assert_eq!(compiler.errors[0].pos, Position::new(1, 7));
}

#[test]
fn unknown_character_is_illegal() {
    let mut scanner = scanner_for("illegal", "\r€a");
    let tokens = scanner.scan();
    let kinds: Vec<Kind> = tokens.iter().map(|t| t.kind.clone()).collect();
    assert_eq!(kinds, vec![Kind::Illegal, Kind::Illegal, Kind::Tag("a".into()), Kind::Eof]);
    assert_eq!(tokens[1].pos, Position::new(1, 2));
    assert_eq!(tokens[2].pos, Position::new(1, 3));
    assert_eq!(scanner.into_compiler().errors.len(), 0);
}

#[test]
fn newline_is_a_token() {
    let mut scanner = scanner_for("lines", "a\nb");
    let tokens = scanner.scan();
    assert_eq!(tokens[1], Token::new(Kind::Newline, "lines".into(), Position::new(1, 2)));
    assert_eq!(tokens[2], Token::new(Kind::Tag("b".into()), "lines".into(), Position::new(2, 1)));
}

#[test]
fn unterminated_string_is_reported() {
    let mut scanner = scanner_for("string", "\"abc");
    let tokens = scanner.scan();
    assert_eq!(tokens[0].kind, Kind::String("abc".into()));
    assert_eq!(tokens[1].kind, Kind::Eof);
    let compiler = scanner.into_compiler();
    assert_eq!(compiler.errors.len(), 1);
    assert_eq!(compiler.errors[0].message(), &String::from("Unterminated string literal"));
    assert_eq!(compiler.errors[0].pos, Position::new(1, 6));
}

#[test]
fn trailing_backslash_is_reported() {
    let mut scanner = scanner_for("escape", "\"ab\\");
    let tokens = scanner.scan();
    assert_eq!(tokens[0].kind, Kind::String("ab\\".into()));
    let compiler = scanner.into_compiler();
    assert_eq!(compiler.errors.len(), 2);
    assert_eq!(compiler.errors[0].message(), &String::from("Unterminated string literal"));
    assert_eq!(compiler.errors[1].message(), &String::from("Unterminated escape character"));
}

#[test]
fn missing_line_delimiter_is_reported() {
    let mut scanner = scanner_for("multiline", "\"|a\n  xb\n  |c|\"");
    let tokens = scanner.scan();
    assert_eq!(tokens[0].kind, Kind::String("a\n\nc|".into()));
    assert_eq!(tokens[1].kind, Kind::Eof);
    let compiler = scanner.into_compiler();
    assert_eq!(compiler.errors.len(), 1);
    assert_eq!(compiler.errors[0].message(), &String::from("Missing start of line delimiter '|'"));
    assert_eq!(compiler.errors[0].pos, Position::new(2, 3));
}

#[test]
fn single_symbols() {
    assert_eq!(
        kinds_of("= : > < - + * ! | ~ / % ( ) , ;"),
        vec![
            Kind::Assign,
            Kind::Colon,
            Kind::Greater,
            Kind::Lesser,
            Kind::Minus,
            Kind::Plus,
            Kind::Asterisk,
            Kind::Bang,
            Kind::Pipe,
            Kind::Tilde,
            Kind::Slash,
            Kind::Percent,
            Kind::LeftParen,
            Kind::RightParen,
            Kind::Comma,
            Kind::Semicolon,
            Kind::Eof,
        ]
    );
}

#[test]
fn escaped_quote_does_not_close_a_string() {
    let mut scanner = scanner_for("quote", "\"a\\\"b\" c");
    let tokens = scanner.scan();
    assert_eq!(tokens[0].kind, Kind::String("a\\\"b".into()));
    assert_eq!(tokens[1], Token::new(Kind::Tag("c".into()), "quote".into(), Position::new(1, 8)));
    assert_eq!(tokens[2].kind, Kind::Eof);
    let compiler = scanner.into_compiler();
    assert_eq!(compiler.errors.len(), 1);
    assert_eq!(compiler.errors[0].message(), &String::from("Unrecognized escape character: \\\""));
}

#[test]
fn block_comment_closes_after_its_opener() {
    let mut scanner = scanner_for("comment", "/*/");
    assert_eq!(scanner.next_token().kind, Kind::Eof);
    let compiler = scanner.into_compiler();
    assert_eq!(compiler.errors.len(), 1);
    assert_eq!(compiler.errors[0].message(), &String::from("Unterminated block comment"));

    let mut scanner = scanner_for("comment", "/*/ x */");
    assert_eq!(scanner.next_token(), Token::new(Kind::Eof, "comment".into(), Position::new(1, 9)));
    assert_eq!(scanner.into_compiler().errors.len(), 0);

    assert_eq!(kinds_of("/**/y"), vec![Kind::Tag("y".into()), Kind::Eof]);
}

#[test]
fn embedded_nul_is_illegal() {
    let mut scanner = scanner_for("nul", "a\0b");
    let tokens = scanner.scan();
    let kinds: Vec<Kind> = tokens.iter().map(|t| t.kind.clone()).collect();
    assert_eq!(kinds, vec![Kind::Tag("a".into()), Kind::Illegal, Kind::Tag("b".into()), Kind::Eof]);
    assert_eq!(tokens[3].pos, Position::new(1, 4));
    assert_eq!(scanner.into_compiler().errors.len(), 0);
}

#[test]
fn multiline_string_with_any_indentation() {
    let mut scanner = scanner_for("indent", "let x = \"|\n \t  | Hello, world!\n\t\t|\"");
    let tokens = scanner.scan();
    assert_eq!(tokens[3], Token::new(Kind::String("\n Hello, world!\n".into()), "indent".into(), Position::new(1, 9)));
    assert_eq!(tokens[4], Token::new(Kind::Eof, "indent".into(), Position::new(3, 5)));
    assert_eq!(tokens.len(), 5);
    assert_eq!(scanner.into_compiler().errors.len(), 0);
}
