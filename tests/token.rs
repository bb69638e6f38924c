use ghsc::token::{Keyword, Kind, Mode, Token};
use ghsc::position::Position;
use ghsc::utility::{
    is_alphabetical, is_alphanumeric, is_escape_char, is_integral, is_numeric, try_escape_char,
};

#[test]
fn classifiers() {
    assert!(is_alphabetical('a') && is_alphabetical('Z') && !is_alphabetical('1'));
    assert!(is_integral('7') && is_integral('_') && !is_integral('.'));
    assert!(is_numeric('.') && is_numeric('0') && !is_numeric('x'));
    assert!(is_alphanumeric('_') && is_alphanumeric('q') && !is_alphanumeric('-'));
}

#[test]
fn escape_table() {
    assert!(is_escape_char("\\n"));
    assert!(!is_escape_char("\\s"));
    assert!(!is_escape_char("n"));
    assert_eq!(try_escape_char(Some("\\n")), Some('\n'));
    assert_eq!(try_escape_char(Some("\\t")), None);
    assert_eq!(try_escape_char(None), None);
}

#[test]
fn kind_tables() {
    assert_eq!(Kind::from_char('{'), Kind::LeftSquirly);
    assert_eq!(Kind::from_char('\n'), Kind::Newline);
    assert_eq!(Kind::from_char('\0'), Kind::Eof);
    assert_eq!(Kind::from_char('\r'), Kind::Illegal);
    assert_eq!(Kind::try_from_str("=="), Some(Kind::Equal));
    assert_eq!(Kind::try_from_str("!="), Some(Kind::NotEqual));
    assert_eq!(Kind::try_from_str("..="), Some(Kind::RangeInc));
    assert_eq!(Kind::try_from_str("?"), None);
    assert_eq!(Kind::try_keyword("while"), Some(Kind::Keyword(Keyword::While)));
    assert_eq!(Kind::try_keyword("mut"), None);
    assert_eq!(Kind::try_mode("loc"), Some(Kind::Mode(Mode::Loc)));
    assert_eq!(Kind::try_mode("let"), None);
}

#[test]
fn texts_of_kinds() {
    assert_eq!(Keyword::Continue.to_str(), "continue");
    assert_eq!(Mode::Mov.to_str(), "mov");
    assert_eq!(Kind::RangeInc.to_str(), "..=");
    assert_eq!(Kind::Tag("name".into()).to_str(), "name");
    assert_eq!(Kind::Keyword(Keyword::Fn).to_str(), "fn");
    assert_eq!(Kind::Eof.to_str(), "");
}

#[test]
fn token_fields() {
    let token = Token::new(Kind::Comma, "f".into(), Position::new(2, 4));
    assert_eq!(token.kind, Kind::Comma);
    assert_eq!(token.file, String::from("f"));
    assert_eq!(token.pos.line, 2);
    assert_eq!(token.pos.column, 4);
}
