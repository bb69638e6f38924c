use vstd::prelude::*;

use crate::position::Position;
use crate::text::text_eq;

verus! {

/// A classified unit of source text, with the file it came from and the
/// position at which it starts.
#[derive(Clone, Debug, PartialEq, Eq)]
pub struct Token {
    pub kind: Kind,
    pub file: String,
    pub pos: Position,
}

impl Token {
    /// Creates a token of `kind`, belonging to `file`, at `pos`.
    pub fn new(kind: Kind, file: String, pos: Position) -> (r: Token)
        ensures
            r.kind == kind,
            r.file == file,
            r.pos == pos,
    {
        Token { kind, file, pos }
    }
}

/// The lexical category of a token.
#[derive(Clone, Debug, PartialEq, Eq)]
pub enum Kind {
    /// A word that is neither a keyword nor a mode.
    Tag(String),
    Keyword(Keyword),
    Mode(Mode),
    /// A string literal, after escape processing.
    String(String),
    Char(char),
    Regex(String),
    /// Digits and `_` as written.
    Integer(String),
    /// Digits and `_`, one `.`, then digits and `_`, as written.
    Float(String),
    Assign,  // =
    AssignExp,  // :=
    Dot,  // .
    Comma,  // ,
    LeftParen,  // (
    RightParen,  // )
    LeftBracket,  // [
    RightBracket,  // ]
    LeftSquirly,  // {
    RightSquirly,  // }
    SingleQuote,  // '
    DoubleQuote,  // "
    Backtick,  // `
    Backslash,  // \
    Colon,  // :
    Semicolon,  // ;
    Arrow,  // ->
    WideArrow,  // =>
    Address,  // @
    Cash,  // $
    Pound,  // #
    Bang,  // !
    Question,  // ?
    RangeExc,  // ..
    RangeInc,  // ..=
    ForwardApp,  // <|
    ReverseApp,  // |>
    Concat,  // <>
    Plus,  // +
    Minus,  // -
    Asterisk,  // *
    Slash,  // /
    Percent,  // %
    Increment,  // ++
    Decrement,  // --
    Power,  // **
    Ampersand,  // &
    Pipe,  // |
    Caret,  // ^
    Tilde,  // ~
    LeftShift,  // <<
    RightShift,  // >>
    Lesser,  // <
    LesserEq,  // <=
    Greater,  // >
    GreaterEq,  // >=
    Equal,  // ==
    NotEqual,  // !=
    Newline,  // '\n'
    /// A character that no rule covers.
    Illegal,
    /// The end of the text.
    Eof,
}

/// What a kind stands for, with its text as a sequence of characters.
pub enum Lexeme {
    Tag(Seq<char>),
    Str(Seq<char>),
    Regex(Seq<char>),
    Integer(Seq<char>),
    Float(Seq<char>),
    /// A kind without text.
    Other(Kind),
}

impl View for Kind {
    type V = Lexeme;

    open spec fn view(&self) -> Lexeme {
        match self {
            Kind::Tag(t) => Lexeme::Tag(t@),
            Kind::String(t) => Lexeme::Str(t@),
            Kind::Regex(t) => Lexeme::Regex(t@),
            Kind::Integer(t) => Lexeme::Integer(t@),
            Kind::Float(t) => Lexeme::Float(t@),
            _ => Lexeme::Other(*self),
        }
    }
}

/// The kind of a single character that stands for itself.
pub open spec fn char_kind(c: char) -> Kind {
    if c == '=' {
        Kind::Assign
    } else if c == '.' {
        Kind::Dot
    } else if c == ',' {
        Kind::Comma
    } else if c == '(' {
        Kind::LeftParen
    } else if c == ')' {
        Kind::RightParen
    } else if c == '[' {
        Kind::LeftBracket
    } else if c == ']' {
        Kind::RightBracket
    } else if c == '{' {
        Kind::LeftSquirly
    } else if c == '}' {
        Kind::RightSquirly
    } else if c == '\'' {
        Kind::SingleQuote
    } else if c == '"' {
        Kind::DoubleQuote
    } else if c == '`' {
        Kind::Backtick
    } else if c == '\\' {
        Kind::Backslash
    } else if c == ':' {
        Kind::Colon
    } else if c == ';' {
        Kind::Semicolon
    } else if c == '@' {
        Kind::Address
    } else if c == '$' {
        Kind::Cash
    } else if c == '#' {
        Kind::Pound
    } else if c == '!' {
        Kind::Bang
    } else if c == '?' {
        Kind::Question
    } else if c == '+' {
        Kind::Plus
    } else if c == '-' {
        Kind::Minus
    } else if c == '*' {
        Kind::Asterisk
    } else if c == '/' {
        Kind::Slash
    } else if c == '%' {
        Kind::Percent
    } else if c == '&' {
        Kind::Ampersand
    } else if c == '|' {
        Kind::Pipe
    } else if c == '^' {
        Kind::Caret
    } else if c == '~' {
        Kind::Tilde
    } else if c == '<' {
        Kind::Lesser
    } else if c == '>' {
        Kind::Greater
    } else if c == '\n' {
        Kind::Newline
    } else if c == '\0' {
        Kind::Eof
    } else {
        Kind::Illegal
    }
}

/// The keyword that a word is, if it is one.
pub open spec fn keyword_kind(w: Seq<char>) -> Option<Kind> {
    if w == "const"@ {
        Some(Kind::Keyword(Keyword::Const))
    } else if w == "let"@ {
        Some(Kind::Keyword(Keyword::Let))
    } else if w == "pub"@ {
        Some(Kind::Keyword(Keyword::Pub))
    } else if w == "return"@ {
        Some(Kind::Keyword(Keyword::Return))
    } else if w == "do"@ {
        Some(Kind::Keyword(Keyword::Do))
    } else if w == "end"@ {
        Some(Kind::Keyword(Keyword::End))
    } else if w == "record"@ {
        Some(Kind::Keyword(Keyword::Record))
    } else if w == "variant"@ {
        Some(Kind::Keyword(Keyword::Variant))
    } else if w == "use"@ {
        Some(Kind::Keyword(Keyword::Use))
    } else if w == "interface"@ {
        Some(Kind::Keyword(Keyword::Interface))
    } else if w == "module"@ {
        Some(Kind::Keyword(Keyword::Module))
    } else if w == "defer"@ {
        Some(Kind::Keyword(Keyword::Defer))
    } else if w == "true"@ {
        Some(Kind::Keyword(Keyword::True))
    } else if w == "false"@ {
        Some(Kind::Keyword(Keyword::False))
    } else if w == "for"@ {
        Some(Kind::Keyword(Keyword::For))
    } else if w == "while"@ {
        Some(Kind::Keyword(Keyword::While))
    } else if w == "break"@ {
        Some(Kind::Keyword(Keyword::Break))
    } else if w == "continue"@ {
        Some(Kind::Keyword(Keyword::Continue))
    } else if w == "match"@ {
        Some(Kind::Keyword(Keyword::Match))
    } else if w == "if"@ {
        Some(Kind::Keyword(Keyword::If))
    } else if w == "else"@ {
        Some(Kind::Keyword(Keyword::Else))
    } else if w == "and"@ {
        Some(Kind::Keyword(Keyword::And))
    } else if w == "or"@ {
        Some(Kind::Keyword(Keyword::Or))
    } else if w == "not"@ {
        Some(Kind::Keyword(Keyword::Not))
    } else if w == "inline"@ {
        Some(Kind::Keyword(Keyword::Inline))
    } else if w == "test"@ {
        Some(Kind::Keyword(Keyword::Test))
    } else if w == "fn"@ {
        Some(Kind::Keyword(Keyword::Fn))
    } else if w == "in"@ {
        Some(Kind::Keyword(Keyword::In))
    } else if w == "private"@ {
        Some(Kind::Keyword(Keyword::Private))
    } else if w == "derive"@ {
        Some(Kind::Keyword(Keyword::Derive))
    } else if w == "static"@ {
        Some(Kind::Keyword(Keyword::Static))
    } else if w == "macro"@ {
        Some(Kind::Keyword(Keyword::Macro))
    } else if w == "from"@ {
        Some(Kind::Keyword(Keyword::From))
    } else if w == "impl"@ {
        Some(Kind::Keyword(Keyword::Impl))
    } else if w == "when"@ {
        Some(Kind::Keyword(Keyword::When))
    } else if w == "any"@ {
        Some(Kind::Keyword(Keyword::Any))
    } else if w == "as"@ {
        Some(Kind::Keyword(Keyword::As))
    } else {
        None
    }
}

/// The mode that a word is, if it is one.
pub open spec fn mode_kind(w: Seq<char>) -> Option<Kind> {
    if w == "comptime"@ {
        Some(Kind::Mode(Mode::Comptime))
    } else if w == "mut"@ {
        Some(Kind::Mode(Mode::Mut))
    } else if w == "mov"@ {
        Some(Kind::Mode(Mode::Mov))
    } else if w == "loc"@ {
        Some(Kind::Mode(Mode::Loc))
    } else {
        None
    }
}

/// The source text of a kind: its symbol, or the text it carries.
pub open spec fn kind_text(k: Kind) -> Seq<char> {
    match k {
        Kind::Tag(t) => t@,
        Kind::Keyword(kw) => keyword_word(kw),
        Kind::Mode(m) => mode_word(m),
        Kind::String(t) => t@,
        Kind::Char(_) => ""@,
        Kind::Regex(t) => t@,
        Kind::Integer(t) => t@,
        Kind::Float(t) => t@,
        Kind::Assign => "="@,
        Kind::AssignExp => ":="@,
        Kind::Dot => "."@,
        Kind::Comma => ","@,
        Kind::LeftParen => "("@,
        Kind::RightParen => ")"@,
        Kind::LeftBracket => "["@,
        Kind::RightBracket => "]"@,
        Kind::LeftSquirly => "{"@,
        Kind::RightSquirly => "}"@,
        Kind::SingleQuote => "'"@,
        Kind::DoubleQuote => "\""@,
        Kind::Backtick => "`"@,
        Kind::Backslash => "\\"@,
        Kind::Colon => ":"@,
        Kind::Semicolon => ";"@,
        Kind::Arrow => "->"@,
        Kind::WideArrow => "=>"@,
        Kind::Address => "@"@,
        Kind::Cash => "$"@,
        Kind::Pound => "#"@,
        Kind::Bang => "!"@,
        Kind::Question => "?"@,
        Kind::RangeExc => ".."@,
        Kind::RangeInc => "..="@,
        Kind::ForwardApp => "<|"@,
        Kind::ReverseApp => "|>"@,
        Kind::Concat => "<>"@,
        Kind::Plus => "+"@,
        Kind::Minus => "-"@,
        Kind::Asterisk => "*"@,
        Kind::Slash => "/"@,
        Kind::Percent => "%"@,
        Kind::Increment => "++"@,
        Kind::Decrement => "--"@,
        Kind::Power => "**"@,
        Kind::Ampersand => "&"@,
        Kind::Pipe => "|"@,
        Kind::Caret => "^"@,
        Kind::Tilde => "~"@,
        Kind::LeftShift => "<<"@,
        Kind::RightShift => ">>"@,
        Kind::Lesser => "<"@,
        Kind::LesserEq => "<="@,
        Kind::Greater => ">"@,
        Kind::GreaterEq => ">="@,
        Kind::Equal => "=="@,
        Kind::NotEqual => "!="@,
        Kind::Newline => "\n"@,
        Kind::Illegal => ""@,
        Kind::Eof => ""@,
    }
}

/// The reserved word of a keyword.
pub open spec fn keyword_word(k: Keyword) -> Seq<char> {
    match k {
        Keyword::Const => "const"@,
        Keyword::Let => "let"@,
        Keyword::Pub => "pub"@,
        Keyword::Return => "return"@,
        Keyword::Do => "do"@,
        Keyword::Begin => "begin"@,
        Keyword::End => "end"@,
        Keyword::Record => "record"@,
        Keyword::Variant => "variant"@,
        Keyword::Interface => "interface"@,
        Keyword::Module => "module"@,
        Keyword::Defer => "defer"@,
        Keyword::True => "true"@,
        Keyword::False => "false"@,
        Keyword::For => "for"@,
        Keyword::While => "while"@,
        Keyword::Break => "break"@,
        Keyword::Continue => "continue"@,
        Keyword::Match => "match"@,
        Keyword::If => "if"@,
        Keyword::Else => "else"@,
        Keyword::And => "and"@,
        Keyword::Or => "or"@,
        Keyword::Not => "not"@,
        Keyword::Inline => "inline"@,
        Keyword::Test => "test"@,
        Keyword::Fn => "fn"@,
        Keyword::In => "in"@,
        Keyword::Private => "private"@,
        Keyword::Derive => "derive"@,
        Keyword::Static => "static"@,
        Keyword::Macro => "macro"@,
        Keyword::From => "from"@,
        Keyword::Impl => "impl"@,
        Keyword::When => "when"@,
        Keyword::Any => "any"@,
        Keyword::Use => "use"@,
        Keyword::As => "as"@,
    }
}

/// The reserved word of a mode.
pub open spec fn mode_word(m: Mode) -> Seq<char> {
    match m {
        Mode::Comptime => "comptime"@,
        Mode::Mut => "mut"@,
        Mode::Mov => "mov"@,
        Mode::Loc => "loc"@,
    }
}

impl Kind {
    /// The kind of a single character; `Illegal` where the character has none.
    pub fn from_char(ch: char) -> (r: Kind)
        ensures
            r == char_kind(ch),
    {
        match ch {
            '=' => Kind::Assign,
            '.' => Kind::Dot,
            ',' => Kind::Comma,
            '(' => Kind::LeftParen,
            ')' => Kind::RightParen,
            '[' => Kind::LeftBracket,
            ']' => Kind::RightBracket,
            '{' => Kind::LeftSquirly,
            '}' => Kind::RightSquirly,
            '\'' => Kind::SingleQuote,
            '"' => Kind::DoubleQuote,
            '`' => Kind::Backtick,
            '\\' => Kind::Backslash,
            ':' => Kind::Colon,
            ';' => Kind::Semicolon,
            '@' => Kind::Address,
            '$' => Kind::Cash,
            '#' => Kind::Pound,
            '!' => Kind::Bang,
            '?' => Kind::Question,
            '+' => Kind::Plus,
            '-' => Kind::Minus,
            '*' => Kind::Asterisk,
            '/' => Kind::Slash,
            '%' => Kind::Percent,
            '&' => Kind::Ampersand,
            '|' => Kind::Pipe,
            '^' => Kind::Caret,
            '~' => Kind::Tilde,
            '<' => Kind::Lesser,
            '>' => Kind::Greater,
            '\n' => Kind::Newline,
            '\0' => Kind::Eof,
            _ => Kind::Illegal,
        }
    }

    /// The kind of a compound operator's text, if it is one.
    pub fn try_from_str(text: &str) -> (r: Option<Kind>)
        ensures
            r == compound_kind(text@),
    {
        if text_eq(text, ":=") {
            return Some(Kind::AssignExp);
        }
        if text_eq(text, "->") {
            return Some(Kind::Arrow);
        }
        if text_eq(text, "=>") {
            return Some(Kind::WideArrow);
        }
        if text_eq(text, "..") {
            return Some(Kind::RangeExc);
        }
        if text_eq(text, "..=") {
            return Some(Kind::RangeInc);
        }
        if text_eq(text, "|>") {
            return Some(Kind::ReverseApp);
        }
        if text_eq(text, "<|") {
            return Some(Kind::ForwardApp);
        }
        if text_eq(text, "<>") {
            return Some(Kind::Concat);
        }
        if text_eq(text, "++") {
            return Some(Kind::Increment);
        }
        if text_eq(text, "--") {
            return Some(Kind::Decrement);
        }
        if text_eq(text, "**") {
            return Some(Kind::Power);
        }
        if text_eq(text, "<<") {
            return Some(Kind::LeftShift);
        }
        if text_eq(text, ">>") {
            return Some(Kind::RightShift);
        }
        if text_eq(text, "<=") {
            return Some(Kind::LesserEq);
        }
        if text_eq(text, ">=") {
            return Some(Kind::GreaterEq);
        }
        if text_eq(text, "==") {
            return Some(Kind::Equal);
        }
        if text_eq(text, "!=") {
            return Some(Kind::NotEqual);
        }
        None
    }

    /// The keyword that `text` is, if it is one.
    pub fn try_keyword(text: &str) -> (r: Option<Kind>)
        ensures
            r == keyword_kind(text@),
    {
        if text_eq(text, "const") {
            return Some(Kind::Keyword(Keyword::Const));
        }
        if text_eq(text, "let") {
            return Some(Kind::Keyword(Keyword::Let));
        }
        if text_eq(text, "pub") {
            return Some(Kind::Keyword(Keyword::Pub));
        }
        if text_eq(text, "return") {
            return Some(Kind::Keyword(Keyword::Return));
        }
        if text_eq(text, "do") {
            return Some(Kind::Keyword(Keyword::Do));
        }
        if text_eq(text, "end") {
            return Some(Kind::Keyword(Keyword::End));
        }
        if text_eq(text, "record") {
            return Some(Kind::Keyword(Keyword::Record));
        }
        if text_eq(text, "variant") {
            return Some(Kind::Keyword(Keyword::Variant));
        }
        if text_eq(text, "use") {
            return Some(Kind::Keyword(Keyword::Use));
        }
        if text_eq(text, "interface") {
            return Some(Kind::Keyword(Keyword::Interface));
        }
        if text_eq(text, "module") {
            return Some(Kind::Keyword(Keyword::Module));
        }
        if text_eq(text, "defer") {
            return Some(Kind::Keyword(Keyword::Defer));
        }
        if text_eq(text, "true") {
            return Some(Kind::Keyword(Keyword::True));
        }
        if text_eq(text, "false") {
            return Some(Kind::Keyword(Keyword::False));
        }
        if text_eq(text, "for") {
            return Some(Kind::Keyword(Keyword::For));
        }
        if text_eq(text, "while") {
            return Some(Kind::Keyword(Keyword::While));
        }
        if text_eq(text, "break") {
            return Some(Kind::Keyword(Keyword::Break));
        }
        if text_eq(text, "continue") {
            return Some(Kind::Keyword(Keyword::Continue));
        }
        if text_eq(text, "match") {
            return Some(Kind::Keyword(Keyword::Match));
        }
        if text_eq(text, "if") {
            return Some(Kind::Keyword(Keyword::If));
        }
        if text_eq(text, "else") {
            return Some(Kind::Keyword(Keyword::Else));
        }
        if text_eq(text, "and") {
            return Some(Kind::Keyword(Keyword::And));
        }
        if text_eq(text, "or") {
            return Some(Kind::Keyword(Keyword::Or));
        }
        if text_eq(text, "not") {
            return Some(Kind::Keyword(Keyword::Not));
        }
        if text_eq(text, "inline") {
            return Some(Kind::Keyword(Keyword::Inline));
        }
        if text_eq(text, "test") {
            return Some(Kind::Keyword(Keyword::Test));
        }
        if text_eq(text, "fn") {
            return Some(Kind::Keyword(Keyword::Fn));
        }
        if text_eq(text, "in") {
            return Some(Kind::Keyword(Keyword::In));
        }
        if text_eq(text, "private") {
            return Some(Kind::Keyword(Keyword::Private));
        }
        if text_eq(text, "derive") {
            return Some(Kind::Keyword(Keyword::Derive));
        }
        if text_eq(text, "static") {
            return Some(Kind::Keyword(Keyword::Static));
        }
        if text_eq(text, "macro") {
            return Some(Kind::Keyword(Keyword::Macro));
        }
        if text_eq(text, "from") {
            return Some(Kind::Keyword(Keyword::From));
        }
        if text_eq(text, "impl") {
            return Some(Kind::Keyword(Keyword::Impl));
        }
        if text_eq(text, "when") {
            return Some(Kind::Keyword(Keyword::When));
        }
        if text_eq(text, "any") {
            return Some(Kind::Keyword(Keyword::Any));
        }
        if text_eq(text, "as") {
            return Some(Kind::Keyword(Keyword::As));
        }
        None
    }

    /// The mode that `text` is, if it is one.
    pub fn try_mode(text: &str) -> (r: Option<Kind>)
        ensures
            r == mode_kind(text@),
    {
        if text_eq(text, "comptime") {
            return Some(Kind::Mode(Mode::Comptime));
        }
        if text_eq(text, "mut") {
            return Some(Kind::Mode(Mode::Mut));
        }
        if text_eq(text, "mov") {
            return Some(Kind::Mode(Mode::Mov));
        }
        if text_eq(text, "loc") {
            return Some(Kind::Mode(Mode::Loc));
        }
        None
    }

    /// The source text of this kind: its symbol, or the text it carries.
    /// Empty for `Char`, `Illegal` and `Eof`.
    pub fn to_str(&self) -> (r: &str)
        ensures
            r@ == kind_text(*self),
    {
        match self {
            Kind::Tag(t) => t.as_str(),
            Kind::Keyword(k) => k.to_str(),
            Kind::Mode(m) => m.to_str(),
            Kind::String(t) => t.as_str(),
            Kind::Char(_) => "",
            Kind::Regex(t) => t.as_str(),
            Kind::Integer(t) => t.as_str(),
            Kind::Float(t) => t.as_str(),
            Kind::Assign => "=",
            Kind::AssignExp => ":=",
            Kind::Dot => ".",
            Kind::Comma => ",",
            Kind::LeftParen => "(",
            Kind::RightParen => ")",
            Kind::LeftBracket => "[",
            Kind::RightBracket => "]",
            Kind::LeftSquirly => "{",
            Kind::RightSquirly => "}",
            Kind::SingleQuote => "'",
            Kind::DoubleQuote => "\"",
            Kind::Backtick => "`",
            Kind::Backslash => "\\",
            Kind::Colon => ":",
            Kind::Semicolon => ";",
            Kind::Arrow => "->",
            Kind::WideArrow => "=>",
            Kind::Address => "@",
            Kind::Cash => "$",
            Kind::Pound => "#",
            Kind::Bang => "!",
            Kind::Question => "?",
            Kind::RangeExc => "..",
            Kind::RangeInc => "..=",
            Kind::ForwardApp => "<|",
            Kind::ReverseApp => "|>",
            Kind::Concat => "<>",
            Kind::Plus => "+",
            Kind::Minus => "-",
            Kind::Asterisk => "*",
            Kind::Slash => "/",
            Kind::Percent => "%",
            Kind::Increment => "++",
            Kind::Decrement => "--",
            Kind::Power => "**",
            Kind::Ampersand => "&",
            Kind::Pipe => "|",
            Kind::Caret => "^",
            Kind::Tilde => "~",
            Kind::LeftShift => "<<",
            Kind::RightShift => ">>",
            Kind::Lesser => "<",
            Kind::LesserEq => "<=",
            Kind::Greater => ">",
            Kind::GreaterEq => ">=",
            Kind::Equal => "==",
            Kind::NotEqual => "!=",
            Kind::Newline => "\n",
            Kind::Illegal => "",
            Kind::Eof => "",
        }
    }
}

/// The kind of a compound operator's text, if it is one.
pub open spec fn compound_kind(w: Seq<char>) -> Option<Kind> {
    if w == ":="@ {
        Some(Kind::AssignExp)
    } else if w == "->"@ {
        Some(Kind::Arrow)
    } else if w == "=>"@ {
        Some(Kind::WideArrow)
    } else if w == ".."@ {
        Some(Kind::RangeExc)
    } else if w == "..="@ {
        Some(Kind::RangeInc)
    } else if w == "|>"@ {
        Some(Kind::ReverseApp)
    } else if w == "<|"@ {
        Some(Kind::ForwardApp)
    } else if w == "<>"@ {
        Some(Kind::Concat)
    } else if w == "++"@ {
        Some(Kind::Increment)
    } else if w == "--"@ {
        Some(Kind::Decrement)
    } else if w == "**"@ {
        Some(Kind::Power)
    } else if w == "<<"@ {
        Some(Kind::LeftShift)
    } else if w == ">>"@ {
        Some(Kind::RightShift)
    } else if w == "<="@ {
        Some(Kind::LesserEq)
    } else if w == ">="@ {
        Some(Kind::GreaterEq)
    } else if w == "=="@ {
        Some(Kind::Equal)
    } else if w == "!="@ {
        Some(Kind::NotEqual)
    } else {
        None
    }
}

/// The reserved words of control and declaration.
#[derive(Clone, Copy, Debug, PartialEq, Eq, Structural)]
pub enum Keyword {
    Const,
    Let,
    Pub,
    Return,
    Do,
    Begin,
    End,
    Record,
    Variant,
    Interface,
    Module,
    Defer,
    True,
    False,
    For,
    While,
    Break,
    Continue,
    Match,
    If,
    Else,
    And,
    Or,
    Not,
    Inline,
    Test,
    Fn,
    In,
    Private,
    Derive,
    Static,
    Macro,
    From,
    Impl,
    When,
    Any,
    Use,
    As,
}

impl Keyword {
    /// The reserved word of this keyword.
    pub fn to_str(&self) -> (r: &'static str)
        ensures
            r@ == keyword_word(*self),
    {
        match self {
            Keyword::Const => "const",
            Keyword::Let => "let",
            Keyword::Pub => "pub",
            Keyword::Return => "return",
            Keyword::Do => "do",
            Keyword::Begin => "begin",
            Keyword::End => "end",
            Keyword::Record => "record",
            Keyword::Variant => "variant",
            Keyword::Interface => "interface",
            Keyword::Module => "module",
            Keyword::Defer => "defer",
            Keyword::True => "true",
            Keyword::False => "false",
            Keyword::For => "for",
            Keyword::While => "while",
            Keyword::Break => "break",
            Keyword::Continue => "continue",
            Keyword::Match => "match",
            Keyword::If => "if",
            Keyword::Else => "else",
            Keyword::And => "and",
            Keyword::Or => "or",
            Keyword::Not => "not",
            Keyword::Inline => "inline",
            Keyword::Test => "test",
            Keyword::Fn => "fn",
            Keyword::In => "in",
            Keyword::Private => "private",
            Keyword::Derive => "derive",
            Keyword::Static => "static",
            Keyword::Macro => "macro",
            Keyword::From => "from",
            Keyword::Impl => "impl",
            Keyword::When => "when",
            Keyword::Any => "any",
            Keyword::Use => "use",
            Keyword::As => "as",
        }
    }
}

/// The storage and binding modifiers.
#[derive(Clone, Copy, Debug, PartialEq, Eq, Structural)]
pub enum Mode {
    Comptime,
    Mut,
    Mov,
    Loc,
}

impl Mode {
    /// The reserved word of this mode.
    pub fn to_str(&self) -> (r: &'static str)
        ensures
            r@ == mode_word(*self),
    {
        match self {
            Mode::Comptime => "comptime",
            Mode::Mut => "mut",
            Mode::Mov => "mov",
            Mode::Loc => "loc",
        }
    }
}

} // verus!
