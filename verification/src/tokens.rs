//! Token kinds produced by the lexer.
use vstd::prelude::*;
use crate::text::{int_text, push_int_text, push_str, string_push};

verus! {

/// Reserved words of the language.
#[derive(Debug, Clone, Copy, PartialEq, Eq, Structural)]
pub enum Keyword {
    Let,
    Mut,
    Fun,
    Return,
    If,
    Else,
    While,
    For,
    In,
    Break,
    Continue,
}

/// Operators.
#[derive(Debug, Clone, Copy, PartialEq, Eq, Structural)]
pub enum Operator {
    Subtract,
    Divide,
    Assign,
    Equal,
    NotEqual,
    LogicalNot,
    DoubleExclamation,
    QuestionMark,
    DoubleQuestion,
    LessThan,
    LessOrEqual,
    GreaterThan,
    GreaterOrEqual,
    ShiftLeft,
    ShiftRight,
    And,
    Or,
    BitwiseAnd,
    BitwiseOr,
    RangeExclusive,
    RangeInclusive,
}

/// Punctuation.
#[derive(Debug, Clone, Copy, PartialEq, Eq, Structural)]
pub enum Symbol {
    LeftParen,
    RightParen,
    LeftBrace,
    RightBrace,
    LeftBracket,
    RightBracket,
    Comma,
    Semicolon,
    Colon,
    DoubleColon,
    Dot,
    Arrow,
}

/// The kind of a token, with its payload.
///
/// A float literal keeps its source text (digits and one decimal point);
/// the program that consumes tokens turns it into a number.
#[derive(Debug, Clone, PartialEq)]
pub enum TokenType {
    Keyword(Keyword),
    Identifier(String),
    StringLiteral(String),
    IntegerLiteral(i64),
    FloatLiteral(String),
    Operator(Operator),
    Symbol(Symbol),
    ComplexStringStart,
    ComplexStringEnd,
    StringInterpolationStart,
    StringInterpolationEnd,
    EOF,
}

/// A `TokenType` with its strings taken as character sequences.
pub enum TokenTypeView {
    Keyword(Keyword),
    Identifier(Seq<char>),
    StringLiteral(Seq<char>),
    IntegerLiteral(i64),
    FloatLiteral(Seq<char>),
    Operator(Operator),
    Symbol(Symbol),
    ComplexStringStart,
    ComplexStringEnd,
    StringInterpolationStart,
    StringInterpolationEnd,
    EOF,
}

impl View for TokenType {
    type V = TokenTypeView;

    open spec fn view(&self) -> TokenTypeView {
        match self {
            TokenType::Keyword(k) => TokenTypeView::Keyword(*k),
            TokenType::Identifier(s) => TokenTypeView::Identifier(s@),
            TokenType::StringLiteral(s) => TokenTypeView::StringLiteral(s@),
            TokenType::IntegerLiteral(i) => TokenTypeView::IntegerLiteral(*i),
            TokenType::FloatLiteral(s) => TokenTypeView::FloatLiteral(s@),
            TokenType::Operator(o) => TokenTypeView::Operator(*o),
            TokenType::Symbol(s) => TokenTypeView::Symbol(*s),
            TokenType::ComplexStringStart => TokenTypeView::ComplexStringStart,
            TokenType::ComplexStringEnd => TokenTypeView::ComplexStringEnd,
            TokenType::StringInterpolationStart => TokenTypeView::StringInterpolationStart,
            TokenType::StringInterpolationEnd => TokenTypeView::StringInterpolationEnd,
            TokenType::EOF => TokenTypeView::EOF,
        }
    }
}

/// The spelling of a keyword.
pub open spec fn keyword_text(k: Keyword) -> Seq<char> {
    match k {
        Keyword::Let => "let"@,
        Keyword::Mut => "mut"@,
        Keyword::Fun => "fun"@,
        Keyword::Return => "return"@,
        Keyword::If => "if"@,
        Keyword::Else => "else"@,
        Keyword::While => "while"@,
        Keyword::For => "for"@,
        Keyword::In => "in"@,
        Keyword::Break => "break"@,
        Keyword::Continue => "continue"@,
    }
}

/// The keyword spelled `s`, if any.
pub open spec fn keyword_of(s: Seq<char>) -> Option<Keyword> {
    if s == "let"@ {
        Some(Keyword::Let)
    } else if s == "mut"@ {
        Some(Keyword::Mut)
    } else if s == "fun"@ {
        Some(Keyword::Fun)
    } else if s == "return"@ {
        Some(Keyword::Return)
    } else if s == "if"@ {
        Some(Keyword::If)
    } else if s == "else"@ {
        Some(Keyword::Else)
    } else if s == "while"@ {
        Some(Keyword::While)
    } else if s == "for"@ {
        Some(Keyword::For)
    } else if s == "in"@ {
        Some(Keyword::In)
    } else if s == "break"@ {
        Some(Keyword::Break)
    } else if s == "continue"@ {
        Some(Keyword::Continue)
    } else {
        None
    }
}

impl Keyword {
    /// The keyword spelled `s`, if `s` is a reserved word.
    pub fn parse(s: &String) -> (r: Option<Keyword>)
        ensures
            r == keyword_of(s@),
    {
        if *s == "let".to_owned() {
            Some(Keyword::Let)
        } else if *s == "mut".to_owned() {
            Some(Keyword::Mut)
        } else if *s == "fun".to_owned() {
            Some(Keyword::Fun)
        } else if *s == "return".to_owned() {
            Some(Keyword::Return)
        } else if *s == "if".to_owned() {
            Some(Keyword::If)
        } else if *s == "else".to_owned() {
            Some(Keyword::Else)
        } else if *s == "while".to_owned() {
            Some(Keyword::While)
        } else if *s == "for".to_owned() {
            Some(Keyword::For)
        } else if *s == "in".to_owned() {
            Some(Keyword::In)
        } else if *s == "break".to_owned() {
            Some(Keyword::Break)
        } else if *s == "continue".to_owned() {
            Some(Keyword::Continue)
        } else {
            None
        }
    }

    /// The spelling of the keyword.
    pub fn text(&self) -> (r: &'static str)
        ensures
            r@ == keyword_text(*self),
    {
        match self {
            Keyword::Let => "let",
            Keyword::Mut => "mut",
            Keyword::Fun => "fun",
            Keyword::Return => "return",
            Keyword::If => "if",
            Keyword::Else => "else",
            Keyword::While => "while",
            Keyword::For => "for",
            Keyword::In => "in",
            Keyword::Break => "break",
            Keyword::Continue => "continue",
        }
    }
}

/// The spelling of an operator.
pub open spec fn operator_text(o: Operator) -> Seq<char> {
    match o {
        Operator::Subtract => "-"@,
        Operator::Divide => "/"@,
        Operator::Assign => "="@,
        Operator::Equal => "=="@,
        Operator::NotEqual => "!="@,
        Operator::LogicalNot => "!"@,
        Operator::DoubleExclamation => "!!"@,
        Operator::QuestionMark => "?"@,
        Operator::DoubleQuestion => "??"@,
        Operator::LessThan => "<"@,
        Operator::LessOrEqual => "<="@,
        Operator::GreaterThan => ">"@,
        Operator::GreaterOrEqual => ">="@,
        Operator::ShiftLeft => "<<"@,
        Operator::ShiftRight => ">>"@,
        Operator::And => "&&"@,
        Operator::Or => "||"@,
        Operator::BitwiseAnd => "&"@,
        Operator::BitwiseOr => "|"@,
        Operator::RangeExclusive => ".."@,
        Operator::RangeInclusive => "..="@,
    }
}

impl Operator {
    /// The spelling of the operator.
    pub fn text(&self) -> (r: &'static str)
        ensures
            r@ == operator_text(*self),
    {
        match self {
            Operator::Subtract => "-",
            Operator::Divide => "/",
            Operator::Assign => "=",
            Operator::Equal => "==",
            Operator::NotEqual => "!=",
            Operator::LogicalNot => "!",
            Operator::DoubleExclamation => "!!",
            Operator::QuestionMark => "?",
            Operator::DoubleQuestion => "??",
            Operator::LessThan => "<",
            Operator::LessOrEqual => "<=",
            Operator::GreaterThan => ">",
            Operator::GreaterOrEqual => ">=",
            Operator::ShiftLeft => "<<",
            Operator::ShiftRight => ">>",
            Operator::And => "&&",
            Operator::Or => "||",
            Operator::BitwiseAnd => "&",
            Operator::BitwiseOr => "|",
            Operator::RangeExclusive => "..",
            Operator::RangeInclusive => "..=",
        }
    }
}

/// The spelling of a symbol.
pub open spec fn symbol_text(s: Symbol) -> Seq<char> {
    match s {
        Symbol::LeftParen => "("@,
        Symbol::RightParen => ")"@,
        Symbol::LeftBrace => "{"@,
        Symbol::RightBrace => "}"@,
        Symbol::LeftBracket => "["@,
        Symbol::RightBracket => "]"@,
        Symbol::Comma => ","@,
        Symbol::Semicolon => ";"@,
        Symbol::Colon => ":"@,
        Symbol::DoubleColon => "::"@,
        Symbol::Dot => "."@,
        Symbol::Arrow => "->"@,
    }
}

impl Symbol {
    /// The spelling of the symbol.
    pub fn text(&self) -> (r: &'static str)
        ensures
            r@ == symbol_text(*self),
    {
        match self {
            Symbol::LeftParen => "(",
            Symbol::RightParen => ")",
            Symbol::LeftBrace => "{",
            Symbol::RightBrace => "}",
            Symbol::LeftBracket => "[",
            Symbol::RightBracket => "]",
            Symbol::Comma => ",",
            Symbol::Semicolon => ";",
            Symbol::Colon => ":",
            Symbol::DoubleColon => "::",
            Symbol::Dot => ".",
            Symbol::Arrow => "->",
        }
    }
}

/// How a token kind is written in messages.
pub open spec fn token_type_text(t: TokenTypeView) -> Seq<char> {
    match t {
        TokenTypeView::Keyword(k) => keyword_text(k),
        TokenTypeView::Identifier(s) => s,
        TokenTypeView::StringLiteral(s) => seq!['"'] + s + seq!['"'],
        TokenTypeView::IntegerLiteral(i) => int_text(i as int),
        TokenTypeView::FloatLiteral(s) => s,
        TokenTypeView::Operator(o) => operator_text(o),
        TokenTypeView::Symbol(s) => symbol_text(s),
        TokenTypeView::ComplexStringStart => "start of interpolated string"@,
        TokenTypeView::ComplexStringEnd => "end of interpolated string"@,
        TokenTypeView::StringInterpolationStart => "${"@,
        TokenTypeView::StringInterpolationEnd => "}"@,
        TokenTypeView::EOF => "end of file"@,
    }
}

impl TokenType {
    /// How the token kind is written in messages.
    pub fn to_text(&self) -> (r: String)
        ensures
            r@ == token_type_text(self@),
    {
        let mut out = String::new();
        match self {
            TokenType::Keyword(k) => push_str(&mut out, k.text()),
            TokenType::Identifier(s) => push_str(&mut out, s.as_str()),
            TokenType::StringLiteral(s) => {
                string_push(&mut out, '"');
                push_str(&mut out, s.as_str());
                string_push(&mut out, '"');
            },
            TokenType::IntegerLiteral(i) => push_int_text(&mut out, *i),
            TokenType::FloatLiteral(s) => push_str(&mut out, s.as_str()),
            TokenType::Operator(o) => push_str(&mut out, o.text()),
            TokenType::Symbol(s) => push_str(&mut out, s.text()),
            TokenType::ComplexStringStart => push_str(&mut out, "start of interpolated string"),
            TokenType::ComplexStringEnd => push_str(&mut out, "end of interpolated string"),
            TokenType::StringInterpolationStart => push_str(&mut out, "${"),
            TokenType::StringInterpolationEnd => push_str(&mut out, "}"),
            TokenType::EOF => push_str(&mut out, "end of file"),
        }
        assert(out@ =~= token_type_text(self@));
        out
    }

    /// A copy of the token kind.
    pub fn duplicate(&self) -> (r: TokenType)
        ensures
            r@ == self@,
    {
        match self {
            TokenType::Keyword(k) => TokenType::Keyword(*k),
            TokenType::Identifier(s) => TokenType::Identifier(s.clone()),
            TokenType::StringLiteral(s) => TokenType::StringLiteral(s.clone()),
            TokenType::IntegerLiteral(i) => TokenType::IntegerLiteral(*i),
            TokenType::FloatLiteral(s) => TokenType::FloatLiteral(s.clone()),
            TokenType::Operator(o) => TokenType::Operator(*o),
            TokenType::Symbol(s) => TokenType::Symbol(*s),
            TokenType::ComplexStringStart => TokenType::ComplexStringStart,
            TokenType::ComplexStringEnd => TokenType::ComplexStringEnd,
            TokenType::StringInterpolationStart => TokenType::StringInterpolationStart,
            TokenType::StringInterpolationEnd => TokenType::StringInterpolationEnd,
            TokenType::EOF => TokenType::EOF,
        }
    }

    /// Whether two token kinds are equal (kind and payload).
    pub fn same_as(&self, other: &TokenType) -> (r: bool)
        ensures
            r == (self@ == other@),
    {
        match (self, other) {
            (TokenType::Keyword(a), TokenType::Keyword(b)) => *a == *b,
            (TokenType::Identifier(a), TokenType::Identifier(b)) => *a == *b,
            (TokenType::StringLiteral(a), TokenType::StringLiteral(b)) => *a == *b,
            (TokenType::IntegerLiteral(a), TokenType::IntegerLiteral(b)) => *a == *b,
            (TokenType::FloatLiteral(a), TokenType::FloatLiteral(b)) => *a == *b,
            (TokenType::Operator(a), TokenType::Operator(b)) => *a == *b,
            (TokenType::Symbol(a), TokenType::Symbol(b)) => *a == *b,
            (TokenType::ComplexStringStart, TokenType::ComplexStringStart) => true,
            (TokenType::ComplexStringEnd, TokenType::ComplexStringEnd) => true,
            (TokenType::StringInterpolationStart, TokenType::StringInterpolationStart) => true,
            (TokenType::StringInterpolationEnd, TokenType::StringInterpolationEnd) => true,
            (TokenType::EOF, TokenType::EOF) => true,
            _ => false,
        }
    }

    /// Whether this is the end-of-file marker.
    pub fn is_eof(&self) -> (r: bool)
        ensures
            r == (self@ is EOF),
    {
        match self {
            TokenType::EOF => true,
            _ => false,
        }
    }
}

} // verus!
