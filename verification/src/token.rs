//! The token vocabulary: the closed set of lexical categories and the
//! `Token` record produced by the scanner.

use vstd::prelude::*;

verus! {

/// The closed set of lexical categories.
///
/// Exactly one variant is active per token. The literal-bearing variants
/// carry their payload as text: an identifier carries its spelling, a string
/// literal carries the contents strictly between its delimiters, and a number
/// literal carries its decimal text exactly as it was scanned; a caller that
/// wants a machine number converts that text itself.
#[derive(Clone, Debug, PartialEq)]
pub enum TokenType {
    LeftParen,
    RightParen,
    LeftBrace,
    RightBrace,
    Comma,
    Dot,
    Minus,
    Plus,
    Semicolon,
    Slash,
    Star,
    Bang,
    BangEqual,
    Equal,
    EqualEqual,
    Greater,
    GreaterEqual,
    Less,
    LessEqual,
    Identifier(String),
    String(String),
    Number(String),
    And,
    Class,
    Else,
    False,
    Fn,
    For,
    If,
    Nil,
    Or,
    Print,
    Return,
    This,
    True,
    Var,
    While,
    Eof,
}

impl TokenType {
    /// The canonical textual rendering of a category: punctuation renders as
    /// its glyph(s), literal-bearing categories as `Kind(payload)`, keywords
    /// as their spelling, and end-of-input as a fixed sentinel.
    pub open spec fn spec_text(self) -> Seq<char> {
        match self {
            TokenType::LeftParen => "("@,
            TokenType::RightParen => ")"@,
            TokenType::LeftBrace => "{"@,
            TokenType::RightBrace => "}"@,
            TokenType::Comma => ","@,
            TokenType::Dot => "."@,
            TokenType::Minus => "-"@,
            TokenType::Plus => "+"@,
            TokenType::Semicolon => ";"@,
            TokenType::Slash => "/"@,
            TokenType::Star => "*"@,
            TokenType::Bang => "!"@,
            TokenType::BangEqual => "!="@,
            TokenType::Equal => "="@,
            TokenType::EqualEqual => "=="@,
            TokenType::Greater => ">"@,
            TokenType::GreaterEqual => ">="@,
            TokenType::Less => "<"@,
            TokenType::LessEqual => "<="@,
            TokenType::Identifier(t) => "Identifier("@ + t@ + ")"@,
            TokenType::String(s) => "String("@ + s@ + ")"@,
            TokenType::Number(n) => "Number("@ + n@ + ")"@,
            TokenType::And => "and"@,
            TokenType::Class => "class"@,
            TokenType::Else => "else"@,
            TokenType::False => "false"@,
            TokenType::Fn => "fn"@,
            TokenType::For => "for"@,
            TokenType::If => "if"@,
            TokenType::Nil => "nil"@,
            TokenType::Or => "or"@,
            TokenType::Print => "print"@,
            TokenType::Return => "return"@,
            TokenType::This => "this"@,
            TokenType::True => "true"@,
            TokenType::Var => "var"@,
            TokenType::While => "while"@,
            TokenType::Eof => "Eof"@,
        }
    }

    /// Renders this category as text; total over the closed category set.
    pub fn text(&self) -> (r: String)
        ensures
            r@ == self.spec_text(),
    {
        match self {
            TokenType::LeftParen => String::from_str("("),
            TokenType::RightParen => String::from_str(")"),
            TokenType::LeftBrace => String::from_str("{"),
            TokenType::RightBrace => String::from_str("}"),
            TokenType::Comma => String::from_str(","),
            TokenType::Dot => String::from_str("."),
            TokenType::Minus => String::from_str("-"),
            TokenType::Plus => String::from_str("+"),
            TokenType::Semicolon => String::from_str(";"),
            TokenType::Slash => String::from_str("/"),
            TokenType::Star => String::from_str("*"),
            TokenType::Bang => String::from_str("!"),
            TokenType::BangEqual => String::from_str("!="),
            TokenType::Equal => String::from_str("="),
            TokenType::EqualEqual => String::from_str("=="),
            TokenType::Greater => String::from_str(">"),
            TokenType::GreaterEqual => String::from_str(">="),
            TokenType::Less => String::from_str("<"),
            TokenType::LessEqual => String::from_str("<="),
            TokenType::Identifier(t) => {
                let mut r = String::from_str("Identifier(");
                r.append(t.as_str());
                r.append(")");
                r
            },
            TokenType::String(s) => {
                let mut r = String::from_str("String(");
                r.append(s.as_str());
                r.append(")");
                r
            },
            TokenType::Number(n) => {
                let mut r = String::from_str("Number(");
                r.append(n.as_str());
                r.append(")");
                r
            },
            TokenType::And => String::from_str("and"),
            TokenType::Class => String::from_str("class"),
            TokenType::Else => String::from_str("else"),
            TokenType::False => String::from_str("false"),
            TokenType::Fn => String::from_str("fn"),
            TokenType::For => String::from_str("for"),
            TokenType::If => String::from_str("if"),
            TokenType::Nil => String::from_str("nil"),
            TokenType::Or => String::from_str("or"),
            TokenType::Print => String::from_str("print"),
            TokenType::Return => String::from_str("return"),
            TokenType::This => String::from_str("this"),
            TokenType::True => String::from_str("true"),
            TokenType::Var => String::from_str("var"),
            TokenType::While => String::from_str("while"),
            TokenType::Eof => String::from_str("Eof"),
        }
    }
}

/// One recognized lexical unit: its category, the exact source substring
/// scanned for it (string literals keep their delimiters here), and the
/// 1-based source line it ends on. Created only by the scanner and never
/// mutated afterwards.
#[derive(Clone, Debug, PartialEq)]
pub struct Token {
    pub token_type: TokenType,
    pub lexeme: String,
    pub line: usize,
}

} // verus!
