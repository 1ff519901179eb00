//! The expression tree: a recursive, immutable model of four node kinds, a
//! printer that renders it fully parenthesized in prefix form, and the
//! fallible bridge between tree operator/literal variants and token
//! categories.

use vstd::prelude::*;

use crate::token::TokenType;

verus! {

/// The failure value of a category-to-tree conversion: the token category
/// has no counterpart among the tree's variants.
#[derive(Clone, Copy, Debug, PartialEq, Eq)]
pub struct UnsupportedConversion;

/// A binary operator of the expression tree; maps 1:1 onto a subset of the
/// token categories.
#[derive(Clone, Copy, Debug, PartialEq, Eq)]
pub enum BinaryOperator {
    Slash,
    Star,
    BangEqual,
    Equal,
    EqualEqual,
    Greater,
    GreaterEqual,
    Less,
    LessEqual,
}

impl BinaryOperator {
    /// The token category this operator corresponds to.
    pub open spec fn spec_token_type(self) -> TokenType {
        match self {
            BinaryOperator::Slash => TokenType::Slash,
            BinaryOperator::Star => TokenType::Star,
            BinaryOperator::BangEqual => TokenType::BangEqual,
            BinaryOperator::Equal => TokenType::Equal,
            BinaryOperator::EqualEqual => TokenType::EqualEqual,
            BinaryOperator::Greater => TokenType::Greater,
            BinaryOperator::GreaterEqual => TokenType::GreaterEqual,
            BinaryOperator::Less => TokenType::Less,
            BinaryOperator::LessEqual => TokenType::LessEqual,
        }
    }

    /// The partial reverse mapping: succeeds exactly on the nine operator
    /// categories.
    pub open spec fn spec_from_token_type(token: TokenType) -> Result<
        BinaryOperator,
        UnsupportedConversion,
    > {
        match token {
            TokenType::Slash => Ok(BinaryOperator::Slash),
            TokenType::Star => Ok(BinaryOperator::Star),
            TokenType::BangEqual => Ok(BinaryOperator::BangEqual),
            TokenType::Equal => Ok(BinaryOperator::Equal),
            TokenType::EqualEqual => Ok(BinaryOperator::EqualEqual),
            TokenType::Greater => Ok(BinaryOperator::Greater),
            TokenType::GreaterEqual => Ok(BinaryOperator::GreaterEqual),
            TokenType::Less => Ok(BinaryOperator::Less),
            TokenType::LessEqual => Ok(BinaryOperator::LessEqual),
            _ => Err(UnsupportedConversion),
        }
    }

    /// Converts this operator to its token category.
    pub fn to_token_type(&self) -> (t: TokenType)
        ensures
            t == self.spec_token_type(),
    {
        match self {
            BinaryOperator::Slash => TokenType::Slash,
            BinaryOperator::Star => TokenType::Star,
            BinaryOperator::BangEqual => TokenType::BangEqual,
            BinaryOperator::Equal => TokenType::Equal,
            BinaryOperator::EqualEqual => TokenType::EqualEqual,
            BinaryOperator::Greater => TokenType::Greater,
            BinaryOperator::GreaterEqual => TokenType::GreaterEqual,
            BinaryOperator::Less => TokenType::Less,
            BinaryOperator::LessEqual => TokenType::LessEqual,
        }
    }

    /// Converts a token category to the operator it denotes, failing on every
    /// category that denotes none.
    pub fn from_token_type(token: TokenType) -> (r: Result<
        BinaryOperator,
        UnsupportedConversion,
    >)
        ensures
            r == BinaryOperator::spec_from_token_type(token),
    {
        match token {
            TokenType::Slash => Ok(BinaryOperator::Slash),
            TokenType::Star => Ok(BinaryOperator::Star),
            TokenType::BangEqual => Ok(BinaryOperator::BangEqual),
            TokenType::Equal => Ok(BinaryOperator::Equal),
            TokenType::EqualEqual => Ok(BinaryOperator::EqualEqual),
            TokenType::Greater => Ok(BinaryOperator::Greater),
            TokenType::GreaterEqual => Ok(BinaryOperator::GreaterEqual),
            TokenType::Less => Ok(BinaryOperator::Less),
            TokenType::LessEqual => Ok(BinaryOperator::LessEqual),
            _ => Err(UnsupportedConversion),
        }
    }

    /// Renders this operator's glyph through the token vocabulary.
    pub fn text(&self) -> (r: String)
        ensures
            r@ == self.spec_token_type().spec_text(),
    {
        self.to_token_type().text()
    }
}

/// Converting a binary operator to its token category and back yields the
/// original operator.
pub proof fn lemma_binary_operator_round_trip(op: BinaryOperator)
    ensures
        BinaryOperator::spec_from_token_type(op.spec_token_type()) == Ok::<
            BinaryOperator,
            UnsupportedConversion,
        >(op),
{
}

/// A unary operator of the expression tree.
#[derive(Clone, Copy, Debug, PartialEq, Eq)]
pub enum UnaryOperator {
    Minus,
    Bang,
}

impl UnaryOperator {
    /// The token category this operator corresponds to.
    pub open spec fn spec_token_type(self) -> TokenType {
        match self {
            UnaryOperator::Minus => TokenType::Minus,
            UnaryOperator::Bang => TokenType::Bang,
        }
    }

    /// The partial reverse mapping: succeeds exactly on the two unary
    /// operator categories.
    pub open spec fn spec_from_token_type(token: TokenType) -> Result<
        UnaryOperator,
        UnsupportedConversion,
    > {
        match token {
            TokenType::Minus => Ok(UnaryOperator::Minus),
            TokenType::Bang => Ok(UnaryOperator::Bang),
            _ => Err(UnsupportedConversion),
        }
    }

    /// Converts this operator to its token category.
    pub fn to_token_type(&self) -> (t: TokenType)
        ensures
            t == self.spec_token_type(),
    {
        match self {
            UnaryOperator::Minus => TokenType::Minus,
            UnaryOperator::Bang => TokenType::Bang,
        }
    }

    /// Converts a token category to the operator it denotes, failing on every
    /// category that denotes none.
    pub fn from_token_type(token: TokenType) -> (r: Result<
        UnaryOperator,
        UnsupportedConversion,
    >)
        ensures
            r == UnaryOperator::spec_from_token_type(token),
    {
        match token {
            TokenType::Minus => Ok(UnaryOperator::Minus),
            TokenType::Bang => Ok(UnaryOperator::Bang),
            _ => Err(UnsupportedConversion),
        }
    }

    /// Renders this operator's glyph through the token vocabulary.
    pub fn text(&self) -> (r: String)
        ensures
            r@ == self.spec_token_type().spec_text(),
    {
        self.to_token_type().text()
    }
}

/// Converting a unary operator to its token category and back yields the
/// original operator.
pub proof fn lemma_unary_operator_round_trip(op: UnaryOperator)
    ensures
        UnaryOperator::spec_from_token_type(op.spec_token_type()) == Ok::<
            UnaryOperator,
            UnsupportedConversion,
        >(op),
{
}

/// A literal leaf of the expression tree. A number carries its decimal text,
/// exactly as the matching token category does.
#[derive(Clone, Debug, PartialEq, Eq)]
pub enum Literal {
    Identifier(String),
    String(String),
    Number(String),
    Nil,
    True,
    False,
}

impl Literal {
    /// The token category this literal corresponds to.
    pub open spec fn spec_token_type(self) -> TokenType {
        match self {
            Literal::Identifier(t) => TokenType::Identifier(t),
            Literal::String(s) => TokenType::String(s),
            Literal::Number(n) => TokenType::Number(n),
            Literal::Nil => TokenType::Nil,
            Literal::True => TokenType::True,
            Literal::False => TokenType::False,
        }
    }

    /// The partial reverse mapping: succeeds exactly on the literal-bearing
    /// and value-keyword categories.
    pub open spec fn spec_from_token_type(token: TokenType) -> Result<
        Literal,
        UnsupportedConversion,
    > {
        match token {
            TokenType::Identifier(t) => Ok(Literal::Identifier(t)),
            TokenType::String(s) => Ok(Literal::String(s)),
            TokenType::Number(n) => Ok(Literal::Number(n)),
            TokenType::Nil => Ok(Literal::Nil),
            TokenType::True => Ok(Literal::True),
            TokenType::False => Ok(Literal::False),
            _ => Err(UnsupportedConversion),
        }
    }

    /// Converts this literal to its token category.
    pub fn to_token_type(self) -> (t: TokenType)
        ensures
            t == self.spec_token_type(),
    {
        match self {
            Literal::Identifier(t) => TokenType::Identifier(t),
            Literal::String(s) => TokenType::String(s),
            Literal::Number(n) => TokenType::Number(n),
            Literal::Nil => TokenType::Nil,
            Literal::True => TokenType::True,
            Literal::False => TokenType::False,
        }
    }

    /// Converts a token category to the literal it denotes, failing on every
    /// category that denotes none.
    pub fn from_token_type(token: TokenType) -> (r: Result<
        Literal,
        UnsupportedConversion,
    >)
        ensures
            r == Literal::spec_from_token_type(token),
    {
        match token {
            TokenType::Identifier(t) => Ok(Literal::Identifier(t)),
            TokenType::String(s) => Ok(Literal::String(s)),
            TokenType::Number(n) => Ok(Literal::Number(n)),
            TokenType::Nil => Ok(Literal::Nil),
            TokenType::True => Ok(Literal::True),
            TokenType::False => Ok(Literal::False),
            _ => Err(UnsupportedConversion),
        }
    }

    /// A literal's own textual form: the payload text itself for the
    /// literal-bearing variants, the keyword spelling for the rest.
    pub open spec fn spec_text(self) -> Seq<char> {
        match self {
            Literal::Identifier(t) => t@,
            Literal::String(s) => s@,
            Literal::Number(n) => n@,
            Literal::Nil => "nil"@,
            Literal::True => "true"@,
            Literal::False => "false"@,
        }
    }

    /// Renders this literal's own textual form.
    pub fn text(&self) -> (r: String)
        ensures
            r@ == self.spec_text(),
    {
        match self {
            Literal::Identifier(t) => String::from_str(t.as_str()),
            Literal::String(s) => String::from_str(s.as_str()),
            Literal::Number(n) => String::from_str(n.as_str()),
            Literal::Nil => String::from_str("nil"),
            Literal::True => String::from_str("true"),
            Literal::False => String::from_str("false"),
        }
    }
}

/// Converting a literal to its token category and back yields the original
/// literal.
pub proof fn lemma_literal_round_trip(value: Literal)
    ensures
        Literal::spec_from_token_type(value.spec_token_type()) == Ok::<
            Literal,
            UnsupportedConversion,
        >(value),
{
}

/// A recursive, immutable expression tree of four node kinds. Each non-leaf
/// node exclusively owns its children; the tree has no shared or back
/// references.
#[derive(Debug, PartialEq)]
pub enum Expr {
    Binary { left: Box<Expr>, operator: BinaryOperator, right: Box<Expr> },
    Grouping { expression: Box<Expr> },
    Literal { value: Literal },
    Unary { operator: UnaryOperator, right: Box<Expr> },
}

impl Expr {
    /// The deterministic rendering of a tree: a binary node as
    /// `(<operator> (<left>) (<right>))`, a grouping as `group <inner>`, a
    /// literal as its own textual form, and a unary node as
    /// `<operator> <right>`.
    pub open spec fn spec_print(self) -> Seq<char>
        decreases self,
    {
        match self {
            Expr::Binary { left, operator, right } => "("@ + operator.spec_token_type().spec_text()
                + " ("@ + left.spec_print() + ") ("@ + right.spec_print() + "))"@,
            Expr::Grouping { expression } => "group "@ + expression.spec_print(),
            Expr::Literal { value } => value.spec_text(),
            Expr::Unary { operator, right } => operator.spec_token_type().spec_text() + " "@
                + right.spec_print(),
        }
    }

    /// Renders this tree fully parenthesized, operators in prefix position.
    pub fn print(&self) -> (r: String)
        ensures
            r@ == self.spec_print(),
        decreases *self,
    {
        match self {
            Expr::Binary { left, operator, right } => {
                let mut r = String::from_str("(");
                let op = operator.text();
                r.append(op.as_str());
                r.append(" (");
                let l = left.print();
                r.append(l.as_str());
                r.append(") (");
                let t = right.print();
                r.append(t.as_str());
                r.append("))");
                proof {
                    assert(r@ =~= self.spec_print());
                }
                r
            },
            Expr::Grouping { expression } => {
                let mut r = String::from_str("group ");
                let inner = expression.print();
                r.append(inner.as_str());
                proof {
                    assert(r@ =~= self.spec_print());
                }
                r
            },
            Expr::Literal { value } => value.text(),
            Expr::Unary { operator, right } => {
                let mut r = operator.text();
                r.append(" ");
                let t = right.print();
                r.append(t.as_str());
                proof {
                    assert(r@ =~= self.spec_print());
                }
                r
            },
        }
    }
}

} // verus!
