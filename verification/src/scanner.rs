//! The scanner: a single-pass, stateful cursor over source text that emits
//! the complete token sequence for it, terminated by exactly one
//! end-of-input token. Lexical errors never abort the pass; they are
//! recorded as diagnostics and scanning resumes at the next character.

use vstd::prelude::*;
use vstd::string::*;

use crate::token::{Token, TokenType};

verus! {

/// Whether a character is a letter, as the scanner's identifier rule sees it.
pub uninterp spec fn alphabetic(c: char) -> bool;

/// Whether a character is a letter or a digit, as the scanner's identifier
/// rule sees it.
pub uninterp spec fn alphanumeric(c: char) -> bool;

/// Relies on char::is_alphabetic: whether a character is a letter depends on
/// the character alone.
#[verifier::external_body]
fn is_alphabetic_char(c: char) -> (r: bool)
    ensures
        r == alphabetic(c),
{
    c.is_alphabetic()
}

/// Relies on char::is_alphanumeric: whether a character is a letter or digit
/// depends on the character alone, and a control character such as a newline
/// is neither.
#[verifier::external_body]
fn is_alphanumeric_char(c: char) -> (r: bool)
    ensures
        r == alphanumeric(c),
        c == '\n' ==> !r,
{
    c.is_alphanumeric()
}

/// Whether a character is a decimal digit.
pub open spec fn is_digit_char(c: char) -> bool {
    48 <= c as u32 && c as u32 <= 57
}

/// Whether a character is blank: it produces no token.
pub open spec fn is_space_char(c: char) -> bool {
    c == ' ' || c == '\r' || c == '\t' || c == '\n'
}

fn is_digit(c: char) -> (r: bool)
    ensures
        r == is_digit_char(c),
{
    let u: u32 = c as u32;
    48 <= u && u <= 57
}

/// The number of newline characters among the first `n` characters of `s`.
pub open spec fn nl_upto(s: Seq<char>, n: int) -> int
    decreases n,
{
    if n <= 0 {
        0
    } else {
        nl_upto(s, n - 1) + if s[n - 1] == '\n' {
            1int
        } else {
            0int
        }
    }
}

/// Newlines counted over a prefix never outnumber its characters.
pub proof fn lemma_nl_upto_bounds(s: Seq<char>, n: int)
    ensures
        0 <= nl_upto(s, n),
        n >= 0 ==> nl_upto(s, n) <= n,
    decreases n,
{
    if n > 0 {
        lemma_nl_upto_bounds(s, n - 1);
    }
}

/// Consuming characters that are not newlines leaves the newline count
/// unchanged.
pub proof fn lemma_nl_upto_no_nl(s: Seq<char>, a: int, b: int)
    requires
        0 <= a <= b,
        forall|j: int| a <= j < b ==> s[j] != '\n',
    ensures
        nl_upto(s, b) == nl_upto(s, a),
    decreases b - a,
{
    if a < b {
        lemma_nl_upto_no_nl(s, a, b - 1);
    }
}

/// The position where a line comment opened before `i` ends: the first
/// newline at or after `i`, or the end of the text.
pub open spec fn end_of_comment(s: Seq<char>, i: int) -> int
    decreases s.len() - i,
{
    if i >= s.len() {
        s.len() as int
    } else if s[i] == '\n' {
        i
    } else {
        end_of_comment(s, i + 1)
    }
}

/// The position of the closing delimiter of a string literal whose contents
/// start at `i`, or the end of the text if it never closes.
pub open spec fn string_end(s: Seq<char>, i: int) -> int
    decreases s.len() - i,
{
    if i >= s.len() {
        s.len() as int
    } else if s[i] == '"' {
        i
    } else {
        string_end(s, i + 1)
    }
}

/// The position just past a maximal run of digits starting at `i`.
pub open spec fn digits_end(s: Seq<char>, i: int) -> int
    decreases s.len() - i,
{
    if i >= s.len() {
        s.len() as int
    } else if !is_digit_char(s[i]) {
        i
    } else {
        digits_end(s, i + 1)
    }
}

/// The position just past a maximal run of alphanumeric characters starting
/// at `i`.
pub open spec fn identifier_end(s: Seq<char>, i: int) -> int
    decreases s.len() - i,
{
    if i >= s.len() {
        s.len() as int
    } else if !alphanumeric(s[i]) {
        i
    } else {
        identifier_end(s, i + 1)
    }
}

/// The scan position `end_of_comment` yields stays within the text.
pub proof fn lemma_end_of_comment_bounds(s: Seq<char>, i: int)
    requires
        0 <= i <= s.len(),
    ensures
        i <= end_of_comment(s, i) <= s.len(),
    decreases s.len() - i,
{
    if i < s.len() && s[i] != '\n' {
        lemma_end_of_comment_bounds(s, i + 1);
    }
}

/// The scan position `string_end` yields stays within the text.
pub proof fn lemma_string_end_bounds(s: Seq<char>, i: int)
    requires
        0 <= i <= s.len(),
    ensures
        i <= string_end(s, i) <= s.len(),
    decreases s.len() - i,
{
    if i < s.len() && s[i] != '"' {
        lemma_string_end_bounds(s, i + 1);
    }
}

/// The scan position `digits_end` yields stays within the text.
pub proof fn lemma_digits_end_bounds(s: Seq<char>, i: int)
    requires
        0 <= i <= s.len(),
    ensures
        i <= digits_end(s, i) <= s.len(),
    decreases s.len() - i,
{
    if i < s.len() && is_digit_char(s[i]) {
        lemma_digits_end_bounds(s, i + 1);
    }
}

/// The scan position `identifier_end` yields stays within the text.
pub proof fn lemma_identifier_end_bounds(s: Seq<char>, i: int)
    requires
        0 <= i <= s.len(),
    ensures
        i <= identifier_end(s, i) <= s.len(),
    decreases s.len() - i,
{
    if i < s.len() && alphanumeric(s[i]) {
        lemma_identifier_end_bounds(s, i + 1);
    }
}

/// The reserved-word table: the category for an exact reserved spelling,
/// or nothing for every other lexeme.
pub open spec fn keyword_type(s: Seq<char>) -> Option<TokenType> {
    if s == "and"@ {
        Some(TokenType::And)
    } else if s == "class"@ {
        Some(TokenType::Class)
    } else if s == "else"@ {
        Some(TokenType::Else)
    } else if s == "false"@ {
        Some(TokenType::False)
    } else if s == "fn"@ {
        Some(TokenType::Fn)
    } else if s == "for"@ {
        Some(TokenType::For)
    } else if s == "if"@ {
        Some(TokenType::If)
    } else if s == "nil"@ {
        Some(TokenType::Nil)
    } else if s == "or"@ {
        Some(TokenType::Or)
    } else if s == "print"@ {
        Some(TokenType::Print)
    } else if s == "return"@ {
        Some(TokenType::Return)
    } else if s == "this"@ {
        Some(TokenType::This)
    } else if s == "true"@ {
        Some(TokenType::True)
    } else if s == "var"@ {
        Some(TokenType::Var)
    } else if s == "while"@ {
        Some(TokenType::While)
    } else {
        None
    }
}

fn text_is(text: &String, spelling: &str) -> (r: bool)
    ensures
        r == (text@ == spelling@),
{
    let s = String::from_str(spelling);
    text.eq(&s)
}

fn keyword_lookup(text: &String) -> (r: Option<TokenType>)
    ensures
        r == keyword_type(text@),
{
    if text_is(text, "and") {
        Some(TokenType::And)
    } else if text_is(text, "class") {
        Some(TokenType::Class)
    } else if text_is(text, "else") {
        Some(TokenType::Else)
    } else if text_is(text, "false") {
        Some(TokenType::False)
    } else if text_is(text, "fn") {
        Some(TokenType::Fn)
    } else if text_is(text, "for") {
        Some(TokenType::For)
    } else if text_is(text, "if") {
        Some(TokenType::If)
    } else if text_is(text, "nil") {
        Some(TokenType::Nil)
    } else if text_is(text, "or") {
        Some(TokenType::Or)
    } else if text_is(text, "print") {
        Some(TokenType::Print)
    } else if text_is(text, "return") {
        Some(TokenType::Return)
    } else if text_is(text, "this") {
        Some(TokenType::This)
    } else if text_is(text, "true") {
        Some(TokenType::True)
    } else if text_is(text, "var") {
        Some(TokenType::Var)
    } else if text_is(text, "while") {
        Some(TokenType::While)
    } else {
        None
    }
}

/// `post` extends `pre` by exactly one element at the end.
pub open spec fn extends_by_one<T>(pre: Seq<T>, post: Seq<T>) -> bool {
    post.len() == pre.len() + 1 && post.subrange(0, pre.len() as int) == pre
}

/// The category of a one-character token that needs no lookahead, or nothing
/// for every other character.
pub open spec fn single_char_type(c: char) -> Option<TokenType> {
    if c == '(' {
        Some(TokenType::LeftParen)
    } else if c == ')' {
        Some(TokenType::RightParen)
    } else if c == '{' {
        Some(TokenType::LeftBrace)
    } else if c == '}' {
        Some(TokenType::RightBrace)
    } else if c == ',' {
        Some(TokenType::Comma)
    } else if c == '.' {
        Some(TokenType::Dot)
    } else if c == '-' {
        Some(TokenType::Minus)
    } else if c == '+' {
        Some(TokenType::Plus)
    } else if c == ';' {
        Some(TokenType::Semicolon)
    } else if c == '*' {
        Some(TokenType::Star)
    } else {
        None
    }
}

/// Whether a character probes for a following `=` to pick between its one-
/// and two-character category.
pub open spec fn probes_equal(c: char) -> bool {
    c == '!' || c == '=' || c == '<' || c == '>'
}

/// The category a probing character resolves to, with or without the
/// following `=`.
pub open spec fn two_char_type(c: char, with_equal: bool) -> TokenType {
    if c == '!' {
        if with_equal {
            TokenType::BangEqual
        } else {
            TokenType::Bang
        }
    } else if c == '=' {
        if with_equal {
            TokenType::EqualEqual
        } else {
            TokenType::Equal
        }
    } else if c == '<' {
        if with_equal {
            TokenType::LessEqual
        } else {
            TokenType::Less
        }
    } else {
        if with_equal {
            TokenType::GreaterEqual
        } else {
            TokenType::Greater
        }
    }
}

/// The category of a source text that is exactly one single- or
/// two-character operator lexeme, fed alone, or nothing otherwise.
pub open spec fn operator_token(s: Seq<char>) -> Option<TokenType> {
    if s.len() == 1 {
        if single_char_type(s[0]) is Some {
            single_char_type(s[0])
        } else if probes_equal(s[0]) {
            Some(two_char_type(s[0], false))
        } else if s[0] == '/' {
            Some(TokenType::Slash)
        } else {
            None
        }
    } else if s.len() == 2 && probes_equal(s[0]) && s[1] == '=' {
        Some(two_char_type(s[0], true))
    } else {
        None
    }
}

/// One step appended exactly one token, whose lexeme is the span consumed by
/// the step and whose line is the line the step ended on, and recorded no
/// diagnostic.
pub open spec fn emits_token(pre: Scanner, post: Scanner) -> bool {
    &&& extends_by_one(pre.tokens@, post.tokens@)
    &&& post.errors@ == pre.errors@
    &&& post.tokens@.last().lexeme@ == pre.source@.subrange(pre.start as int, post.current as int)
    &&& post.tokens@.last().line == post.line
}

/// One step appended no token and recorded no diagnostic.
pub open spec fn emits_nothing(pre: Scanner, post: Scanner) -> bool {
    post.tokens@ == pre.tokens@ && post.errors@ == pre.errors@
}

/// One step appended no token but recorded exactly one diagnostic, with the
/// given message, on the line the step ended on.
pub open spec fn emits_error(pre: Scanner, post: Scanner, message: Seq<char>) -> bool {
    &&& post.tokens@ == pre.tokens@
    &&& extends_by_one(pre.errors@, post.errors@)
    &&& post.errors@.last().line == post.line
    &&& post.errors@.last().message@ == message
}

/// The complete per-character dispatch policy: what one scan step starting
/// at `pre.current` consumes and emits, for every character the step can
/// start on.
pub open spec fn scan_step(pre: Scanner, post: Scanner) -> bool {
    let s = pre.source@;
    let i = pre.current as int;
    let c = s[i];
    &&& (single_char_type(c) matches Some(tt) ==> {
        &&& post.current == i + 1
        &&& post.line == pre.line
        &&& emits_token(pre, post)
        &&& post.tokens@.last().token_type == tt
    })
    &&& (probes_equal(c) ==> {
        if i + 1 < s.len() && s[i + 1] == '=' {
            &&& post.current == i + 2
            &&& post.line == pre.line
            &&& emits_token(pre, post)
            &&& post.tokens@.last().token_type == two_char_type(c, true)
        } else {
            &&& post.current == i + 1
            &&& post.line == pre.line
            &&& emits_token(pre, post)
            &&& post.tokens@.last().token_type == two_char_type(c, false)
        }
    })
    &&& (c == '/' ==> {
        if i + 1 < s.len() && s[i + 1] == '/' {
            &&& post.current == end_of_comment(s, i + 2)
            &&& post.line == pre.line
            &&& emits_nothing(pre, post)
        } else {
            &&& post.current == i + 1
            &&& post.line == pre.line
            &&& emits_token(pre, post)
            &&& post.tokens@.last().token_type == TokenType::Slash
        }
    })
    &&& (c == ' ' || c == '\r' || c == '\t' ==> post.current == i + 1 && post.line == pre.line
        && emits_nothing(pre, post))
    &&& (c == '\n' ==> post.current == i + 1 && post.line == pre.line + 1 && emits_nothing(
        pre,
        post,
    ))
    &&& (c == '"' ==> {
        let e = string_end(s, i + 1);
        if e < s.len() {
            &&& post.current == e + 1
            &&& emits_token(pre, post)
            &&& post.tokens@.last().token_type matches TokenType::String(v) && v@ == s.subrange(
                i + 1,
                e,
            )
        } else {
            &&& post.current == s.len()
            &&& emits_error(pre, post, "Unterminated string."@)
        }
    })
    &&& (is_digit_char(c) ==> {
        let d = digits_end(s, i + 1);
        let e = if d < s.len() && s[d] == '.' && d + 1 < s.len() && is_digit_char(s[d + 1]) {
            digits_end(s, d + 1)
        } else {
            d
        };
        &&& post.current == e
        &&& post.line == pre.line
        &&& emits_token(pre, post)
        &&& post.tokens@.last().token_type matches TokenType::Number(v) && v@ == s.subrange(i, e)
    })
    &&& (single_char_type(c) is None && !probes_equal(c) && c != '/' && !is_space_char(c) && c
        != '"' && !is_digit_char(c) ==> {
        if alphabetic(c) {
            let e = identifier_end(s, i + 1);
            let lex = s.subrange(i, e);
            &&& post.current == e
            &&& post.line == pre.line
            &&& emits_token(pre, post)
            &&& (keyword_type(lex) matches Some(tt) ==> post.tokens@.last().token_type == tt)
            &&& (keyword_type(lex) is None ==> (post.tokens@.last().token_type matches
                TokenType::Identifier(v) && v@ == lex))
        } else {
            &&& post.current == i + 1
            &&& post.line == pre.line
            &&& emits_error(pre, post, "Unexpected Character."@)
        }
    })
}

/// The whole rest of one scan pass, as a relation: starting at position `i`
/// on line `line`, the pass must produce exactly the tokens `toks` and the
/// diagnostics `errs`, the last token being the end-of-input marker. This is
/// the scanner's complete functional specification.
pub open spec fn scan_from(
    s: Seq<char>,
    i: int,
    line: int,
    toks: Seq<Token>,
    errs: Seq<Diagnostic>,
) -> bool
    decreases s.len() - i,
        when 0 <= i
        via scan_from_decreases
{
    if i >= s.len() {
        &&& toks.len() == 1
        &&& toks[0].token_type is Eof
        &&& toks[0].lexeme@ == Seq::<char>::empty()
        &&& toks[0].line as int == line
        &&& errs.len() == 0
    } else {
        let c = s[i];
        if single_char_type(c) is Some {
            &&& toks.len() >= 1
            &&& toks[0].token_type == single_char_type(c).unwrap()
            &&& toks[0].lexeme@ == s.subrange(i, i + 1)
            &&& toks[0].line as int == line
            &&& scan_from(s, i + 1, line, toks.subrange(1, toks.len() as int), errs)
        } else if probes_equal(c) {
            let j = if i + 1 < s.len() && s[i + 1] == '=' {
                i + 2
            } else {
                i + 1
            };
            &&& toks.len() >= 1
            &&& toks[0].token_type == two_char_type(c, j == i + 2)
            &&& toks[0].lexeme@ == s.subrange(i, j)
            &&& toks[0].line as int == line
            &&& scan_from(s, j, line, toks.subrange(1, toks.len() as int), errs)
        } else if c == '/' {
            if i + 1 < s.len() && s[i + 1] == '/' {
                scan_from(s, end_of_comment(s, i + 2), line, toks, errs)
            } else {
                &&& toks.len() >= 1
                &&& toks[0].token_type == TokenType::Slash
                &&& toks[0].lexeme@ == s.subrange(i, i + 1)
                &&& toks[0].line as int == line
                &&& scan_from(s, i + 1, line, toks.subrange(1, toks.len() as int), errs)
            }
        } else if c == ' ' || c == '\r' || c == '\t' {
            scan_from(s, i + 1, line, toks, errs)
        } else if c == '\n' {
            scan_from(s, i + 1, line + 1, toks, errs)
        } else if c == '"' {
            let e = string_end(s, i + 1);
            if e < s.len() {
                let nline = line + nl_upto(s, e + 1) - nl_upto(s, i);
                &&& toks.len() >= 1
                &&& (toks[0].token_type matches TokenType::String(v) && v@ == s.subrange(i + 1, e))
                &&& toks[0].lexeme@ == s.subrange(i, e + 1)
                &&& toks[0].line as int == nline
                &&& scan_from(s, e + 1, nline, toks.subrange(1, toks.len() as int), errs)
            } else {
                let nline = line + nl_upto(s, s.len() as int) - nl_upto(s, i);
                &&& errs.len() >= 1
                &&& errs[0].line as int == nline
                &&& errs[0].message@ == "Unterminated string."@
                &&& scan_from(s, s.len() as int, nline, toks, errs.subrange(1, errs.len() as int))
            }
        } else if is_digit_char(c) {
            let d = digits_end(s, i + 1);
            let e = if d < s.len() && s[d] == '.' && d + 1 < s.len() && is_digit_char(s[d + 1]) {
                digits_end(s, d + 1)
            } else {
                d
            };
            &&& toks.len() >= 1
            &&& (toks[0].token_type matches TokenType::Number(v) && v@ == s.subrange(i, e))
            &&& toks[0].lexeme@ == s.subrange(i, e)
            &&& toks[0].line as int == line
            &&& scan_from(s, e, line, toks.subrange(1, toks.len() as int), errs)
        } else if alphabetic(c) {
            let e = identifier_end(s, i + 1);
            let lex = s.subrange(i, e);
            &&& toks.len() >= 1
            &&& (keyword_type(lex) matches Some(tt) ==> toks[0].token_type == tt)
            &&& (keyword_type(lex) is None ==> (toks[0].token_type matches TokenType::Identifier(v)
                && v@ == lex))
            &&& toks[0].lexeme@ == lex
            &&& toks[0].line as int == line
            &&& scan_from(s, e, line, toks.subrange(1, toks.len() as int), errs)
        } else {
            &&& errs.len() >= 1
            &&& errs[0].line as int == line
            &&& errs[0].message@ == "Unexpected Character."@
            &&& scan_from(s, i + 1, line, toks, errs.subrange(1, errs.len() as int))
        }
    }
}

#[via_fn]
proof fn scan_from_decreases(s: Seq<char>, i: int, line: int, toks: Seq<Token>, errs: Seq<
    Diagnostic,
>) {
    if 0 <= i && i < s.len() {
        if i + 1 < s.len() {
            lemma_end_of_comment_bounds(s, i + 2);
        }
        lemma_string_end_bounds(s, i + 1);
        lemma_digits_end_bounds(s, i + 1);
        let d = digits_end(s, i + 1);
        if d < s.len() {
            lemma_digits_end_bounds(s, d + 1);
        }
        lemma_identifier_end_bounds(s, i + 1);
    }
}

/// What one step appended at the end of `post`, viewed against `pre`:
/// splitting off the single new element behaves as expected under
/// concatenation with the rest of a pass.
proof fn lemma_appended_one<T>(pre: Seq<T>, post: Seq<T>, rest: Seq<T>)
    requires
        extends_by_one(pre, post),
    ensures
        ({
            let a = post.subrange(pre.len() as int, post.len() as int);
            &&& (a + rest).len() == rest.len() + 1
            &&& (a + rest)[0] == post.last()
            &&& (a + rest).subrange(1, (a + rest).len() as int) == rest
        }),
{
    let a = post.subrange(pre.len() as int, post.len() as int);
    assert((a + rest).subrange(1, (a + rest).len() as int) =~= rest);
}

/// When a step appended nothing, the empty slice is a concatenation
/// identity.
proof fn lemma_appended_none<T>(pre: Seq<T>, post: Seq<T>, rest: Seq<T>)
    requires
        post == pre,
    ensures
        post.subrange(pre.len() as int, post.len() as int) + rest == rest,
{
    assert(post.subrange(pre.len() as int, post.len() as int) + rest =~= rest);
}

/// One dispatch step preserves the pass's production: whatever the rest of
/// the pass must produce from the new state, prefixed with what the step
/// emitted, is exactly what the pass must produce from the old state.
proof fn lemma_scan_step_prepends(
    pre: Scanner,
    post: Scanner,
    toks: Seq<Token>,
    errs: Seq<Diagnostic>,
)
    requires
        pre.wf(),
        post.wf(),
        pre.start == pre.current,
        pre.current < pre.source@.len(),
        post.source == pre.source,
        post.start == pre.start,
        pre.current < post.current <= post.source@.len(),
        scan_step(pre, post),
        scan_from(pre.source@, post.current as int, post.line as int, toks, errs),
    ensures
        scan_from(
            pre.source@,
            pre.current as int,
            pre.line as int,
            post.tokens@.subrange(pre.tokens@.len() as int, post.tokens@.len() as int) + toks,
            post.errors@.subrange(pre.errors@.len() as int, post.errors@.len() as int) + errs,
        ),
{
    let s = pre.source@;
    let i = pre.current as int;
    let c = s[i];
    if single_char_type(c) is Some {
        lemma_appended_one(pre.tokens@, post.tokens@, toks);
        lemma_appended_none(pre.errors@, post.errors@, errs);
    } else if probes_equal(c) {
        lemma_appended_one(pre.tokens@, post.tokens@, toks);
        lemma_appended_none(pre.errors@, post.errors@, errs);
    } else if c == '/' {
        if i + 1 < s.len() && s[i + 1] == '/' {
            lemma_appended_none(pre.tokens@, post.tokens@, toks);
            lemma_appended_none(pre.errors@, post.errors@, errs);
        } else {
            lemma_appended_one(pre.tokens@, post.tokens@, toks);
            lemma_appended_none(pre.errors@, post.errors@, errs);
        }
    } else if c == ' ' || c == '\r' || c == '\t' || c == '\n' {
        lemma_appended_none(pre.tokens@, post.tokens@, toks);
        lemma_appended_none(pre.errors@, post.errors@, errs);
    } else if c == '"' {
        let e = string_end(s, i + 1);
        if e < s.len() {
            lemma_appended_one(pre.tokens@, post.tokens@, toks);
            lemma_appended_none(pre.errors@, post.errors@, errs);
        } else {
            lemma_appended_none(pre.tokens@, post.tokens@, toks);
            lemma_appended_one(pre.errors@, post.errors@, errs);
        }
    } else if is_digit_char(c) {
        lemma_appended_one(pre.tokens@, post.tokens@, toks);
        lemma_appended_none(pre.errors@, post.errors@, errs);
    } else if alphabetic(c) {
        lemma_appended_one(pre.tokens@, post.tokens@, toks);
        lemma_appended_none(pre.errors@, post.errors@, errs);
    } else {
        lemma_appended_none(pre.tokens@, post.tokens@, toks);
        lemma_appended_one(pre.errors@, post.errors@, errs);
    }
}

/// A recoverable lexical error: the 1-based line it was noticed on and its
/// message.
#[derive(Clone, Debug, PartialEq)]
pub struct Diagnostic {
    pub line: usize,
    pub message: String,
}

/// The scanner's cursor state, exclusively owned by one scan pass: the full
/// source text, the tokens and diagnostics accumulated so far, the start
/// offset of the current lexeme, the current scan offset, and the current
/// 1-based line.
pub struct Scanner {
    pub source: String,
    pub tokens: Vec<Token>,
    pub errors: Vec<Diagnostic>,
    pub start: usize,
    pub current: usize,
    pub line: usize,
}

impl Scanner {
    /// The cursor invariant: the lexeme start never passes the scan offset,
    /// the scan offset never passes the end of the source, and the line is
    /// one more than the number of newlines already consumed.
    pub open spec fn wf(self) -> bool {
        &&& self.start <= self.current <= self.source@.len()
        &&& self.source@.len() < usize::MAX
        &&& self.line as int == 1 + nl_upto(self.source@, self.current as int)
    }

    /// A cursor that has not consumed anything yet.
    pub open spec fn fresh(self) -> bool {
        &&& self.tokens@.len() == 0
        &&& self.errors@.len() == 0
        &&& self.start == 0
        &&& self.current == 0
        &&& self.line == 1
    }

    /// Builds a fresh cursor over `source`. Each scan pass must start from a
    /// fresh cursor; reusing one would leak stale offsets and line numbers.
    pub fn new(source: &str) -> (r: Scanner)
        requires
            source@.len() < usize::MAX,
        ensures
            r.wf(),
            r.fresh(),
            r.source@ == source@,
    {
        Scanner {
            source: source.to_owned(),
            tokens: Vec::new(),
            errors: Vec::new(),
            start: 0,
            current: 0,
            line: 1,
        }
    }

    /// The diagnostics recorded so far, in the order they were noticed.
    pub fn diagnostics(&self) -> (r: &Vec<Diagnostic>)
        ensures
            r@ == self.errors@,
    {
        &self.errors
    }

    fn is_at_end(&self) -> (r: bool)
        ensures
            r == (self.current >= self.source@.len()),
    {
        self.current >= self.source.as_str().unicode_len()
    }

    fn peek(&self) -> (c: char)
        requires
            self.current <= self.source@.len(),
        ensures
            self.current < self.source@.len() ==> c == self.source@[self.current as int],
            self.current >= self.source@.len() ==> c == '\0',
    {
        let len: usize = self.source.as_str().unicode_len();
        if self.current >= len {
            '\0'
        } else {
            self.source.as_str().get_char(self.current)
        }
    }

    fn peek_next(&self) -> (c: char)
        requires
            self.current <= self.source@.len(),
        ensures
            self.current + 1 < self.source@.len() ==> c == self.source@[self.current as int + 1],
            self.current + 1 >= self.source@.len() ==> c == '\0',
    {
        let len: usize = self.source.as_str().unicode_len();
        if self.current >= len {
            '\0'
        } else if self.current + 1 >= len {
            '\0'
        } else {
            self.source.as_str().get_char(self.current + 1)
        }
    }

    fn advance(&mut self) -> (c: char)
        requires
            old(self).current < old(self).source@.len(),
            old(self).source@.len() < usize::MAX,
        ensures
            c == old(self).source@[old(self).current as int],
            final(self).current == old(self).current + 1,
            final(self).source == old(self).source,
            final(self).tokens == old(self).tokens,
            final(self).errors == old(self).errors,
            final(self).start == old(self).start,
            final(self).line == old(self).line,
    {
        let c = self.source.as_str().get_char(self.current);
        self.current = self.current + 1;
        c
    }

    fn next_is(&mut self, expected: char) -> (r: bool)
        requires
            old(self).current <= old(self).source@.len(),
            old(self).source@.len() < usize::MAX,
        ensures
            final(self).source == old(self).source,
            final(self).tokens == old(self).tokens,
            final(self).errors == old(self).errors,
            final(self).start == old(self).start,
            final(self).line == old(self).line,
            old(self).current < old(self).source@.len() && old(self).source@[old(self).current as int]
                == expected ==> r && final(self).current == old(self).current + 1,
            !(old(self).current < old(self).source@.len() && old(self).source@[old(
                self,
            ).current as int] == expected) ==> !r && final(self).current == old(self).current,
    {
        if self.is_at_end() {
            false
        } else {
            let c = self.source.as_str().get_char(self.current);
            if c != expected {
                false
            } else {
                self.current = self.current + 1;
                true
            }
        }
    }

    fn add_token(&mut self, token_type: TokenType)
        requires
            old(self).start <= old(self).current <= old(self).source@.len(),
        ensures
            final(self).source == old(self).source,
            final(self).errors == old(self).errors,
            final(self).start == old(self).start,
            final(self).current == old(self).current,
            final(self).line == old(self).line,
            final(self).tokens@.len() == old(self).tokens@.len() + 1,
            final(self).tokens@.subrange(0, old(self).tokens@.len() as int) == old(self).tokens@,
            final(self).tokens@.last().token_type == token_type,
            final(self).tokens@.last().lexeme@ == final(self).source@.subrange(
                final(self).start as int,
                final(self).current as int,
            ),
            final(self).tokens@.last().line == final(self).line,
    {
        let lexeme = self.source.as_str().substring_char(self.start, self.current).to_owned();
        let line: usize = self.line;
        self.tokens.push(Token { token_type, lexeme, line });
        proof {
            assert(self.tokens@.subrange(0, old(self).tokens@.len() as int) =~= old(self).tokens@);
        }
    }

    fn string(&mut self)
        requires
            old(self).wf(),
            old(self).start + 1 == old(self).current,
            old(self).source@[old(self).start as int] == '"',
        ensures
            final(self).wf(),
            final(self).source == old(self).source,
            final(self).start == old(self).start,
            ({
                let s = old(self).source@;
                let e = string_end(s, old(self).current as int);
                if e < s.len() {
                    &&& final(self).current == e + 1
                    &&& emits_token(*old(self), *final(self))
                    &&& final(self).tokens@.last().token_type matches TokenType::String(v) && v@
                        == s.subrange(old(self).current as int, e)
                } else {
                    &&& final(self).current == s.len()
                    &&& emits_error(*old(self), *final(self), "Unterminated string."@)
                }
            }),
    {
        let ghost pre = *self;
        while !self.is_at_end() && self.peek() != '"'
            invariant
                self.wf(),
                self.source == pre.source,
                self.start == pre.start,
                self.tokens == pre.tokens,
                self.errors == pre.errors,
                pre.current <= self.current,
                pre.wf(),
                pre.start + 1 == pre.current,
                string_end(self.source@, pre.current as int) == string_end(
                    self.source@,
                    self.current as int,
                ),
            decreases self.source@.len() - self.current,
        {
            proof {
                lemma_nl_upto_bounds(self.source@, self.current as int);
            }
            let c = self.advance();
            if c == '\n' {
                self.line = self.line + 1;
            }
        }
        if self.is_at_end() {
            let line: usize = self.line;
            let ghost before = *self;
            self.errors.push(Diagnostic { line, message: "Unterminated string.".to_owned() });
            proof {
                assert(self.errors@.subrange(0, before.errors@.len() as int) =~= before.errors@);
            }
        } else {
            self.advance();
            let value = self.source.as_str().substring_char(
                self.start + 1,
                self.current - 1,
            ).to_owned();
            self.add_token(TokenType::String(value));
        }
    }

    fn number(&mut self)
        requires
            old(self).wf(),
            old(self).start + 1 == old(self).current,
            is_digit_char(old(self).source@[old(self).start as int]),
        ensures
            final(self).wf(),
            final(self).source == old(self).source,
            final(self).start == old(self).start,
            final(self).line == old(self).line,
            ({
                let s = old(self).source@;
                let d = digits_end(s, old(self).current as int);
                let e = if d < s.len() && s[d] == '.' && d + 1 < s.len() && is_digit_char(
                    s[d + 1],
                ) {
                    digits_end(s, d + 1)
                } else {
                    d
                };
                &&& final(self).current == e
                &&& emits_token(*old(self), *final(self))
                &&& final(self).tokens@.last().token_type matches TokenType::Number(v) && v@
                    == s.subrange(old(self).start as int, e)
            }),
    {
        let ghost pre = *self;
        while is_digit(self.peek())
            invariant
                self.wf(),
                self.source == pre.source,
                self.start == pre.start,
                self.tokens == pre.tokens,
                self.errors == pre.errors,
                self.line == pre.line,
                pre.current <= self.current,
                digits_end(self.source@, pre.current as int) == digits_end(
                    self.source@,
                    self.current as int,
                ),
            decreases self.source@.len() - self.current,
        {
            self.advance();
        }
        proof {
            assert(digits_end(self.source@, pre.current as int) == self.current as int);
        }
        if self.peek() == '.' && is_digit(self.peek_next()) {
            self.advance();
            let ghost mid = *self;
            while is_digit(self.peek())
                invariant
                    self.wf(),
                    self.source == mid.source,
                    self.start == mid.start,
                    self.tokens == mid.tokens,
                    self.errors == mid.errors,
                    self.line == mid.line,
                    mid.current <= self.current,
                    digits_end(self.source@, mid.current as int) == digits_end(
                        self.source@,
                        self.current as int,
                    ),
                decreases self.source@.len() - self.current,
            {
                self.advance();
            }
            proof {
                assert(digits_end(self.source@, mid.current as int) == self.current as int);
            }
        }
        let value = self.source.as_str().substring_char(self.start, self.current).to_owned();
        self.add_token(TokenType::Number(value));
    }

    fn identifier(&mut self)
        requires
            old(self).wf(),
            old(self).start + 1 == old(self).current,
        ensures
            final(self).wf(),
            final(self).source == old(self).source,
            final(self).start == old(self).start,
            final(self).line == old(self).line,
            ({
                let s = old(self).source@;
                let e = identifier_end(s, old(self).current as int);
                let lex = s.subrange(old(self).start as int, e);
                &&& final(self).current == e
                &&& emits_token(*old(self), *final(self))
                &&& (keyword_type(lex) matches Some(tt) ==> final(self).tokens@.last().token_type
                    == tt)
                &&& (keyword_type(lex) is None ==> (final(self).tokens@.last().token_type
                    matches TokenType::Identifier(v) && v@ == lex))
            }),
    {
        let ghost pre = *self;
        while !self.is_at_end() && is_alphanumeric_char(self.peek())
            invariant
                self.wf(),
                self.source == pre.source,
                self.start == pre.start,
                self.tokens == pre.tokens,
                self.errors == pre.errors,
                self.line == pre.line,
                pre.current <= self.current,
                identifier_end(self.source@, pre.current as int) == identifier_end(
                    self.source@,
                    self.current as int,
                ),
            decreases self.source@.len() - self.current,
        {
            self.advance();
        }
        let text = self.source.as_str().substring_char(self.start, self.current).to_owned();
        let looked_up = keyword_lookup(&text);
        match looked_up {
            Some(token_type) => self.add_token(token_type),
            None => self.add_token(TokenType::Identifier(text)),
        }
    }

    fn scan_token(&mut self)
        requires
            old(self).wf(),
            old(self).start == old(self).current,
            old(self).current < old(self).source@.len(),
        ensures
            final(self).wf(),
            final(self).source == old(self).source,
            final(self).start == old(self).start,
            old(self).current < final(self).current <= final(self).source@.len(),
            scan_step(*old(self), *final(self)),
    {
        let c = self.advance();
        match c {
            '(' => self.add_token(TokenType::LeftParen),
            ')' => self.add_token(TokenType::RightParen),
            '{' => self.add_token(TokenType::LeftBrace),
            '}' => self.add_token(TokenType::RightBrace),
            ',' => self.add_token(TokenType::Comma),
            '.' => self.add_token(TokenType::Dot),
            '-' => self.add_token(TokenType::Minus),
            '+' => self.add_token(TokenType::Plus),
            ';' => self.add_token(TokenType::Semicolon),
            '*' => self.add_token(TokenType::Star),
            '!' => {
                let with_equal = self.next_is('=');
                proof {
                    lemma_nl_upto_no_nl(
                        self.source@,
                        old(self).current as int,
                        self.current as int,
                    );
                }
                if with_equal {
                    self.add_token(TokenType::BangEqual)
                } else {
                    self.add_token(TokenType::Bang)
                }
            },
            '=' => {
                let with_equal = self.next_is('=');
                proof {
                    lemma_nl_upto_no_nl(
                        self.source@,
                        old(self).current as int,
                        self.current as int,
                    );
                }
                if with_equal {
                    self.add_token(TokenType::EqualEqual)
                } else {
                    self.add_token(TokenType::Equal)
                }
            },
            '<' => {
                let with_equal = self.next_is('=');
                proof {
                    lemma_nl_upto_no_nl(
                        self.source@,
                        old(self).current as int,
                        self.current as int,
                    );
                }
                if with_equal {
                    self.add_token(TokenType::LessEqual)
                } else {
                    self.add_token(TokenType::Less)
                }
            },
            '>' => {
                let with_equal = self.next_is('=');
                proof {
                    lemma_nl_upto_no_nl(
                        self.source@,
                        old(self).current as int,
                        self.current as int,
                    );
                }
                if with_equal {
                    self.add_token(TokenType::GreaterEqual)
                } else {
                    self.add_token(TokenType::Greater)
                }
            },
            '/' => {
                let comment = self.next_is('/');
                if comment {
                    proof {
                        lemma_nl_upto_no_nl(
                            self.source@,
                            old(self).current as int,
                            self.current as int,
                        );
                    }
                    let ghost pre = *self;
                    while !self.is_at_end() && self.peek() != '\n'
                        invariant
                            self.wf(),
                            self.source == pre.source,
                            self.start == pre.start,
                            self.tokens == pre.tokens,
                            self.errors == pre.errors,
                            self.line == pre.line,
                            pre.current <= self.current,
                            end_of_comment(self.source@, pre.current as int) == end_of_comment(
                                self.source@,
                                self.current as int,
                            ),
                        decreases self.source@.len() - self.current,
                    {
                        self.advance();
                    }
                } else {
                    self.add_token(TokenType::Slash)
                }
            },
            ' ' => (),
            '\r' => (),
            '\t' => (),
            '\n' => {
                proof {
                    lemma_nl_upto_bounds(self.source@, self.current as int);
                }
                self.line = self.line + 1;
            },
            '"' => {
                proof {
                    lemma_string_end_bounds(self.source@, self.current as int);
                }
                self.string();
            },
            _ => {
                if is_digit(c) {
                    proof {
                        lemma_digits_end_bounds(self.source@, self.current as int);
                        let d = digits_end(self.source@, self.current as int);
                        if d < self.source@.len() {
                            lemma_digits_end_bounds(self.source@, d + 1);
                        }
                    }
                    self.number();
                } else if is_alphabetic_char(c) {
                    proof {
                        lemma_identifier_end_bounds(self.source@, self.current as int);
                    }
                    self.identifier();
                } else {
                    let line: usize = self.line;
                    let ghost before = *self;
                    self.errors.push(
                        Diagnostic { line, message: "Unexpected Character.".to_owned() },
                    );
                    proof {
                        assert(self.errors@.subrange(0, before.errors@.len() as int)
                            =~= before.errors@);
                    }
                }
            },
        }
    }

    /// Runs the whole pass: consumes the source left to right, appends one
    /// token per recognized lexical unit and one diagnostic per lexical
    /// error, then terminates the sequence with exactly one end-of-input
    /// token carrying the final line number.
    pub fn scan_tokens(&mut self) -> (tokens: &Vec<Token>)
        requires
            old(self).wf(),
            old(self).fresh(),
        ensures
            final(self).wf(),
            final(self).source == old(self).source,
            final(self).current == final(self).source@.len(),
            tokens@ == final(self).tokens@,
            final(self).tokens@.len() >= 1,
            final(self).tokens@.last().token_type is Eof,
            final(self).tokens@.last().lexeme@ == Seq::<char>::empty(),
            final(self).tokens@.last().line as int == 1 + nl_upto(
                final(self).source@,
                final(self).source@.len() as int,
            ),
            (forall|j: int|
                0 <= j < final(self).source@.len() ==> is_space_char(
                    #[trigger] final(self).source@[j],
                )) ==> final(self).tokens@.len() == 1 && final(self).errors@.len() == 0,
            (operator_token(final(self).source@) matches Some(tt) ==> final(self).tokens@.len()
                == 2 && final(self).tokens@[0].token_type == tt),
            scan_from(final(self).source@, 0, 1, final(self).tokens@, final(self).errors@),
    {
        let ghost pre = *self;
        proof {
            assert forall|toks: Seq<Token>, errs: Seq<Diagnostic>|
                #[trigger] scan_from(
                    self.source@,
                    self.current as int,
                    self.line as int,
                    toks,
                    errs,
                ) implies scan_from(self.source@, 0, 1, self.tokens@ + toks, self.errors@ + errs) by {
                assert(self.tokens@ + toks =~= toks);
                assert(self.errors@ + errs =~= errs);
            };
        }
        while !self.is_at_end()
            invariant
                self.wf(),
                self.source == pre.source,
                (forall|j: int|
                    0 <= j < self.current ==> is_space_char(#[trigger] self.source@[j]))
                    ==> self.tokens@.len() == 0 && self.errors@.len() == 0,
                (operator_token(self.source@) matches Some(tt) ==> (self.current == 0
                    && self.tokens@.len() == 0) || (self.current == self.source@.len()
                    && self.tokens@.len() == 1 && self.tokens@[0].token_type == tt)),
                forall|toks: Seq<Token>, errs: Seq<Diagnostic>|
                    #[trigger] scan_from(
                        self.source@,
                        self.current as int,
                        self.line as int,
                        toks,
                        errs,
                    ) ==> scan_from(self.source@, 0, 1, self.tokens@ + toks, self.errors@ + errs),
            decreases self.source@.len() - self.current,
        {
            self.start = self.current;
            let ghost prev = *self;
            self.scan_token();
            proof {
                assert forall|toks: Seq<Token>, errs: Seq<Diagnostic>|
                    #[trigger] scan_from(
                        self.source@,
                        self.current as int,
                        self.line as int,
                        toks,
                        errs,
                    ) implies scan_from(
                    self.source@,
                    0,
                    1,
                    self.tokens@ + toks,
                    self.errors@ + errs,
                ) by {
                    lemma_scan_step_prepends(prev, *self, toks, errs);
                    let a = self.tokens@.subrange(
                        prev.tokens@.len() as int,
                        self.tokens@.len() as int,
                    );
                    let b = self.errors@.subrange(
                        prev.errors@.len() as int,
                        self.errors@.len() as int,
                    );
                    assert(prev.tokens@ + (a + toks) =~= self.tokens@ + toks);
                    assert(prev.errors@ + (b + errs) =~= self.errors@ + errs);
                };
            }
        }
        let line: usize = self.line;
        let ghost before = *self;
        self.tokens.push(Token { token_type: TokenType::Eof, lexeme: String::new(), line });
        proof {
            assert(self.tokens@.last().token_type is Eof);
            if operator_token(self.source@) is Some {
                assert(self.tokens@[0] == before.tokens@[0]);
            }
            let tail = seq![self.tokens@.last()];
            assert(tail[0].lexeme@ =~= Seq::<char>::empty());
            assert(scan_from(
                self.source@,
                self.source@.len() as int,
                self.line as int,
                tail,
                Seq::<Diagnostic>::empty(),
            ));
            assert(scan_from(
                self.source@,
                0,
                1,
                before.tokens@ + tail,
                before.errors@ + Seq::<Diagnostic>::empty(),
            ));
            assert(before.tokens@ + tail =~= self.tokens@);
            assert(before.errors@ + Seq::<Diagnostic>::empty() =~= self.errors@);
        }
        &self.tokens
    }
}

} // verus!
