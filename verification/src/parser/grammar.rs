//! The grammar as functions from a token sequence and a position to a tree
//! and the position after it.
//!
//! ```text
//! program = { expr }
//! expr    = term   { ("+" | "-") term }
//! term    = factor { ("*" | "/") factor }
//! factor  = NUMBER | STRING | IDENTIFIER | "-" factor | "(" expr ")"
//!         | "print" expr | "var" IDENTIFIER "=" expr
//! ```
//!
//! Parsing recurses as deeply as the input nests its parentheses and signs.
use vstd::prelude::*;
use crate::lexer::scan::Lexeme;
use crate::lexer::TypeOfToken;
use crate::parser::syntax::Tree;

verus! {

/// Why a token sequence is not a program.
pub enum Fault {
    /// The parser was given no token sequence at all.
    NoTokens,
    /// A token that begins no factor stands where a factor must begin.
    UnexpectedToken { found: Lexeme },
    /// A reserved word other than `print` and `var` stands where a factor must begin.
    UnexpectedKeyword { found: Lexeme },
    /// A token of the given kind and text had to come and `found` came. Where
    /// an identifier had to come, `text` is empty.
    Expected { kind: TypeOfToken, text: Seq<char>, found: Lexeme },
}

/// What parsing from a position gives: the tree or the fault, and the position
/// of the first token that was not taken.
pub struct Parsed {
    pub next: int,
    pub value: Result<Tree, Fault>,
}

/// What parsing a whole program from a position gives.
pub struct Program {
    pub next: int,
    pub value: Result<Seq<Tree>, Fault>,
}

/// The token that is read once the sequence is exhausted.
pub open spec fn end_of_input() -> Lexeme {
    Lexeme { kind: TypeOfToken::EOF, text: Seq::empty(), line: 0, column: 0 }
}

/// The token read at position `i`.
pub open spec fn token_at(ts: Seq<Lexeme>, i: int) -> Lexeme {
    if 0 <= i < ts.len() {
        ts[i]
    } else {
        end_of_input()
    }
}

/// The position after reading at position `i`: the end is never left.
pub open spec fn after(ts: Seq<Lexeme>, i: int) -> int {
    if 0 <= i < ts.len() {
        i + 1
    } else {
        i
    }
}

/// Whether an operator token with text `a` or `b` stands at position `i`.
pub open spec fn ahead(ts: Seq<Lexeme>, i: int, a: Seq<char>, b: Seq<char>) -> bool {
    &&& 0 <= i < ts.len()
    &&& ts[i].kind == TypeOfToken::OPERATOR
    &&& (ts[i].text == a || ts[i].text == b)
}

/// The fault of reading at position `i` when a token of the given kind and
/// text is required there, if it is one.
pub open spec fn expect(ts: Seq<Lexeme>, i: int, kind: TypeOfToken, text: Seq<char>) -> Option<Fault> {
    let t = token_at(ts, i);
    if t.kind == kind && t.text == text {
        None
    } else {
        Some(Fault::Expected { kind, text, found: t })
    }
}

pub open spec fn done(next: int, tree: Tree) -> Parsed {
    Parsed { next, value: Ok(tree) }
}

pub open spec fn failed(next: int, fault: Fault) -> Parsed {
    Parsed { next, value: Err(fault) }
}

/// A factor from position `i`.
pub open spec fn factor(ts: Seq<Lexeme>, i: int) -> Parsed
    decreases ts.len() - i, 0int,
{
    let t = token_at(ts, i);
    let j = after(ts, i);
    if t.kind == TypeOfToken::NUMBER {
        done(j, Tree::Number { token: t, is_neg: false, value: t.text })
    } else if t.kind == TypeOfToken::OPERATOR && t.text == "-"@ {
        let x = factor(ts, j);
        match x.value {
            Ok(e) => done(x.next, Tree::Unary { node: Box::new(e), operator: t }),
            Err(_) => x,
        }
    } else if t.kind == TypeOfToken::BLOCKDELIMITERS && t.text == "("@ {
        let x = expr(ts, j);
        match x.value {
            Ok(e) => match expect(ts, x.next, TypeOfToken::BLOCKDELIMITERS, ")"@) {
                None => done(after(ts, x.next), e),
                Some(f) => failed(after(ts, x.next), f),
            },
            Err(_) => x,
        }
    } else if t.kind == TypeOfToken::IDENTIFIER {
        done(j, Tree::Call { name: t.text })
    } else if t.kind == TypeOfToken::KEYWORD {
        if t.text == "print"@ {
            let x = expr(ts, j);
            match x.value {
                Ok(e) => done(x.next, Tree::Print { node: Box::new(e) }),
                Err(_) => x,
            }
        } else if t.text == "var"@ {
            let name = token_at(ts, j);
            let k = after(ts, j);
            if name.kind != TypeOfToken::IDENTIFIER {
                failed(
                    k,
                    Fault::Expected { kind: TypeOfToken::IDENTIFIER, text: Seq::empty(), found: name },
                )
            } else {
                match expect(ts, k, TypeOfToken::OPERATOR, "="@) {
                    Some(f) => failed(after(ts, k), f),
                    None => {
                        let x = expr(ts, after(ts, k));
                        match x.value {
                            Ok(e) => done(x.next, Tree::Bind { name: name.text, init: Box::new(e) }),
                            Err(_) => x,
                        }
                    },
                }
            }
        } else {
            failed(j, Fault::UnexpectedKeyword { found: t })
        }
    } else if t.kind == TypeOfToken::STRING {
        done(j, Tree::Text { token: t, value: t.text })
    } else {
        failed(j, Fault::UnexpectedToken { found: t })
    }
}

/// What follows a factor in a term: any number of `*` or `/` and a factor,
/// each joined to what stands on its left.
///
/// The tests on `next` are always met (`lemma_factor_progress`): they are
/// there so that the definition shows by itself that it is well founded.
pub open spec fn term_tail(ts: Seq<Lexeme>, i: int, left: Tree) -> Parsed
    decreases ts.len() - i, 1int,
{
    if ahead(ts, i, "*"@, "/"@) {
        let x = factor(ts, i + 1);
        match x.value {
            Ok(e) => if i < x.next <= ts.len() {
                term_tail(
                    ts,
                    x.next,
                    Tree::Binary { left: Box::new(left), right: Box::new(e), operator: ts[i] },
                )
            } else {
                x
            },
            Err(_) => x,
        }
    } else {
        done(i, left)
    }
}

/// A term from position `i`.
pub open spec fn term(ts: Seq<Lexeme>, i: int) -> Parsed
    decreases ts.len() - i, 2int,
{
    let x = factor(ts, i);
    match x.value {
        Ok(e) => if i < x.next <= ts.len() {
            term_tail(ts, x.next, e)
        } else {
            x
        },
        Err(_) => x,
    }
}

/// What follows a term in an expression: any number of `+` or `-` and a term,
/// each joined to what stands on its left.
pub open spec fn expr_tail(ts: Seq<Lexeme>, i: int, left: Tree) -> Parsed
    decreases ts.len() - i, 3int,
{
    if ahead(ts, i, "+"@, "-"@) {
        let x = term(ts, i + 1);
        match x.value {
            Ok(e) => if i < x.next <= ts.len() {
                expr_tail(
                    ts,
                    x.next,
                    Tree::Binary { left: Box::new(left), right: Box::new(e), operator: ts[i] },
                )
            } else {
                x
            },
            Err(_) => x,
        }
    } else {
        done(i, left)
    }
}

/// An expression from position `i`.
pub open spec fn expr(ts: Seq<Lexeme>, i: int) -> Parsed
    decreases ts.len() - i, 4int,
{
    let x = term(ts, i);
    match x.value {
        Ok(e) => if i < x.next <= ts.len() {
            expr_tail(ts, x.next, e)
        } else {
            x
        },
        Err(_) => x,
    }
}

/// The trees `before`, followed by what `p` gives.
pub open spec fn preceded(before: Seq<Tree>, p: Program) -> Program {
    Program {
        next: p.next,
        value: match p.value {
            Ok(trees) => Ok(before + trees),
            Err(f) => Err(f),
        },
    }
}

/// The statements from position `i` to the end of the tokens, or the first
/// fault.
pub open spec fn program(ts: Seq<Lexeme>, i: int) -> Program
    decreases ts.len() - i,
{
    if 0 <= i < ts.len() {
        let x = expr(ts, i);
        match x.value {
            Ok(e) => if i < x.next <= ts.len() {
                preceded(seq![e], program(ts, x.next))
            } else {
                Program { next: x.next, value: Ok(seq![e]) }
            },
            Err(f) => Program { next: x.next, value: Err(f) },
        }
    } else {
        Program { next: i, value: Ok(Seq::empty()) }
    }
}

/// A factor that is parsed takes at least one token and none beyond the end.
pub proof fn lemma_factor_progress(ts: Seq<Lexeme>, i: int)
    requires
        0 <= i,
    ensures
        factor(ts, i).value is Ok ==> i < factor(ts, i).next <= ts.len(),
    decreases ts.len() - i, 0int,
{
    let t = token_at(ts, i);
    let j = after(ts, i);
    if t.kind == TypeOfToken::OPERATOR && t.text == "-"@ {
        lemma_factor_progress(ts, j);
    } else if t.kind == TypeOfToken::BLOCKDELIMITERS && t.text == "("@ {
        lemma_expr_progress(ts, j);
    } else if t.kind == TypeOfToken::KEYWORD {
        if t.text == "print"@ {
            lemma_expr_progress(ts, j);
        } else if t.text == "var"@ {
            let name = token_at(ts, j);
            let k = after(ts, j);
            if name.kind == TypeOfToken::IDENTIFIER && expect(ts, k, TypeOfToken::OPERATOR, "="@)
                is None {
                lemma_expr_progress(ts, after(ts, k));
            }
        }
    }
}

pub proof fn lemma_term_tail_progress(ts: Seq<Lexeme>, i: int, left: Tree)
    requires
        0 <= i <= ts.len(),
    ensures
        term_tail(ts, i, left).value is Ok ==> i <= term_tail(ts, i, left).next <= ts.len(),
    decreases ts.len() - i, 1int,
{
    if ahead(ts, i, "*"@, "/"@) {
        let x = factor(ts, i + 1);
        lemma_factor_progress(ts, i + 1);
        if let Ok(e) = x.value {
            lemma_term_tail_progress(
                ts,
                x.next,
                Tree::Binary { left: Box::new(left), right: Box::new(e), operator: ts[i] },
            );
        }
    }
}

/// A term that is parsed takes at least one token and none beyond the end.
pub proof fn lemma_term_progress(ts: Seq<Lexeme>, i: int)
    requires
        0 <= i,
    ensures
        term(ts, i).value is Ok ==> i < term(ts, i).next <= ts.len(),
    decreases ts.len() - i, 2int,
{
    let x = factor(ts, i);
    lemma_factor_progress(ts, i);
    if let Ok(e) = x.value {
        lemma_term_tail_progress(ts, x.next, e);
    }
}

pub proof fn lemma_expr_tail_progress(ts: Seq<Lexeme>, i: int, left: Tree)
    requires
        0 <= i <= ts.len(),
    ensures
        expr_tail(ts, i, left).value is Ok ==> i <= expr_tail(ts, i, left).next <= ts.len(),
    decreases ts.len() - i, 3int,
{
    if ahead(ts, i, "+"@, "-"@) {
        let x = term(ts, i + 1);
        lemma_term_progress(ts, i + 1);
        if let Ok(e) = x.value {
            lemma_expr_tail_progress(
                ts,
                x.next,
                Tree::Binary { left: Box::new(left), right: Box::new(e), operator: ts[i] },
            );
        }
    }
}

/// An expression that is parsed takes at least one token and none beyond the
/// end.
pub proof fn lemma_expr_progress(ts: Seq<Lexeme>, i: int)
    requires
        0 <= i,
    ensures
        expr(ts, i).value is Ok ==> i < expr(ts, i).next <= ts.len(),
    decreases ts.len() - i, 4int,
{
    let x = term(ts, i);
    lemma_term_progress(ts, i);
    if let Ok(e) = x.value {
        lemma_expr_tail_progress(ts, x.next, e);
    }
}

/// A program that is parsed takes every token.
pub proof fn lemma_program_complete(ts: Seq<Lexeme>, i: int)
    requires
        0 <= i <= ts.len(),
    ensures
        program(ts, i).value is Ok ==> program(ts, i).next == ts.len(),
    decreases ts.len() - i,
{
    if i < ts.len() {
        let x = expr(ts, i);
        lemma_expr_progress(ts, i);
        if x.value is Ok {
            lemma_program_complete(ts, x.next);
        }
    }
}

} // verus!
