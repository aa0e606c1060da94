//! Syntax trees as mathematical values, and how a tree is written out.
use vstd::prelude::*;
use crate::lexer::scan::Lexeme;

verus! {

/// A syntax tree. Texts are sequences of characters; a literal keeps the text
/// it was written with.
pub enum Syntax {
    Number(Seq<char>),
    Text(Seq<char>),
    Binary { op: Seq<char>, left: Box<Syntax>, right: Box<Syntax> },
    Unary { op: Seq<char>, operand: Box<Syntax> },
    Bind { name: Seq<char>, init: Box<Syntax> },
    Call { name: Seq<char> },
    Print { arg: Box<Syntax> },
}

/// A syntax tree with all that a node holds: beside its subtrees and texts,
/// the tokens that it keeps.
pub enum Tree {
    Number { token: Lexeme, is_neg: bool, value: Seq<char> },
    Text { token: Lexeme, value: Seq<char> },
    Binary { left: Box<Tree>, right: Box<Tree>, operator: Lexeme },
    Unary { node: Box<Tree>, operator: Lexeme },
    Bind { name: Seq<char>, init: Box<Tree> },
    Call { name: Seq<char> },
    Print { node: Box<Tree> },
}

impl Tree {
    /// The tree without what does not count for its meaning: of an operator
    /// token the text stays, of the token of a literal nothing.
    pub open spec fn syntax(self) -> Syntax
        decreases self,
    {
        match self {
            Tree::Number { value, .. } => Syntax::Number(value),
            Tree::Text { value, .. } => Syntax::Text(value),
            Tree::Binary { left, right, operator } => Syntax::Binary {
                op: operator.text,
                left: Box::new(left.syntax()),
                right: Box::new(right.syntax()),
            },
            Tree::Unary { node, operator } => Syntax::Unary {
                op: operator.text,
                operand: Box::new(node.syntax()),
            },
            Tree::Bind { name, init } => Syntax::Bind { name, init: Box::new(init.syntax()) },
            Tree::Call { name } => Syntax::Call { name },
            Tree::Print { node } => Syntax::Print { arg: Box::new(node.syntax()) },
        }
    }
}

/// The syntax of each tree of a sequence.
pub open spec fn outlines(trees: Seq<Tree>) -> Seq<Syntax> {
    trees.map_values(|t: Tree| t.syntax())
}

/// A string literal written out: its text between quotation marks.
pub open spec fn render_text(text: Seq<char>) -> Seq<char> {
    seq!['"'] + text + seq!['"']
}

/// A binary operation written out: `(left op right)`.
pub open spec fn render_binary(op: Seq<char>, left: Seq<char>, right: Seq<char>) -> Seq<char> {
    seq!['('] + left + seq![' '] + op + seq![' '] + right + seq![')']
}

/// A binding written out: `name = value`.
pub open spec fn render_bind(name: Seq<char>, init: Seq<char>) -> Seq<char> {
    name + seq![' ', '=', ' '] + init
}

/// A print statement written out: `print(value)`.
pub open spec fn render_print(arg: Seq<char>) -> Seq<char> {
    seq!['p', 'r', 'i', 'n', 't', '('] + arg + seq![')']
}

/// A tree written out. A number and a name stand as they are, a string
/// literal stands between quotation marks, a unary operation is its operator
/// followed by its operand.
pub open spec fn render(e: Syntax) -> Seq<char>
    decreases e,
{
    match e {
        Syntax::Number(text) => text,
        Syntax::Text(text) => render_text(text),
        Syntax::Binary { op, left, right } => render_binary(op, render(*left), render(*right)),
        Syntax::Unary { op, operand } => op + render(*operand),
        Syntax::Bind { name, init } => render_bind(name, render(*init)),
        Syntax::Call { name } => name,
        Syntax::Print { arg } => render_print(render(*arg)),
    }
}

} // verus!
