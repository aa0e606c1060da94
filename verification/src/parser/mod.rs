//! Syntax trees and the recursive-descent parser that builds them.
use vstd::prelude::*;
use crate::lexer::scan::Lexeme;
use crate::lexer::{lexemes, Token, TypeOfToken};
use crate::parser::grammar::{
    after, ahead, expr, expr_tail, factor, lemma_expr_progress, lemma_factor_progress,
    lemma_program_complete, lemma_term_progress, preceded, program, term, term_tail, token_at,
    Fault, Parsed,
};
use crate::parser::syntax::{
    render, render_binary, render_bind, render_print, render_text, Syntax, Tree,
};
use crate::text::same_text;

pub mod grammar;
pub mod roundtrip;
pub mod syntax;

verus! {

/// A node of a syntax tree. A node owns its subtrees.
///
/// Writing a tree out and copying it call themselves once for each level of
/// the tree.
#[derive(Debug, PartialEq)]
pub enum ASTNode {
    Number(NumberNode),
    String(StringNode),
    BinaryOp(BinaryOpNode),
    UnaryOp(UnaryOpNode),
    Variable(VariableNode),
    VariableCall(VariableCallNode),
    Print(PrintNode),
}

/// A number literal, kept as the text it was written with.
#[derive(Debug, PartialEq)]
pub struct NumberNode {
    pub token: Token,
    pub is_neg: bool,
    pub value: String,
}

/// A string literal, without its quotes.
#[derive(Debug, PartialEq)]
pub struct StringNode {
    pub token: Token,
    pub value: String,
}

/// An operator between two subtrees.
#[derive(Debug, PartialEq)]
pub struct BinaryOpNode {
    pub left: Box<ASTNode>,
    pub right: Box<ASTNode>,
    pub operator: Token,
}

/// An operator in front of a subtree.
#[derive(Debug, PartialEq)]
pub struct UnaryOpNode {
    pub node: Box<ASTNode>,
    pub operator: Token,
}

/// The binding of a name to the value of a subtree.
#[derive(Debug, PartialEq)]
pub struct VariableNode {
    pub name: String,
    pub value: Box<ASTNode>,
}

/// The use of a name.
#[derive(Debug, PartialEq)]
pub struct VariableCallNode {
    pub name: String,
}

/// The printing of the value of a subtree.
#[derive(Debug, PartialEq)]
pub struct PrintNode {
    pub node: Box<ASTNode>,
}

impl ASTNode {
    /// The tree as a mathematical value, with all that its nodes hold.
    pub open spec fn tree(&self) -> Tree
        decreases self,
    {
        match self {
            ASTNode::Number(n) => Tree::Number { token: n.token@, is_neg: n.is_neg, value: n.value@ },
            ASTNode::String(n) => Tree::Text { token: n.token@, value: n.value@ },
            ASTNode::BinaryOp(n) => Tree::Binary {
                left: Box::new(n.left.tree()),
                right: Box::new(n.right.tree()),
                operator: n.operator@,
            },
            ASTNode::UnaryOp(n) => Tree::Unary { node: Box::new(n.node.tree()), operator: n.operator@ },
            ASTNode::Variable(n) => Tree::Bind { name: n.name@, init: Box::new(n.value.tree()) },
            ASTNode::VariableCall(n) => Tree::Call { name: n.name@ },
            ASTNode::Print(n) => Tree::Print { node: Box::new(n.node.tree()) },
        }
    }

    /// The syntax of the tree: of an operator token only the text counts, of
    /// the token of a literal nothing.
    pub open spec fn syntax(&self) -> Syntax {
        self.tree().syntax()
    }

    /// A copy of the tree.
    pub fn copy(&self) -> (node: ASTNode)
        ensures
            node == *self,
        decreases self,
    {
        match self {
            ASTNode::Number(n) => ASTNode::Number(
                NumberNode { token: n.token.clone(), is_neg: n.is_neg, value: n.value.clone() },
            ),
            ASTNode::String(n) => ASTNode::String(
                StringNode { token: n.token.clone(), value: n.value.clone() },
            ),
            ASTNode::BinaryOp(n) => ASTNode::BinaryOp(
                BinaryOpNode {
                    left: Box::new(n.left.copy()),
                    right: Box::new(n.right.copy()),
                    operator: n.operator.clone(),
                },
            ),
            ASTNode::UnaryOp(n) => ASTNode::UnaryOp(
                UnaryOpNode { node: Box::new(n.node.copy()), operator: n.operator.clone() },
            ),
            ASTNode::Variable(n) => ASTNode::Variable(
                VariableNode { name: n.name.clone(), value: Box::new(n.value.copy()) },
            ),
            ASTNode::VariableCall(n) => ASTNode::VariableCall(VariableCallNode { name: n.name.clone() }),
            ASTNode::Print(n) => ASTNode::Print(PrintNode { node: Box::new(n.node.copy()) }),
        }
    }

    /// The tree written out.
    pub fn display(&self) -> (s: String)
        ensures
            s@ == render(self@),
        decreases self,
    {
        match self {
            ASTNode::Number(node) => String::from_str(node.display()),
            ASTNode::BinaryOp(node) => node.display(),
            ASTNode::UnaryOp(node) => node.display(),
            ASTNode::String(node) => node.display(),
            ASTNode::Variable(node) => node.display(),
            ASTNode::VariableCall(node) => node.display(),
            ASTNode::Print(node) => node.display(),
        }
    }
}

impl Clone for ASTNode {
    fn clone(&self) -> (node: ASTNode)
        ensures
            node == *self,
    {
        self.copy()
    }
}

impl Clone for NumberNode {
    fn clone(&self) -> (node: NumberNode)
        ensures
            node == *self,
    {
        NumberNode { token: self.token.clone(), is_neg: self.is_neg, value: self.value.clone() }
    }
}

impl Clone for StringNode {
    fn clone(&self) -> (node: StringNode)
        ensures
            node == *self,
    {
        StringNode { token: self.token.clone(), value: self.value.clone() }
    }
}

impl Clone for BinaryOpNode {
    fn clone(&self) -> (node: BinaryOpNode)
        ensures
            node == *self,
    {
        BinaryOpNode {
            left: Box::new(self.left.copy()),
            right: Box::new(self.right.copy()),
            operator: self.operator.clone(),
        }
    }
}

impl Clone for UnaryOpNode {
    fn clone(&self) -> (node: UnaryOpNode)
        ensures
            node == *self,
    {
        UnaryOpNode { node: Box::new(self.node.copy()), operator: self.operator.clone() }
    }
}

impl Clone for VariableNode {
    fn clone(&self) -> (node: VariableNode)
        ensures
            node == *self,
    {
        VariableNode { name: self.name.clone(), value: Box::new(self.value.copy()) }
    }
}

impl Clone for VariableCallNode {
    fn clone(&self) -> (node: VariableCallNode)
        ensures
            node == *self,
    {
        VariableCallNode { name: self.name.clone() }
    }
}

impl Clone for PrintNode {
    fn clone(&self) -> (node: PrintNode)
        ensures
            node == *self,
    {
        PrintNode { node: Box::new(self.node.copy()) }
    }
}

impl View for ASTNode {
    type V = Syntax;

    open spec fn view(&self) -> Syntax {
        self.syntax()
    }
}

impl NumberNode {
    pub fn new(token: Token, is_neg: bool) -> (node: NumberNode)
        ensures
            node.token == token,
            node.is_neg == is_neg,
            node.value@ == token.value@,
    {
        let value = token.value.clone();
        NumberNode { token, is_neg, value }
    }

    pub fn display(&self) -> (s: &str)
        ensures
            s@ == self.value@,
    {
        self.value.as_str()
    }
}

impl StringNode {
    pub fn new(token: Token) -> (node: StringNode)
        ensures
            node.token == token,
            node.value@ == token.value@,
    {
        let value = token.value.clone();
        StringNode { token, value }
    }

    /// The literal as it is written in a program: between quotation marks.
    pub fn display(&self) -> (s: String)
        ensures
            s@ == render_text(self.value@),
    {
        let mut s = String::new();
        s.push('"');
        s.append(self.value.as_str());
        s.push('"');
        assert(s@ =~= render_text(self.value@));
        s
    }
}

impl BinaryOpNode {
    pub fn new(left: ASTNode, right: ASTNode, operator: Token) -> (node: BinaryOpNode)
        ensures
            *node.left == left,
            *node.right == right,
            node.operator == operator,
    {
        BinaryOpNode { left: Box::new(left), right: Box::new(right), operator }
    }

    pub fn display(&self) -> (s: String)
        ensures
            s@ == render_binary(self.operator.value@, render(self.left@), render(self.right@)),
        decreases self,
    {
        let mut s = String::new();
        s.push('(');
        s.append(self.left.display().as_str());
        s.push(' ');
        s.append(self.operator.value.as_str());
        s.push(' ');
        s.append(self.right.display().as_str());
        s.push(')');
        assert(s@ =~= render_binary(self.operator.value@, render(self.left@), render(self.right@)));
        s
    }
}

impl UnaryOpNode {
    pub fn new(node: ASTNode, operator: Token) -> (unary: UnaryOpNode)
        ensures
            *unary.node == node,
            unary.operator == operator,
    {
        UnaryOpNode { node: Box::new(node), operator }
    }

    pub fn display(&self) -> (s: String)
        ensures
            s@ == self.operator.value@ + render(self.node@),
        decreases self,
    {
        let mut s = self.operator.value.clone();
        s.append(self.node.display().as_str());
        s
    }
}

impl VariableNode {
    pub fn new(name: String, value: Box<ASTNode>) -> (node: VariableNode)
        ensures
            node.name == name,
            node.value == value,
    {
        VariableNode { name, value }
    }

    pub fn display(&self) -> (s: String)
        ensures
            s@ == render_bind(self.name@, render(self.value@)),
        decreases self,
    {
        let mut s = self.name.clone();
        s.push(' ');
        s.push('=');
        s.push(' ');
        s.append(self.value.display().as_str());
        assert(s@ =~= render_bind(self.name@, render(self.value@)));
        s
    }
}

impl VariableCallNode {
    pub fn new(name: String) -> (node: VariableCallNode)
        ensures
            node.name == name,
    {
        VariableCallNode { name }
    }

    pub fn display(&self) -> (s: String)
        ensures
            s@ == self.name@,
    {
        self.name.clone()
    }
}

impl PrintNode {
    pub fn new(node: ASTNode) -> (print: PrintNode)
        ensures
            *print.node == node,
    {
        PrintNode { node: Box::new(node) }
    }

    pub fn display(&self) -> (s: String)
        ensures
            s@ == render_print(render(self.node@)),
        decreases self,
    {
        let mut s = String::new();
        s.push('p');
        s.push('r');
        s.push('i');
        s.push('n');
        s.push('t');
        s.push('(');
        s.append(self.node.display().as_str());
        s.push(')');
        assert(s@ =~= render_print(render(self.node@)));
        s
    }
}

/// Why parsing stopped.
#[derive(Debug, PartialEq)]
pub enum ParseError {
    /// The parser was given no token sequence at all.
    NoTokens,
    /// A token that begins no factor stands where a factor must begin. At the
    /// end of the tokens it is the end-of-input token.
    UnexpectedToken { found: Token },
    /// A reserved word other than `print` and `var` stands where a factor must begin.
    UnexpectedKeyword { found: Token },
    /// A token of the given kind and text had to come and `found` came. Where
    /// an identifier had to come, `text` is empty.
    Expected { kind: TypeOfToken, text: String, found: Token },
}

impl View for ParseError {
    type V = Fault;

    open spec fn view(&self) -> Fault {
        match self {
            ParseError::NoTokens => Fault::NoTokens,
            ParseError::UnexpectedToken { found } => Fault::UnexpectedToken { found: found@ },
            ParseError::UnexpectedKeyword { found } => Fault::UnexpectedKeyword { found: found@ },
            ParseError::Expected { kind, text, found } => Fault::Expected {
                kind: *kind,
                text: text@,
                found: found@,
            },
        }
    }
}

/// The views of a sequence of trees.
pub open spec fn syntaxes(nodes: Seq<ASTNode>) -> Seq<Syntax> {
    nodes.map_values(|n: ASTNode| n@)
}

/// The trees of a sequence of nodes.
pub open spec fn trees(nodes: Seq<ASTNode>) -> Seq<Tree> {
    nodes.map_values(|n: ASTNode| n.tree())
}

/// What a parsing function returns, as a mathematical value.
pub open spec fn outcome(r: Result<ASTNode, ParseError>) -> Result<Tree, Fault> {
    match r {
        Ok(node) => Ok(node.tree()),
        Err(e) => Err(e@),
    }
}

/// The syntax of parsed nodes is the syntax of their trees.
pub proof fn lemma_syntaxes_of_trees(nodes: Seq<ASTNode>)
    ensures
        syntaxes(nodes) == crate::parser::syntax::outlines(trees(nodes)),
{
    assert(syntaxes(nodes) =~= crate::parser::syntax::outlines(trees(nodes)));
}

/// A token sequence and a position in it.
///
/// Parsing calls itself once for each level of parentheses, signs, prints and
/// bindings that the input nests, so input that nests very deeply can exhaust
/// the call stack.
pub struct Parser {
    pub tokens: Option<Vec<Token>>,
    pub index: usize,
}

impl Parser {
    /// The tokens as mathematical values; none where the parser has no token
    /// sequence.
    pub open spec fn stream(&self) -> Seq<Lexeme> {
        match self.tokens {
            Some(tokens) => lexemes(tokens@),
            None => Seq::empty(),
        }
    }

    /// How many tokens are left to read.
    pub open spec fn remaining(&self) -> nat {
        if self.index < self.stream().len() {
            (self.stream().len() - self.index) as nat
        } else {
            0
        }
    }

    /// Whether a parsing function that began at `before` and returned `r` did
    /// what the grammar function with result `expected` says: the tokens are
    /// kept, and either there was no token sequence, which is reported and
    /// moves nothing, or the tree or fault and the new position are the
    /// expected ones.
    pub open spec fn follows(
        &self,
        before: Parser,
        r: Result<ASTNode, ParseError>,
        expected: Parsed,
    ) -> bool {
        &&& self.tokens == before.tokens
        &&& match before.tokens {
            None => outcome(r) == Err::<Tree, Fault>(Fault::NoTokens) && self.index == before.index,
            Some(_) => outcome(r) == expected.value && self.index == expected.next,
        }
    }

    pub fn new(tokens: Option<Vec<Token>>) -> (parser: Parser)
        ensures
            parser.tokens == tokens,
            parser.index == 0,
    {
        Parser { tokens, index: 0 }
    }

    /// Reads the token at the position and moves past it. Once the tokens are
    /// exhausted the end-of-input token is read and nothing moves.
    pub fn next_token(&mut self) -> (r: Result<Token, ParseError>)
        ensures
            final(self).tokens == old(self).tokens,
            old(self).tokens is None ==> r is Err && r->Err_0@ == Fault::NoTokens && final(self).index
                == old(self).index,
            old(self).tokens is Some ==> r is Ok && r->Ok_0@ == token_at(
                old(self).stream(),
                old(self).index as int,
            ) && final(self).index == after(old(self).stream(), old(self).index as int),
    {
        match &self.tokens {
            Some(tokens) => {
                if self.index < tokens.len() {
                    let token = tokens[self.index].clone();
                    self.index += 1;
                    Ok(token)
                } else {
                    Ok(Token::new(TypeOfToken::EOF, String::new(), 0, 0))
                }
            },
            None => Err(ParseError::NoTokens),
        }
    }

    /// The token at the position, which is not taken. Once the tokens are
    /// exhausted it is the last token again.
    pub fn peek_next_token(&self) -> (r: Result<&Token, ParseError>)
        ensures
            match self.tokens {
                Some(tokens) => if self.index < tokens@.len() {
                    r is Ok && *r->Ok_0 == tokens@[self.index as int]
                } else if tokens@.len() > 0 {
                    r is Ok && *r->Ok_0 == tokens@[tokens@.len() - 1]
                } else {
                    r is Err && r->Err_0@ == Fault::NoTokens
                },
                None => r is Err && r->Err_0@ == Fault::NoTokens,
            },
    {
        match &self.tokens {
            Some(tokens) => {
                if self.index < tokens.len() {
                    Ok(&tokens[self.index])
                } else if tokens.len() > 0 {
                    Ok(&tokens[tokens.len() - 1])
                } else {
                    Err(ParseError::NoTokens)
                }
            },
            None => Err(ParseError::NoTokens),
        }
    }

    /// Whether no token is left to read.
    pub fn is_at_end(&self) -> (b: bool)
        ensures
            b == (self.index >= self.stream().len()),
    {
        match &self.tokens {
            Some(tokens) => self.index >= tokens.len(),
            None => true,
        }
    }

    /// Whether an operator with text `a` or `b` is the next token.
    fn operator_ahead(&self, a: &str, b: &str) -> (yes: bool)
        ensures
            yes == ahead(self.stream(), self.index as int, a@, b@),
    {
        if self.is_at_end() {
            return false;
        }
        match self.peek_next_token() {
            Ok(token) => token.tot == TypeOfToken::OPERATOR && (same_text(&token.value, a) || same_text(
                &token.value,
                b,
            )),
            Err(_) => false,
        }
    }

    /// Parses statements until no token is left, or until the first fault.
    /// Without a token sequence there is nothing to parse, and no fault.
    pub fn parse(&mut self) -> (r: Result<Vec<ASTNode>, ParseError>)
        ensures
            final(self).tokens == old(self).tokens,
            final(self).index == program(old(self).stream(), old(self).index as int).next,
            r is Ok && old(self).index <= old(self).stream().len() ==> final(self).index == old(
                self,
            ).stream().len(),
            match r {
                Ok(nodes) => program(old(self).stream(), old(self).index as int).value == Ok::<
                    Seq<Tree>,
                    Fault,
                >(trees(nodes@)),
                Err(e) => program(old(self).stream(), old(self).index as int).value == Err::<
                    Seq<Tree>,
                    Fault,
                >(e@),
            },
    {
        let mut nodes: Vec<ASTNode> = Vec::new();
        let ghost ts = self.stream();
        let ghost start = self.index as int;
        proof {
            if start <= ts.len() {
                lemma_program_complete(ts, start);
            }
        }
        assert(preceded(trees(nodes@), program(ts, start)).value =~= program(ts, start).value) by {
            if let Ok(rest) = program(ts, start).value {
                assert(trees(nodes@) + rest =~= rest);
            }
        }
        while !self.is_at_end()
            invariant
                self.tokens == old(self).tokens,
                ts == old(self).stream(),
                start == old(self).index,
                start <= self.index,
                preceded(trees(nodes@), program(ts, self.index as int)).value == program(ts, start).value,
                preceded(trees(nodes@), program(ts, self.index as int)).next == program(ts, start).next,
            decreases ts.len() - self.index,
        {
            let ghost i = self.index as int;
            let ghost before = trees(nodes@);
            proof {
                lemma_expr_progress(ts, i);
            }
            match self.parse_expr() {
                Ok(node) => {
                    nodes.push(node);
                    proof {
                        let rest = program(ts, self.index as int);
                        assert(trees(nodes@) =~= before.push(node.tree()));
                        if let Ok(more) = rest.value {
                            assert(before.push(node.tree()) + more =~= before + (seq![node.tree()] + more));
                        }
                    }
                },
                Err(e) => {
                    return Err(e);
                },
            }
        }
        proof {
            assert(trees(nodes@) + Seq::<Tree>::empty() =~= trees(nodes@));
        }
        Ok(nodes)
    }

    /// Parses an expression: terms joined by `+` and `-`, from left to right.
    pub fn parse_expr(&mut self) -> (r: Result<ASTNode, ParseError>)
        ensures
            final(self).follows(*old(self), r, expr(old(self).stream(), old(self).index as int)),
        decreases old(self).remaining(), 4nat,
    {
        let ghost ts = self.stream();
        let ghost start = self.index as int;
        proof {
            lemma_term_progress(ts, start);
        }
        let mut node = match self.parse_term() {
            Ok(node) => node,
            Err(e) => {
                return Err(e);
            },
        };
        while self.operator_ahead("+", "-")
            invariant
                self.tokens == old(self).tokens,
                self.tokens is Some,
                ts == old(self).stream(),
                start == old(self).index,
                start < self.index <= ts.len(),
                expr_tail(ts, self.index as int, node.tree()) == expr(ts, start),
            decreases ts.len() - self.index,
        {
            let ghost i = self.index as int;
            proof {
                lemma_term_progress(ts, i + 1);
            }
            let token = match self.next_token() {
                Ok(token) => token,
                Err(e) => {
                    return Err(e);
                },
            };
            let right = match self.parse_term() {
                Ok(right) => right,
                Err(e) => {
                    return Err(e);
                },
            };
            node = ASTNode::BinaryOp(BinaryOpNode::new(node, right, token));
        }
        Ok(node)
    }

    /// Parses a term: factors joined by `*` and `/`, from left to right.
    pub fn parse_term(&mut self) -> (r: Result<ASTNode, ParseError>)
        ensures
            final(self).follows(*old(self), r, term(old(self).stream(), old(self).index as int)),
        decreases old(self).remaining(), 2nat,
    {
        let ghost ts = self.stream();
        let ghost start = self.index as int;
        proof {
            lemma_factor_progress(ts, start);
        }
        let mut node = match self.parse_factor() {
            Ok(node) => node,
            Err(e) => {
                return Err(e);
            },
        };
        while self.operator_ahead("*", "/")
            invariant
                self.tokens == old(self).tokens,
                self.tokens is Some,
                ts == old(self).stream(),
                start == old(self).index,
                start < self.index <= ts.len(),
                term_tail(ts, self.index as int, node.tree()) == term(ts, start),
            decreases ts.len() - self.index,
        {
            let ghost i = self.index as int;
            proof {
                lemma_factor_progress(ts, i + 1);
            }
            let token = match self.next_token() {
                Ok(token) => token,
                Err(e) => {
                    return Err(e);
                },
            };
            let right = match self.parse_factor() {
                Ok(right) => right,
                Err(e) => {
                    return Err(e);
                },
            };
            node = ASTNode::BinaryOp(BinaryOpNode::new(node, right, token));
        }
        Ok(node)
    }

    /// Parses a factor: a literal, a name, a negated factor, an expression in
    /// parentheses, a print statement or a binding.
    pub fn parse_factor(&mut self) -> (r: Result<ASTNode, ParseError>)
        ensures
            final(self).follows(*old(self), r, factor(old(self).stream(), old(self).index as int)),
        decreases old(self).remaining(), 0nat,
    {
        let token = match self.next_token() {
            Ok(token) => token,
            Err(e) => {
                return Err(e);
            },
        };
        if token.tot == TypeOfToken::NUMBER {
            Ok(ASTNode::Number(NumberNode::new(token, false)))
        } else if token.tot == TypeOfToken::OPERATOR && same_text(&token.value, "-") {
            match self.parse_factor() {
                Ok(node) => Ok(ASTNode::UnaryOp(UnaryOpNode::new(node, token))),
                Err(e) => Err(e),
            }
        } else if token.tot == TypeOfToken::BLOCKDELIMITERS && same_text(&token.value, "(") {
            match self.parse_expr() {
                Ok(node) => match self.expect_token(TypeOfToken::BLOCKDELIMITERS, ")") {
                    Ok(()) => Ok(node),
                    Err(e) => Err(e),
                },
                Err(e) => Err(e),
            }
        } else if token.tot == TypeOfToken::IDENTIFIER {
            Ok(ASTNode::VariableCall(VariableCallNode::new(token.value)))
        } else if token.tot == TypeOfToken::KEYWORD {
            if same_text(&token.value, "print") {
                match self.parse_expr() {
                    Ok(node) => Ok(ASTNode::Print(PrintNode::new(node))),
                    Err(e) => Err(e),
                }
            } else if same_text(&token.value, "var") {
                let name = match self.next_token() {
                    Ok(name) => name,
                    Err(e) => {
                        return Err(e);
                    },
                };
                if name.tot != TypeOfToken::IDENTIFIER {
                    return Err(
                        ParseError::Expected {
                            kind: TypeOfToken::IDENTIFIER,
                            text: String::new(),
                            found: name,
                        },
                    );
                }
                match self.expect_token(TypeOfToken::OPERATOR, "=") {
                    Ok(()) => {},
                    Err(e) => {
                        return Err(e);
                    },
                }
                match self.parse_expr() {
                    Ok(value) => Ok(ASTNode::Variable(VariableNode::new(name.value, Box::new(value)))),
                    Err(e) => Err(e),
                }
            } else {
                Err(ParseError::UnexpectedKeyword { found: token })
            }
        } else if token.tot == TypeOfToken::STRING {
            Ok(ASTNode::String(StringNode::new(token)))
        } else {
            Err(ParseError::UnexpectedToken { found: token })
        }
    }

    /// Reads the next token, which must have the given kind and text.
    pub fn expect_token(&mut self, expected_type: TypeOfToken, expected_value: &str) -> (r: Result<
        (),
        ParseError,
    >)
        ensures
            final(self).tokens == old(self).tokens,
            old(self).tokens is None ==> r is Err && r->Err_0@ == Fault::NoTokens && final(self).index
                == old(self).index,
            old(self).tokens is Some ==> final(self).index == after(
                old(self).stream(),
                old(self).index as int,
            ) && match crate::parser::grammar::expect(
                old(self).stream(),
                old(self).index as int,
                expected_type,
                expected_value@,
            ) {
                None => r is Ok,
                Some(f) => r is Err && r->Err_0@ == f,
            },
    {
        let token = match self.next_token() {
            Ok(token) => token,
            Err(e) => {
                return Err(e);
            },
        };
        if token.tot != expected_type || !same_text(&token.value, expected_value) {
            Err(
                ParseError::Expected {
                    kind: expected_type,
                    text: String::from_str(expected_value),
                    found: token,
                },
            )
        } else {
            Ok(())
        }
    }
}

} // verus!
