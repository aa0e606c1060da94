//! Writing a tree out and reading it back gives the tree again, for trees
//! made of literals and arithmetic.
use vstd::prelude::*;
use crate::lexer::scan::{cut_at, len_until, number_len, scan, tokens_of, Lexeme};
use crate::lexer::TypeOfToken;
use crate::parser::grammar::{
    ahead, done, expect, expr, expr_tail, factor, program, term, term_tail, Fault,
};
use crate::parser::syntax::{outlines, render, render_binary, render_text, Syntax, Tree};
use crate::text::digit;

verus! {

/// A text that the tokenizer reads as one number: a digit, then digits with
/// at most one decimal point among them.
pub open spec fn numeral(text: Seq<char>) -> bool {
    &&& text.len() > 0
    &&& digit(text[0])
    &&& number_len(text, 1, false) == text.len() - 1
}

/// A text that can stand between quotation marks: it holds none itself. The
/// language has no way to write a quotation mark inside a string literal.
pub open spec fn quotable(text: Seq<char>) -> bool {
    forall|n: int| 0 <= n < text.len() ==> text[n] != '"'
}

/// The operators of the two tiers of the grammar.
pub open spec fn arithmetic_operator(op: Seq<char>) -> bool {
    op == seq!['+'] || op == seq!['-'] || op == seq!['*'] || op == seq!['/']
}

/// Trees made of literals and arithmetic: numerals, string literals without a
/// quotation mark in them, the sign `-` and the four operations.
pub open spec fn arithmetic(e: Syntax) -> bool
    decreases e,
{
    match e {
        Syntax::Number(text) => numeral(text),
        Syntax::Text(text) => quotable(text),
        Syntax::Unary { op, operand } => op == seq!['-'] && arithmetic(*operand),
        Syntax::Binary { op, left, right } => arithmetic_operator(op) && arithmetic(*left)
            && arithmetic(*right),
        _ => false,
    }
}

/// Whether `text` stands in `s` at position `i`.
pub open spec fn spelled(s: Seq<char>, i: int, text: Seq<char>) -> bool {
    &&& 0 <= i
    &&& i + text.len() <= s.len()
    &&& s.subrange(i, i + text.len()) == text
}

/// Whether what stands at position `j` of `s` ends a number: the end of the
/// text, a space or a closing parenthesis.
pub open spec fn closed(s: Seq<char>, j: int) -> bool {
    j == s.len() || s[j] == ' ' || s[j] == ')'
}

/// Whether the tokens from position `k` on are those of `s` from position `i`
/// on.
pub open spec fn aligned(ts: Seq<Lexeme>, k: int, s: Seq<char>, i: int) -> bool {
    &&& 0 <= k <= ts.len()
    &&& ts.skip(k) == scan(s, i)
}

proof fn lemma_symbols()
    ensures
        "-"@ == seq!['-'],
        "+"@ == seq!['+'],
        "*"@ == seq!['*'],
        "/"@ == seq!['/'],
        "("@ == seq!['('],
        ")"@ == seq![')'],
{
    reveal_strlit("-");
    reveal_strlit("+");
    reveal_strlit("*");
    reveal_strlit("/");
    reveal_strlit("(");
    reveal_strlit(")");
    assert("-"@ =~= seq!['-']);
    assert("+"@ =~= seq!['+']);
    assert("*"@ =~= seq!['*']);
    assert("/"@ =~= seq!['/']);
    assert("("@ =~= seq!['(']);
    assert(")"@ =~= seq![')']);
}

/// A numeral that stands in a text and is followed by nothing that continues
/// a number is scanned to its end.
proof fn lemma_number_len_same(t: Seq<char>, k: int, s: Seq<char>, i: int, dotted: bool)
    requires
        0 <= k <= t.len(),
        spelled(s, i, t),
        number_len(t, k, dotted) == t.len() - k,
        closed(s, i + t.len()),
    ensures
        number_len(s, i + k, dotted) == t.len() - k,
    decreases t.len() - k,
{
    if k < t.len() {
        assert(s[i + k] == s.subrange(i, i + t.len())[k]);
        lemma_number_len_same(t, k + 1, s, i, dotted || t[k] == '.');
    }
}

/// A text without quotation marks that stands in a source and is followed by
/// one is scanned to that mark.
proof fn lemma_len_until_same(t: Seq<char>, k: int, s: Seq<char>, i: int)
    requires
        0 <= k <= t.len(),
        quotable(t),
        spelled(s, i, t),
        i + t.len() < s.len(),
        s[i + t.len()] == '"',
    ensures
        len_until(s, i + k, '"') == t.len() - k,
    decreases t.len() - k,
{
    if k < t.len() {
        assert(s[i + k] == s.subrange(i, i + t.len())[k]);
        lemma_len_until_same(t, k + 1, s, i);
    }
}

/// Where the parts of a string literal stand in what is written of it.
proof fn lemma_text_layout(s: Seq<char>, i: int, t: Seq<char>)
    requires
        spelled(s, i, render_text(t)),
    ensures
        render_text(t).len() == t.len() + 2,
        s[i] == '"',
        spelled(s, i + 1, t),
        s[i + 1 + t.len()] == '"',
{
    let whole = render_text(t);
    let part = s.subrange(i, i + whole.len());
    let last = 1 + t.len() as int;
    assert(whole[0] == '"');
    assert(whole[last] == '"');
    assert(part[0] == s[i]);
    assert(part[last] == s[i + last]);
    assert forall|n: int| 0 <= n < t.len() implies s.subrange(i + 1, i + 1 + t.len())[n] == t[n] by {
        assert(part[1 + n] == s[i + 1 + n]);
        assert(whole[1 + n] == t[n]);
    }
    assert(s.subrange(i + 1, i + 1 + t.len()) =~= t);
}

/// What one step of the scan means for tokens that are aligned with the text.
proof fn lemma_cut(ts: Seq<Lexeme>, k: int, s: Seq<char>, i: int)
    requires
        aligned(ts, k, s, i),
        0 <= i < s.len(),
    ensures
        match cut_at(s, i).token {
            Some(t) => k < ts.len() && ts[k] == t && aligned(ts, k + 1, s, i + 1 + cut_at(s, i).more),
            None => aligned(ts, k, s, i + 1 + cut_at(s, i).more),
        },
{
    let cut = cut_at(s, i);
    let rest = scan(s, i + 1 + cut.more);
    match cut.token {
        Some(t) => {
            assert(ts.skip(k) == seq![t] + rest);
            assert(ts.skip(k).len() == 1 + rest.len());
            assert(ts.skip(k)[0] == t);
            assert forall|n: int| 0 <= n < rest.len() implies ts.skip(k + 1)[n] == rest[n] by {
                assert(ts.skip(k)[n + 1] == ts[k + 1 + n]);
                assert((seq![t] + rest)[n + 1] == rest[n]);
            }
            assert(ts.skip(k + 1) =~= rest);
        },
        None => {},
    }
}

/// Where the parts of a binary operation stand in what is written of it.
proof fn lemma_binary_layout(s: Seq<char>, i: int, c: char, l: Seq<char>, r: Seq<char>)
    requires
        spelled(s, i, render_binary(seq![c], l, r)),
    ensures
        render_binary(seq![c], l, r).len() == l.len() + r.len() + 5,
        s[i] == '(',
        spelled(s, i + 1, l),
        s[i + 1 + l.len()] == ' ',
        s[i + 2 + l.len()] == c,
        s[i + 3 + l.len()] == ' ',
        spelled(s, i + 4 + l.len(), r),
        s[i + 4 + l.len() + r.len()] == ')',
{
    let whole = render_binary(seq![c], l, r);
    let n = whole.len() as int;
    let part = s.subrange(i, i + n);
    let a = 1 + l.len() as int;
    assert(whole[0] == '(');
    assert(whole[a] == ' ');
    assert(whole[a + 1] == c);
    assert(whole[a + 2] == ' ');
    assert(whole[a + 3 + r.len()] == ')');
    assert(part[0] == s[i]);
    assert(part[a] == s[i + a]);
    assert(part[a + 1] == s[i + a + 1]);
    assert(part[a + 2] == s[i + a + 2]);
    assert(part[a + 3 + r.len()] == s[i + a + 3 + r.len()]);
    assert forall|n: int| 0 <= n < l.len() implies s.subrange(i + 1, i + 1 + l.len())[n] == l[n] by {
        assert(part[1 + n] == s[i + 1 + n]);
        assert(whole[1 + n] == l[n]);
    }
    assert(s.subrange(i + 1, i + 1 + l.len()) =~= l);
    assert forall|n: int| 0 <= n < r.len() implies s.subrange(i + a + 3, i + a + 3 + r.len())[n]
        == r[n] by {
        assert(part[a + 3 + n] == s[i + a + 3 + n]);
        assert(whole[a + 3 + n] == r[n]);
    }
    assert(s.subrange(i + a + 3, i + a + 3 + r.len()) =~= r);
}

/// Where the parts of a signed operand stand in what is written of it.
proof fn lemma_unary_layout(s: Seq<char>, i: int, x: Seq<char>)
    requires
        spelled(s, i, seq!['-'] + x),
    ensures
        s[i] == '-',
        spelled(s, i + 1, x),
{
    let whole = seq!['-'] + x;
    let part = s.subrange(i, i + whole.len());
    assert(whole[0] == '-');
    assert(part[0] == s[i]);
    assert forall|n: int| 0 <= n < x.len() implies s.subrange(i + 1, i + 1 + x.len())[n] == x[n] by {
        assert(part[1 + n] == s[i + 1 + n]);
        assert(whole[1 + n] == x[n]);
    }
    assert(s.subrange(i + 1, i + 1 + x.len()) =~= x);
}

/// Where a tree of literals and arithmetic stands written in a text, the
/// tokens of that place parse as a factor to the tree, and the tokens after
/// it are those of the text after it.
pub proof fn lemma_factor_of_render(e: Syntax, s: Seq<char>, i: int, ts: Seq<Lexeme>, k: int)
    requires
        arithmetic(e),
        spelled(s, i, render(e)),
        closed(s, i + render(e).len()),
        aligned(ts, k, s, i),
    ensures
        factor(ts, k).value is Ok,
        factor(ts, k).value->Ok_0.syntax() == e,
        k < factor(ts, k).next <= ts.len(),
        aligned(ts, factor(ts, k).next, s, i + render(e).len()),
    decreases e,
{
    lemma_symbols();
    match e {
        Syntax::Number(text) => {
            assert(s[i] == s.subrange(i, i + text.len())[0]);
            lemma_number_len_same(text, 1, s, i, false);
            lemma_cut(ts, k, s, i);
            assert(cut_at(s, i).more == text.len() - 1);
            assert(ts[k].kind == TypeOfToken::NUMBER);
            assert(ts[k].text == text);
        },
        Syntax::Text(text) => {
            lemma_text_layout(s, i, text);
            lemma_len_until_same(text, 0, s, i + 1);
            lemma_cut(ts, k, s, i);
            assert(cut_at(s, i).more == text.len() + 1);
            assert(ts[k].kind == TypeOfToken::STRING);
            assert(ts[k].text == text);
        },
        Syntax::Unary { op, operand } => {
            let x = render(*operand);
            lemma_unary_layout(s, i, x);
            lemma_cut(ts, k, s, i);
            assert(ts[k].kind == TypeOfToken::OPERATOR);
            assert(ts[k].text == seq!['-']);
            lemma_factor_of_render(*operand, s, i + 1, ts, k + 1);
        },
        Syntax::Binary { op, left, right } => {
            let l = render(*left);
            let r = render(*right);
            let c = op[0];
            assert(op =~= seq![c]);
            lemma_binary_layout(s, i, c, l, r);
            let a = i + 1 + l.len();
            let b = a + 3 + r.len();
            // the opening parenthesis
            lemma_cut(ts, k, s, i);
            assert(ts[k].kind == TypeOfToken::BLOCKDELIMITERS && ts[k].text == seq!['(']);
            // the left operand
            lemma_factor_of_render(*left, s, i + 1, ts, k + 1);
            let k1 = factor(ts, k + 1).next;
            // the space, the operator, the space
            lemma_cut(ts, k1, s, a);
            lemma_cut(ts, k1, s, a + 1);
            assert(ts[k1].kind == TypeOfToken::OPERATOR && ts[k1].text == op);
            lemma_cut(ts, k1 + 1, s, a + 2);
            // the right operand
            lemma_factor_of_render(*right, s, a + 3, ts, k1 + 1);
            let k2 = factor(ts, k1 + 1).next;
            // the closing parenthesis
            lemma_cut(ts, k2, s, b);
            assert(ts[k2].kind == TypeOfToken::BLOCKDELIMITERS && ts[k2].text == seq![')']);
            assert(!ahead(ts, k2, "*"@, "/"@));
            assert(!ahead(ts, k2, "+"@, "-"@));
            assert(expect(ts, k2, TypeOfToken::BLOCKDELIMITERS, ")"@) is None);
            let tl = factor(ts, k + 1).value->Ok_0;
            let tr = factor(ts, k1 + 1).value->Ok_0;
            let t = Tree::Binary { left: Box::new(tl), right: Box::new(tr), operator: ts[k1] };
            assert(t.syntax() == e);
            if c == '*' || c == '/' {
                assert(ahead(ts, k1, "*"@, "/"@));
                assert(term_tail(ts, k2, t) == done(k2, t));
                assert(term_tail(ts, k1, tl) == done(k2, t));
                assert(term(ts, k + 1) == done(k2, t));
                assert(expr_tail(ts, k2, t) == done(k2, t));
                assert(expr(ts, k + 1) == done(k2, t));
            } else {
                assert(c == '+' || c == '-');
                assert(!ahead(ts, k1, "*"@, "/"@));
                assert(ahead(ts, k1, "+"@, "-"@));
                assert(term_tail(ts, k1, tl) == done(k1, tl));
                assert(term(ts, k + 1) == done(k1, tl));
                assert(term_tail(ts, k2, tr) == done(k2, tr));
                assert(term(ts, k1 + 1) == done(k2, tr));
                assert(expr_tail(ts, k2, t) == done(k2, t));
                assert(expr_tail(ts, k1, tl) == done(k2, t));
                assert(expr(ts, k + 1) == done(k2, t));
            }
        },
        _ => {},
    }
}

/// A tree made of literals and arithmetic (numerals, string literals without
/// a quotation mark in them, the sign and the four operations), written out
/// and read back through the tokenizer and the grammar, is one statement, and
/// that statement has the syntax of the tree.
pub proof fn theorem_round_trip(e: Syntax)
    requires
        arithmetic(e),
    ensures
        program(tokens_of(render(e)), 0).value is Ok,
        outlines(program(tokens_of(render(e)), 0).value->Ok_0) == seq![e],
        program(tokens_of(render(e)), 0).next == tokens_of(render(e)).len(),
{
    let s = render(e);
    let ts = tokens_of(s);
    assert(ts.skip(0) =~= ts);
    assert(s.subrange(0, s.len() as int) =~= s);
    lemma_factor_of_render(e, s, 0, ts, 0);
    let n = factor(ts, 0).next;
    let t = factor(ts, 0).value->Ok_0;
    assert(ts.skip(n).len() == 0);
    assert(n == ts.len());
    assert(term_tail(ts, n, t) == done(n, t));
    assert(term(ts, 0) == done(n, t));
    assert(expr_tail(ts, n, t) == done(n, t));
    assert(expr(ts, 0) == done(n, t));
    assert(program(ts, n).value == Ok::<Seq<Tree>, Fault>(Seq::empty()));
    assert(seq![t] + Seq::<Tree>::empty() =~= seq![t]);
    assert(outlines(seq![t]) =~= seq![e]);
}

} // verus!
