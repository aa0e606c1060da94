//! What tokenizing means: a function from source text to its tokens.
use vstd::prelude::*;
use crate::lexer::TypeOfToken;
use crate::text::{blank, digit, word_part, word_start};

verus! {

/// A token as a mathematical value: its kind, its text, and the line and
/// column (both counted from 1) of its first character.
pub struct Lexeme {
    pub kind: TypeOfToken,
    pub text: Seq<char>,
    pub line: nat,
    pub column: nat,
}

/// The line of position `i` of `s`: one more than the number of line feeds
/// before it.
pub open spec fn line_at(s: Seq<char>, i: int) -> nat
    decreases i,
{
    if i <= 0 {
        1
    } else if s[i - 1] == '\n' {
        line_at(s, i - 1) + 1
    } else {
        line_at(s, i - 1)
    }
}

/// The column of position `i` of `s`: one more than the number of characters
/// between the last line feed before it and itself.
pub open spec fn column_at(s: Seq<char>, i: int) -> nat
    decreases i,
{
    if i <= 0 {
        1
    } else if s[i - 1] == '\n' {
        1
    } else {
        column_at(s, i - 1) + 1
    }
}

/// The reserved words.
pub open spec fn keyword(w: Seq<char>) -> bool {
    ||| w == "var"@
    ||| w == "for"@
    ||| w == "in"@
    ||| w == "foreach"@
    ||| w == "if"@
    ||| w == "else"@
    ||| w == "elseif"@
    ||| w == "return"@
    ||| w == "void"@
    ||| w == "while"@
    ||| w == "once"@
    ||| w == "import"@
    ||| w == "define"@
    ||| w == "and"@
    ||| w == "not"@
    ||| w == "or"@
    ||| w == "true"@
    ||| w == "false"@
    ||| w == "break"@
    ||| w == "print"@
}

pub open spec fn punctuation(c: char) -> bool {
    c == '.' || c == ','
}

/// The operator symbols. Each is one character: two-character operators are
/// cut into two tokens, or into one token and a skipped character.
pub open spec fn operator(c: char) -> bool {
    c == '+' || c == '-' || c == '/' || c == '*' || c == '=' || c == '<' || c == '>'
}

pub open spec fn delimiter(c: char) -> bool {
    c == '{' || c == '}' || c == '(' || c == ')' || c == '[' || c == ']'
}

/// How many characters from position `i` on continue a word.
pub open spec fn word_len(s: Seq<char>, i: int) -> nat
    decreases s.len() - i,
{
    if 0 <= i < s.len() && word_part(s[i]) {
        1 + word_len(s, i + 1)
    } else {
        0
    }
}

/// How many characters from position `i` on continue a number: digits, and
/// one decimal point unless the number already has one (`dotted`).
pub open spec fn number_len(s: Seq<char>, i: int, dotted: bool) -> nat
    decreases s.len() - i,
{
    if 0 <= i < s.len() && (digit(s[i]) || (s[i] == '.' && !dotted)) {
        1 + number_len(s, i + 1, dotted || s[i] == '.')
    } else {
        0
    }
}

/// How many characters from position `i` on come before `stop` or the end of
/// the text.
pub open spec fn len_until(s: Seq<char>, i: int, stop: char) -> nat
    decreases s.len() - i,
{
    if 0 <= i < s.len() && s[i] != stop {
        1 + len_until(s, i + 1, stop)
    } else {
        0
    }
}

/// One step of the scan: the token found at a position, if any, and how many
/// characters the step takes beyond the first.
pub struct Cut {
    pub token: Option<Lexeme>,
    pub more: nat,
}

pub open spec fn lexeme_at(kind: TypeOfToken, text: Seq<char>, s: Seq<char>, i: int) -> Lexeme {
    Lexeme { kind, text, line: line_at(s, i), column: column_at(s, i) }
}

/// The step taken at position `i`, which is inside the text. The cases are
/// tried in this order: line feed, blank, word, number, string, punctuation,
/// operator, delimiter, comment; any other character is skipped.
pub open spec fn cut_at(s: Seq<char>, i: int) -> Cut
    recommends
        0 <= i < s.len(),
{
    let c = s[i];
    if c == '\n' {
        Cut { token: Some(lexeme_at(TypeOfToken::NEWLINE, "newline"@, s, i)), more: 0 }
    } else if blank(c) {
        Cut { token: None, more: 0 }
    } else if word_start(c) {
        let more = word_len(s, i + 1);
        let word = s.subrange(i, i + 1 + more);
        let kind = if keyword(word) {
            TypeOfToken::KEYWORD
        } else {
            TypeOfToken::IDENTIFIER
        };
        Cut { token: Some(lexeme_at(kind, word, s, i)), more }
    } else if digit(c) {
        let more = number_len(s, i + 1, false);
        Cut { token: Some(lexeme_at(TypeOfToken::NUMBER, s.subrange(i, i + 1 + more), s, i)), more }
    } else if c == '"' {
        let inside = len_until(s, i + 1, '"');
        if i + 1 + inside < s.len() {
            Cut {
                token: Some(lexeme_at(TypeOfToken::STRING, s.subrange(i + 1, i + 1 + inside), s, i)),
                more: inside + 1,
            }
        } else {
            Cut { token: None, more: inside }
        }
    } else if punctuation(c) {
        Cut { token: Some(lexeme_at(TypeOfToken::PUNCTUATION, seq![c], s, i)), more: 0 }
    } else if operator(c) {
        Cut { token: Some(lexeme_at(TypeOfToken::OPERATOR, seq![c], s, i)), more: 0 }
    } else if delimiter(c) {
        Cut { token: Some(lexeme_at(TypeOfToken::BLOCKDELIMITERS, seq![c], s, i)), more: 0 }
    } else if c == '#' {
        Cut { token: None, more: len_until(s, i + 1, '\n') }
    } else {
        Cut { token: None, more: 0 }
    }
}

/// The tokens of `s` from position `i` to its end.
pub open spec fn scan(s: Seq<char>, i: int) -> Seq<Lexeme>
    decreases s.len() - i,
    via scan_terminates
{
    if 0 <= i < s.len() {
        let cut = cut_at(s, i);
        let rest = scan(s, i + 1 + cut.more);
        match cut.token {
            Some(t) => seq![t] + rest,
            None => rest,
        }
    } else {
        Seq::empty()
    }
}

#[via_fn]
proof fn scan_terminates(s: Seq<char>, i: int) {
    if 0 <= i < s.len() {
        lemma_cut_bound(s, i);
    }
}

/// The tokens of a whole source text.
pub open spec fn tokens_of(s: Seq<char>) -> Seq<Lexeme> {
    scan(s, 0)
}

pub proof fn lemma_word_len_bound(s: Seq<char>, i: int)
    requires
        0 <= i <= s.len(),
    ensures
        i + word_len(s, i) <= s.len(),
    decreases s.len() - i,
{
    if i < s.len() && word_part(s[i]) {
        lemma_word_len_bound(s, i + 1);
    }
}

pub proof fn lemma_number_len_bound(s: Seq<char>, i: int, dotted: bool)
    requires
        0 <= i <= s.len(),
    ensures
        i + number_len(s, i, dotted) <= s.len(),
    decreases s.len() - i,
{
    if i < s.len() && (digit(s[i]) || (s[i] == '.' && !dotted)) {
        lemma_number_len_bound(s, i + 1, dotted || s[i] == '.');
    }
}

pub proof fn lemma_len_until_bound(s: Seq<char>, i: int, stop: char)
    requires
        0 <= i <= s.len(),
    ensures
        i + len_until(s, i, stop) <= s.len(),
        i + len_until(s, i, stop) < s.len() ==> s[i + len_until(s, i, stop)] == stop,
    decreases s.len() - i,
{
    if i < s.len() && s[i] != stop {
        lemma_len_until_bound(s, i + 1, stop);
    }
}

/// A step of the scan ends inside the text or at its end.
pub proof fn lemma_cut_bound(s: Seq<char>, i: int)
    requires
        0 <= i < s.len(),
    ensures
        i + 1 + cut_at(s, i).more <= s.len(),
{
    lemma_word_len_bound(s, i + 1);
    lemma_number_len_bound(s, i + 1, false);
    lemma_len_until_bound(s, i + 1, '"');
    lemma_len_until_bound(s, i + 1, '\n');
}

/// A position inside a text lies on a line and in a column that are no
/// larger than the position counted from 1.
pub proof fn lemma_position_bound(s: Seq<char>, i: int)
    requires
        0 <= i,
    ensures
        1 <= line_at(s, i) <= i + 1,
        1 <= column_at(s, i) <= i + 1,
    decreases i,
{
    if i > 0 {
        lemma_position_bound(s, i - 1);
    }
}

} // verus!
