//! The tokenizer: one pass over the characters of the source, left to right.
use vstd::prelude::*;
use crate::text::{chars_of, is_blank, is_digit, is_word_part, is_word_start, same_text, string_of};
use crate::lexer::scan::{
    column_at, cut_at, delimiter, keyword, lemma_cut_bound, lemma_position_bound, len_until,
    line_at, number_len, operator, punctuation, scan, word_len, Lexeme,
};

pub mod scan;

verus! {

/// The kinds of token. The tokenizer makes no `WHITESPACE` and no `EOF`
/// token: blanks are dropped, and the tokens end where the source ends.
#[derive(Clone, Copy, Debug, PartialEq, Eq, Structural)]
pub enum TypeOfToken {
    NUMBER,
    STRING,
    IDENTIFIER,
    KEYWORD,
    OPERATOR,
    PUNCTUATION,
    BLOCKDELIMITERS,
    NEWLINE,
    WHITESPACE,
    EOF,
}

impl TypeOfToken {
    /// The kind's name as it is shown to a reader.
    pub open spec fn label(self) -> Seq<char> {
        match self {
            TypeOfToken::NUMBER => "Number"@,
            TypeOfToken::STRING => "String"@,
            TypeOfToken::IDENTIFIER => "Identifier"@,
            TypeOfToken::KEYWORD => "Keyword"@,
            TypeOfToken::OPERATOR => "Operator"@,
            TypeOfToken::PUNCTUATION => "Punctuation"@,
            TypeOfToken::BLOCKDELIMITERS => "Block Delimiters"@,
            TypeOfToken::NEWLINE => "Newline"@,
            TypeOfToken::WHITESPACE => "Whitespace"@,
            TypeOfToken::EOF => "EOF"@,
        }
    }

    /// The kind's name as it is written in the program.
    pub open spec fn tag(self) -> Seq<char> {
        match self {
            TypeOfToken::NUMBER => "NUMBER"@,
            TypeOfToken::STRING => "STRING"@,
            TypeOfToken::IDENTIFIER => "IDENTIFIER"@,
            TypeOfToken::KEYWORD => "KEYWORD"@,
            TypeOfToken::OPERATOR => "OPERATOR"@,
            TypeOfToken::PUNCTUATION => "PUNCTUATION"@,
            TypeOfToken::BLOCKDELIMITERS => "BLOCKDELIMITERS"@,
            TypeOfToken::NEWLINE => "NEWLINE"@,
            TypeOfToken::WHITESPACE => "WHITESPACE"@,
            TypeOfToken::EOF => "EOF"@,
        }
    }

    pub fn to_string(&self) -> (s: String)
        ensures
            s@ == self.label(),
    {
        match self {
            TypeOfToken::NUMBER => String::from_str("Number"),
            TypeOfToken::STRING => String::from_str("String"),
            TypeOfToken::IDENTIFIER => String::from_str("Identifier"),
            TypeOfToken::KEYWORD => String::from_str("Keyword"),
            TypeOfToken::OPERATOR => String::from_str("Operator"),
            TypeOfToken::PUNCTUATION => String::from_str("Punctuation"),
            TypeOfToken::BLOCKDELIMITERS => String::from_str("Block Delimiters"),
            TypeOfToken::NEWLINE => String::from_str("Newline"),
            TypeOfToken::WHITESPACE => String::from_str("Whitespace"),
            TypeOfToken::EOF => String::from_str("EOF"),
        }
    }

    fn tag_text(&self) -> (s: &'static str)
        ensures
            s@ == self.tag(),
    {
        match self {
            TypeOfToken::NUMBER => "NUMBER",
            TypeOfToken::STRING => "STRING",
            TypeOfToken::IDENTIFIER => "IDENTIFIER",
            TypeOfToken::KEYWORD => "KEYWORD",
            TypeOfToken::OPERATOR => "OPERATOR",
            TypeOfToken::PUNCTUATION => "PUNCTUATION",
            TypeOfToken::BLOCKDELIMITERS => "BLOCKDELIMITERS",
            TypeOfToken::NEWLINE => "NEWLINE",
            TypeOfToken::WHITESPACE => "WHITESPACE",
            TypeOfToken::EOF => "EOF",
        }
    }
}

/// A classified piece of source text, with the place where it begins.
#[derive(Debug, PartialEq, Eq)]
pub struct Token {
    pub tot: TypeOfToken,
    pub value: String,
    pub line: usize,
    pub column: usize,
}

impl View for Token {
    type V = Lexeme;

    open spec fn view(&self) -> Lexeme {
        Lexeme {
            kind: self.tot,
            text: self.value@,
            line: self.line as nat,
            column: self.column as nat,
        }
    }
}

impl Clone for Token {
    fn clone(&self) -> (t: Token)
        ensures
            t == *self,
    {
        Token { tot: self.tot, value: self.value.clone(), line: self.line, column: self.column }
    }
}

impl Token {
    pub fn new(tot: TypeOfToken, value: String, line: usize, column: usize) -> (t: Token)
        ensures
            t == (Token { tot, value, line, column }),
    {
        Token { tot, value, line, column }
    }

    /// The text `Token: K, Value: V`, with the kind as written in the program.
    pub fn to_string(&self) -> (s: String)
        ensures
            s@ == "Token: "@ + self.tot.tag() + ", Value: "@ + self.value@,
    {
        let mut s = String::from_str("Token: ");
        s.append(self.tot.tag_text());
        s.append(", Value: ");
        s.append(self.value.as_str());
        s
    }
}

/// The views of a sequence of tokens.
pub open spec fn lexemes(tokens: Seq<Token>) -> Seq<Lexeme> {
    tokens.map_values(|t: Token| t@)
}

/// Where a lexer stands: the source, the number of characters taken, and the
/// line and column of the next character, both counted from 1.
pub struct Cursor {
    pub source: Seq<char>,
    pub index: nat,
    pub line: nat,
    pub column: nat,
}

/// A source text and a position in it.
pub struct Lexer {
    src: Vec<char>,
    index: usize,
    /// Line feeds taken so far.
    line: usize,
    /// Characters taken since the last line feed.
    column: usize,
}

impl View for Lexer {
    type V = Cursor;

    closed spec fn view(&self) -> Cursor {
        Cursor {
            source: self.src@,
            index: self.index as nat,
            line: self.line as nat + 1,
            column: self.column as nat + 1,
        }
    }
}

/// Whether a word is reserved.
pub fn is_keyword(word: &String) -> (b: bool)
    ensures
        b == keyword(word@),
{
    same_text(word, "var") || same_text(word, "for") || same_text(word, "in") || same_text(
        word,
        "foreach",
    ) || same_text(word, "if") || same_text(word, "else") || same_text(word, "elseif")
        || same_text(word, "return") || same_text(word, "void") || same_text(word, "while")
        || same_text(word, "once") || same_text(word, "import") || same_text(word, "define")
        || same_text(word, "and") || same_text(word, "not") || same_text(word, "or") || same_text(
        word,
        "true",
    ) || same_text(word, "false") || same_text(word, "break") || same_text(word, "print")
}

/// The string made of one character.
pub fn char_text(c: char) -> (s: String)
    ensures
        s@ == seq![c],
{
    let mut s = String::new();
    s.push(c);
    assert(s@ =~= seq![c]);
    s
}

pub fn is_punctuation(c: char) -> (b: bool)
    ensures
        b == punctuation(c),
{
    c == '.' || c == ','
}

pub fn is_operator(c: char) -> (b: bool)
    ensures
        b == operator(c),
{
    c == '+' || c == '-' || c == '/' || c == '*' || c == '=' || c == '<' || c == '>'
}

pub fn is_delimiter(c: char) -> (b: bool)
    ensures
        b == delimiter(c),
{
    c == '{' || c == '}' || c == '(' || c == ')' || c == '[' || c == ']'
}

impl Lexer {
    /// The position is inside the source or at its end, and the line and
    /// column are those of the position.
    pub open spec fn wf(&self) -> bool {
        &&& self@.index <= self@.source.len()
        &&& self@.line == line_at(self@.source, self@.index as int)
        &&& self@.column == column_at(self@.source, self@.index as int)
    }

    pub fn new(src: String) -> (lexer: Lexer)
        ensures
            lexer.wf(),
            lexer@.source == src@,
            lexer@.index == 0,
    {
        Lexer { src: chars_of(src.as_str()), index: 0, line: 0, column: 0 }
    }

    /// Takes the next character. At the end of the source nothing is taken and
    /// the result is U+0000.
    pub fn next_char(&mut self) -> (c: char)
        requires
            old(self).wf(),
        ensures
            final(self).wf(),
            final(self)@.source == old(self)@.source,
            old(self)@.index < old(self)@.source.len() ==> c == old(self)@.source[old(self)@.index as int]
                && final(self)@.index == old(self)@.index + 1,
            old(self)@.index >= old(self)@.source.len() ==> c == '\0' && final(self)@.index == old(
                self,
            )@.index,
    {
        if self.index >= self.src.len() {
            return '\0';
        }
        proof {
            lemma_position_bound(self.src@, self.index as int);
        }
        let c = self.src[self.index];
        self.index += 1;
        if c == '\n' {
            self.line += 1;
            self.column = 0;
        } else {
            self.column += 1;
        }
        c
    }

    /// The next character, which is not taken. At the end of the source the
    /// result is U+0000.
    pub fn peek_next_char(&self) -> (c: char)
        requires
            self.wf(),
        ensures
            self@.index < self@.source.len() ==> c == self@.source[self@.index as int],
            self@.index >= self@.source.len() ==> c == '\0',
    {
        if self.index >= self.src.len() {
            return '\0';
        }
        self.src[self.index]
    }

    /// Cuts the rest of the source into tokens. All of it is taken. Nothing
    /// marks the end: the tokens simply stop.
    pub fn tokenize(&mut self) -> (tokens: Vec<Token>)
        requires
            old(self).wf(),
        ensures
            final(self).wf(),
            final(self)@.source == old(self)@.source,
            final(self)@.index == old(self)@.source.len(),
            lexemes(tokens@) == scan(old(self)@.source, old(self)@.index as int),
    {
        let mut tokens: Vec<Token> = Vec::new();
        let ghost s = self@.source;
        let ghost start = self@.index as int;
        assert(lexemes(tokens@) + scan(s, start) =~= scan(s, start));
        while !self.at_end()
            invariant
                self.wf(),
                self@.source == s,
                start <= self@.index <= s.len(),
                lexemes(tokens@) + scan(s, self@.index as int) == scan(s, start),
            decreases s.len() - self@.index,
        {
            let ghost i = self@.index as int;
            let ghost before = lexemes(tokens@);
            proof {
                lemma_cut_bound(s, i);
                lemma_position_bound(s, i);
            }
            assert(i < self.src.len());
            let line = self.line + 1;
            let column = self.column + 1;
            let begin = self.index;
            let c = self.next_char();
            if c == '\n' {
                tokens.push(Token::new(TypeOfToken::NEWLINE, String::from_str("newline"), line, column));
            } else if is_blank(c) {
            } else if is_word_start(c) {
                while !self.at_end() && is_word_part(self.peek_next_char())
                    invariant
                        self.wf(),
                        self@.source == s,
                        i < self@.index <= s.len(),
                        (self@.index - (i + 1)) + word_len(s, self@.index as int) == word_len(s, i + 1),
                    decreases s.len() - self@.index,
                {
                    self.next_char();
                }
                let word = string_of(&self.src, begin, self.index);
                let kind = if is_keyword(&word) {
                    TypeOfToken::KEYWORD
                } else {
                    TypeOfToken::IDENTIFIER
                };
                tokens.push(Token::new(kind, word, line, column));
            } else if is_digit(c) {
                let mut dotted = false;
                while !self.at_end() && (is_digit(self.peek_next_char()) || (self.peek_next_char() == '.'
                    && !dotted))
                    invariant
                        self.wf(),
                        self@.source == s,
                        i < self@.index <= s.len(),
                        (self@.index - (i + 1)) + number_len(s, self@.index as int, dotted)
                            == number_len(s, i + 1, false),
                    decreases s.len() - self@.index,
                {
                    let d = self.next_char();
                    if d == '.' {
                        dotted = true;
                    }
                }
                let number = string_of(&self.src, begin, self.index);
                tokens.push(Token::new(TypeOfToken::NUMBER, number, line, column));
            } else if c == '"' {
                while !self.at_end() && self.peek_next_char() != '"'
                    invariant
                        self.wf(),
                        self@.source == s,
                        i < self@.index <= s.len(),
                        (self@.index - (i + 1)) + len_until(s, self@.index as int, '"') == len_until(
                            s,
                            i + 1,
                            '"',
                        ),
                    decreases s.len() - self@.index,
                {
                    self.next_char();
                }
                if !self.at_end() {
                    let string = string_of(&self.src, begin + 1, self.index);
                    self.next_char();
                    tokens.push(Token::new(TypeOfToken::STRING, string, line, column));
                }
            } else if is_punctuation(c) {
                tokens.push(Token::new(TypeOfToken::PUNCTUATION, char_text(c), line, column));
            } else if is_operator(c) {
                tokens.push(Token::new(TypeOfToken::OPERATOR, char_text(c), line, column));
            } else if is_delimiter(c) {
                tokens.push(Token::new(TypeOfToken::BLOCKDELIMITERS, char_text(c), line, column));
            } else if c == '#' {
                while !self.at_end() && self.peek_next_char() != '\n'
                    invariant
                        self.wf(),
                        self@.source == s,
                        i < self@.index <= s.len(),
                        (self@.index - (i + 1)) + len_until(s, self@.index as int, '\n') == len_until(
                            s,
                            i + 1,
                            '\n',
                        ),
                    decreases s.len() - self@.index,
                {
                    self.next_char();
                }
            }
            proof {
                let cut = cut_at(s, i);
                assert(self@.index == i + 1 + cut.more);
                match cut.token {
                    Some(t) => {
                        assert(lexemes(tokens@) =~= before.push(t));
                        assert(before.push(t) + scan(s, self@.index as int) =~= before + (seq![t] + scan(
                            s,
                            self@.index as int,
                        )));
                    },
                    None => {
                        assert(lexemes(tokens@) =~= before);
                    },
                }
            }
        }
        tokens
    }

    /// Whether every character has been taken.
    pub fn at_end(&self) -> (b: bool)
        requires
            self.wf(),
        ensures
            b == (self@.index >= self@.source.len()),
    {
        self.index >= self.src.len()
    }
}

} // verus!
