use lema::lexer::{is_delimiter, is_keyword, is_operator, is_punctuation, Lexer, Token, TypeOfToken};
use lema::text::{chars_of, is_blank, is_digit, is_word_part, is_word_start, same_text, string_of};

fn tokens(source: &str) -> Vec<Token> {
    Lexer::new(source.to_string()).tokenize()
}

fn shapes(source: &str) -> Vec<(TypeOfToken, String)> {
    tokens(source).into_iter().map(|t| (t.tot, t.value)).collect()
}

fn shape(kind: TypeOfToken, text: &str) -> (TypeOfToken, String) {
    (kind, text.to_string())
}

#[test]
fn binding_is_cut_into_six_tokens() {
    assert_eq!(
        shapes("var x = 3 + 4"),
        vec![
            shape(TypeOfToken::KEYWORD, "var"),
            shape(TypeOfToken::IDENTIFIER, "x"),
            shape(TypeOfToken::OPERATOR, "="),
            shape(TypeOfToken::NUMBER, "3"),
            shape(TypeOfToken::OPERATOR, "+"),
            shape(TypeOfToken::NUMBER, "4"),
        ]
    );
}

#[test]
fn tokens_carry_line_and_column_of_their_first_character() {
    let found = tokens("var x = 3 + 4");
    let places: Vec<(usize, usize)> = found.iter().map(|t| (t.line, t.column)).collect();
    assert_eq!(places, vec![(1, 1), (1, 5), (1, 7), (1, 9), (1, 11), (1, 13)]);
}

#[test]
fn positions_follow_line_feeds() {
    let found = tokens("ab\n  cd \"s\"\n\n9");
    let seen: Vec<(TypeOfToken, String, usize, usize)> =
        found.into_iter().map(|t| (t.tot, t.value, t.line, t.column)).collect();
    assert_eq!(
        seen,
        vec![
            (TypeOfToken::IDENTIFIER, "ab".to_string(), 1, 1),
            (TypeOfToken::NEWLINE, "newline".to_string(), 1, 3),
            (TypeOfToken::IDENTIFIER, "cd".to_string(), 2, 3),
            (TypeOfToken::STRING, "s".to_string(), 2, 6),
            (TypeOfToken::NEWLINE, "newline".to_string(), 2, 9),
            (TypeOfToken::NEWLINE, "newline".to_string(), 3, 1),
            (TypeOfToken::NUMBER, "9".to_string(), 4, 1),
        ]
    );
}

#[test]
fn empty_source_has_no_tokens() {
    assert!(tokens("").is_empty());
    assert!(tokens("   \t \r ").is_empty());
}

#[test]
fn line_feed_is_a_token_and_other_blanks_are_not() {
    assert_eq!(
        shapes("1 \n\t2\r\n"),
        vec![
            shape(TypeOfToken::NUMBER, "1"),
            shape(TypeOfToken::NEWLINE, "newline"),
            shape(TypeOfToken::NUMBER, "2"),
            shape(TypeOfToken::NEWLINE, "newline"),
        ]
    );
}

#[test]
fn words_are_keywords_or_identifiers() {
    assert_eq!(
        shapes("print printer _x9 if iff while_ foreach"),
        vec![
            shape(TypeOfToken::KEYWORD, "print"),
            shape(TypeOfToken::IDENTIFIER, "printer"),
            shape(TypeOfToken::IDENTIFIER, "_x9"),
            shape(TypeOfToken::KEYWORD, "if"),
            shape(TypeOfToken::IDENTIFIER, "iff"),
            shape(TypeOfToken::IDENTIFIER, "while_"),
            shape(TypeOfToken::KEYWORD, "foreach"),
        ]
    );
}

#[test]
fn every_reserved_word_is_a_keyword() {
    let words = [
        "var", "for", "in", "foreach", "if", "else", "elseif", "return", "void", "while", "once",
        "import", "define", "and", "not", "or", "true", "false", "break", "print",
    ];
    for word in words {
        assert_eq!(shapes(word), vec![shape(TypeOfToken::KEYWORD, word)]);
        assert!(is_keyword(&word.to_string()));
    }
    assert!(!is_keyword(&"Print".to_string()));
    assert!(!is_keyword(&"".to_string()));
}

#[test]
fn a_number_takes_one_decimal_point() {
    assert_eq!(shapes("3.14"), vec![shape(TypeOfToken::NUMBER, "3.14")]);
    assert_eq!(shapes("3."), vec![shape(TypeOfToken::NUMBER, "3.")]);
    assert_eq!(
        shapes("1.2.3"),
        vec![
            shape(TypeOfToken::NUMBER, "1.2"),
            shape(TypeOfToken::PUNCTUATION, "."),
            shape(TypeOfToken::NUMBER, "3"),
        ]
    );
    assert_eq!(
        shapes("1..2"),
        vec![
            shape(TypeOfToken::NUMBER, "1."),
            shape(TypeOfToken::PUNCTUATION, "."),
            shape(TypeOfToken::NUMBER, "2"),
        ]
    );
}

#[test]
fn a_number_ends_where_a_word_begins() {
    assert_eq!(
        shapes("12ab"),
        vec![shape(TypeOfToken::NUMBER, "12"), shape(TypeOfToken::IDENTIFIER, "ab")]
    );
}

#[test]
fn a_string_is_kept_without_its_quotes() {
    assert_eq!(shapes("\"hello world\""), vec![shape(TypeOfToken::STRING, "hello world")]);
    assert_eq!(shapes("\"\""), vec![shape(TypeOfToken::STRING, "")]);
    assert_eq!(shapes("\"a\nb\""), vec![shape(TypeOfToken::STRING, "a\nb")]);
}

#[test]
fn an_unterminated_string_is_dropped() {
    assert_eq!(shapes("1 \"never closed + 2"), vec![shape(TypeOfToken::NUMBER, "1")]);
    assert!(tokens("\"").is_empty());
}

#[test]
fn a_string_may_hold_the_null_character() {
    assert_eq!(shapes("\"a\0b\" 1"), vec![
        shape(TypeOfToken::STRING, "a\0b"),
        shape(TypeOfToken::NUMBER, "1"),
    ]);
}

#[test]
fn punctuation_operators_and_delimiters() {
    assert_eq!(
        shapes(".,+-/*=<>{}()[]"),
        vec![
            shape(TypeOfToken::PUNCTUATION, "."),
            shape(TypeOfToken::PUNCTUATION, ","),
            shape(TypeOfToken::OPERATOR, "+"),
            shape(TypeOfToken::OPERATOR, "-"),
            shape(TypeOfToken::OPERATOR, "/"),
            shape(TypeOfToken::OPERATOR, "*"),
            shape(TypeOfToken::OPERATOR, "="),
            shape(TypeOfToken::OPERATOR, "<"),
            shape(TypeOfToken::OPERATOR, ">"),
            shape(TypeOfToken::BLOCKDELIMITERS, "{"),
            shape(TypeOfToken::BLOCKDELIMITERS, "}"),
            shape(TypeOfToken::BLOCKDELIMITERS, "("),
            shape(TypeOfToken::BLOCKDELIMITERS, ")"),
            shape(TypeOfToken::BLOCKDELIMITERS, "["),
            shape(TypeOfToken::BLOCKDELIMITERS, "]"),
        ]
    );
}

#[test]
fn operators_of_two_characters_are_cut_in_two() {
    assert_eq!(
        shapes("a == b"),
        vec![
            shape(TypeOfToken::IDENTIFIER, "a"),
            shape(TypeOfToken::OPERATOR, "="),
            shape(TypeOfToken::OPERATOR, "="),
            shape(TypeOfToken::IDENTIFIER, "b"),
        ]
    );
    assert_eq!(
        shapes("a <= b"),
        vec![
            shape(TypeOfToken::IDENTIFIER, "a"),
            shape(TypeOfToken::OPERATOR, "<"),
            shape(TypeOfToken::OPERATOR, "="),
            shape(TypeOfToken::IDENTIFIER, "b"),
        ]
    );
    assert_eq!(
        shapes("x++"),
        vec![
            shape(TypeOfToken::IDENTIFIER, "x"),
            shape(TypeOfToken::OPERATOR, "+"),
            shape(TypeOfToken::OPERATOR, "+"),
        ]
    );
}

#[test]
fn the_exclamation_mark_is_skipped() {
    assert_eq!(
        shapes("a != b"),
        vec![
            shape(TypeOfToken::IDENTIFIER, "a"),
            shape(TypeOfToken::OPERATOR, "="),
            shape(TypeOfToken::IDENTIFIER, "b"),
        ]
    );
}

#[test]
fn a_comment_runs_to_the_end_of_its_line() {
    assert_eq!(
        shapes("1 # two 2 \"three\"\n4"),
        vec![
            shape(TypeOfToken::NUMBER, "1"),
            shape(TypeOfToken::NEWLINE, "newline"),
            shape(TypeOfToken::NUMBER, "4"),
        ]
    );
    assert_eq!(shapes("7 # to the end"), vec![shape(TypeOfToken::NUMBER, "7")]);
}

#[test]
fn unknown_characters_are_skipped() {
    assert_eq!(
        shapes("1 @ $ ; : ~ ? 2"),
        vec![shape(TypeOfToken::NUMBER, "1"), shape(TypeOfToken::NUMBER, "2")]
    );
}

#[test]
fn letters_beyond_ascii_make_words() {
    assert_eq!(shapes("é"), vec![shape(TypeOfToken::IDENTIFIER, "é")]);
    assert_eq!(shapes("größe = 1"), vec![
        shape(TypeOfToken::IDENTIFIER, "größe"),
        shape(TypeOfToken::OPERATOR, "="),
        shape(TypeOfToken::NUMBER, "1"),
    ]);
    assert_eq!(shapes("京x"), vec![shape(TypeOfToken::IDENTIFIER, "京x")]);
}

#[test]
fn symbols_beyond_ascii_are_skipped() {
    assert!(shapes("→").is_empty());
    assert_eq!(shapes("x→y"), vec![
        shape(TypeOfToken::IDENTIFIER, "x"),
        shape(TypeOfToken::IDENTIFIER, "y"),
    ]);
}

#[test]
fn digits_beyond_ascii_continue_a_word_and_begin_nothing() {
    assert_eq!(shapes("x٣"), vec![shape(TypeOfToken::IDENTIFIER, "x٣")]);
    assert!(shapes("٣").is_empty());
    assert_eq!(shapes("1٣"), vec![shape(TypeOfToken::NUMBER, "1")]);
}

#[test]
fn positions_count_characters_not_bytes() {
    let found = tokens("é + 京");
    let places: Vec<(usize, usize)> = found.iter().map(|t| (t.line, t.column)).collect();
    assert_eq!(places, vec![(1, 1), (1, 3), (1, 5)]);
}

#[test]
fn next_char_takes_and_peek_does_not() {
    let mut lexer = Lexer::new("a\nb".to_string());
    assert_eq!(lexer.peek_next_char(), 'a');
    assert_eq!(lexer.peek_next_char(), 'a');
    assert_eq!(lexer.next_char(), 'a');
    assert_eq!(lexer.next_char(), '\n');
    assert!(!lexer.at_end());
    assert_eq!(lexer.peek_next_char(), 'b');
    assert_eq!(lexer.next_char(), 'b');
    assert!(lexer.at_end());
    assert_eq!(lexer.peek_next_char(), '\0');
    assert_eq!(lexer.next_char(), '\0');
    assert_eq!(lexer.next_char(), '\0');
    assert!(lexer.at_end());
}

#[test]
fn tokenize_goes_on_from_where_the_lexer_stands() {
    let mut lexer = Lexer::new("ab cd".to_string());
    assert_eq!(lexer.next_char(), 'a');
    let found: Vec<(TypeOfToken, String, usize)> =
        lexer.tokenize().into_iter().map(|t| (t.tot, t.value, t.column)).collect();
    assert_eq!(
        found,
        vec![
            (TypeOfToken::IDENTIFIER, "b".to_string(), 2),
            (TypeOfToken::IDENTIFIER, "cd".to_string(), 4),
        ]
    );
    assert!(lexer.at_end());
    assert!(lexer.tokenize().is_empty());
}

#[test]
fn kinds_have_labels() {
    assert_eq!(TypeOfToken::NUMBER.to_string(), "Number");
    assert_eq!(TypeOfToken::STRING.to_string(), "String");
    assert_eq!(TypeOfToken::IDENTIFIER.to_string(), "Identifier");
    assert_eq!(TypeOfToken::KEYWORD.to_string(), "Keyword");
    assert_eq!(TypeOfToken::OPERATOR.to_string(), "Operator");
    assert_eq!(TypeOfToken::PUNCTUATION.to_string(), "Punctuation");
    assert_eq!(TypeOfToken::BLOCKDELIMITERS.to_string(), "Block Delimiters");
    assert_eq!(TypeOfToken::NEWLINE.to_string(), "Newline");
    assert_eq!(TypeOfToken::WHITESPACE.to_string(), "Whitespace");
    assert_eq!(TypeOfToken::EOF.to_string(), "EOF");
}

#[test]
fn a_token_shows_its_kind_and_text() {
    let token = Token::new(TypeOfToken::NUMBER, "42".to_string(), 3, 7);
    assert_eq!(token.tot, TypeOfToken::NUMBER);
    assert_eq!(token.value, "42");
    assert_eq!(token.line, 3);
    assert_eq!(token.column, 7);
    assert_eq!(token.to_string(), "Token: NUMBER, Value: 42");
    assert_eq!(
        Token::new(TypeOfToken::BLOCKDELIMITERS, "(".to_string(), 1, 1).to_string(),
        "Token: BLOCKDELIMITERS, Value: ("
    );
    assert_eq!(token.clone(), token);
}

#[test]
fn character_classes() {
    assert!(is_digit('0') && is_digit('9') && !is_digit('a') && !is_digit('٣'));
    assert!(is_blank(' ') && is_blank('\t') && is_blank('\n') && is_blank('\r'));
    assert!(is_blank('\u{b}') && is_blank('\u{c}'));
    assert!(is_blank('\u{a0}') && is_blank('\u{2003}'));
    assert!(!is_blank('a') && !is_blank('é') && !is_blank('\0') && !is_blank('\u{1f}'));
    assert!(is_word_start('a') && is_word_start('Z') && is_word_start('_') && is_word_start('é'));
    assert!(!is_word_start('1') && !is_word_start('-') && !is_word_start('→') && !is_word_start('٣'));
    assert!(is_word_part('a') && is_word_part('7') && is_word_part('_') && is_word_part('٣'));
    assert!(!is_word_part(' ') && !is_word_part('.') && !is_word_part('→'));
    assert!(is_punctuation('.') && is_punctuation(',') && !is_punctuation(';'));
    assert!(is_operator('+') && is_operator('>') && !is_operator('!') && !is_operator('%'));
    assert!(is_delimiter('(') && is_delimiter(']') && !is_delimiter('<'));
}

#[test]
fn text_helpers() {
    assert!(same_text(&"print".to_string(), "print"));
    assert!(!same_text(&"print".to_string(), "prin"));
    assert!(!same_text(&"".to_string(), "x"));
    assert_eq!(chars_of("aé京"), vec!['a', 'é', '京']);
    assert!(chars_of("").is_empty());
    let chars = vec!['h', 'e', 'l', 'l', 'o'];
    assert_eq!(string_of(&chars, 1, 4), "ell");
    assert_eq!(string_of(&chars, 2, 2), "");
    assert_eq!(string_of(&chars, 0, 5), "hello");
    assert_eq!(lema::lexer::char_text('x'), "x");
}
