//! Character classes and small string helpers shared by the lexer, the parser
//! and the interpreter.
use vstd::prelude::*;

verus! {

/// Whether `char::is_alphabetic` holds of `c` (the Unicode property Alphabetic).
pub uninterp spec fn unicode_alphabetic(c: char) -> bool;

/// Whether `char::is_alphanumeric` holds of `c` (Alphabetic, or one of the
/// numeric general categories).
pub uninterp spec fn unicode_alphanumeric(c: char) -> bool;

/// Whether `char::is_whitespace` holds of `c` (the Unicode property White_Space).
pub uninterp spec fn unicode_whitespace(c: char) -> bool;

/// `char::is_alphabetic`: the result is a function of the character alone.
/// Nothing is claimed about which characters it accepts.
pub assume_specification[ char::is_alphabetic ](c: char) -> (b: bool)
    ensures
        b == unicode_alphabetic(c),
;

/// `char::is_alphanumeric`: the result is a function of the character alone.
/// Nothing is claimed about which characters it accepts.
pub assume_specification[ char::is_alphanumeric ](c: char) -> (b: bool)
    ensures
        b == unicode_alphanumeric(c),
;

/// `char::is_whitespace`: the result is a function of the character alone.
/// Nothing is claimed about which characters it accepts.
pub assume_specification[ char::is_whitespace ](c: char) -> (b: bool)
    ensures
        b == unicode_whitespace(c),
;

/// `String::push`: the character is appended at the end and nothing else changes.
pub assume_specification[ std::string::String::push ](s: &mut std::string::String, c: char)
    ensures
        final(s)@ == old(s)@.push(c),
;

/// The characters below U+0080.
pub open spec fn ascii(c: char) -> bool {
    c <= '\u{7f}'
}

pub open spec fn ascii_letter(c: char) -> bool {
    ('a' <= c && c <= 'z') || ('A' <= c && c <= 'Z')
}

/// The ten decimal digits; no other character counts as a digit.
pub open spec fn digit(c: char) -> bool {
    '0' <= c && c <= '9'
}

/// Blank characters: space, tab, line feed, vertical tab, form feed and
/// carriage return, and beyond ASCII whatever Unicode calls white space.
pub open spec fn blank(c: char) -> bool {
    if ascii(c) {
        c == ' ' || ('\t' <= c && c <= '\r')
    } else {
        unicode_whitespace(c)
    }
}

/// Characters that may begin a word: letters and the underscore.
pub open spec fn word_start(c: char) -> bool {
    if ascii(c) {
        ascii_letter(c) || c == '_'
    } else {
        unicode_alphabetic(c)
    }
}

/// Characters that may continue a word: letters, digits and the underscore.
pub open spec fn word_part(c: char) -> bool {
    if ascii(c) {
        ascii_letter(c) || digit(c) || c == '_'
    } else {
        unicode_alphanumeric(c)
    }
}

pub fn is_digit(c: char) -> (b: bool)
    ensures
        b == digit(c),
{
    '0' <= c && c <= '9'
}

pub fn is_blank(c: char) -> (b: bool)
    ensures
        b == blank(c),
{
    if c <= '\u{7f}' {
        c == ' ' || ('\t' <= c && c <= '\r')
    } else {
        c.is_whitespace()
    }
}

pub fn is_word_start(c: char) -> (b: bool)
    ensures
        b == word_start(c),
{
    if c <= '\u{7f}' {
        ('a' <= c && c <= 'z') || ('A' <= c && c <= 'Z') || c == '_'
    } else {
        c.is_alphabetic()
    }
}

pub fn is_word_part(c: char) -> (b: bool)
    ensures
        b == word_part(c),
{
    if c <= '\u{7f}' {
        ('a' <= c && c <= 'z') || ('A' <= c && c <= 'Z') || ('0' <= c && c <= '9') || c == '_'
    } else {
        c.is_alphanumeric()
    }
}

/// Whether a string reads exactly as the given text.
pub fn same_text(s: &String, t: &str) -> (b: bool)
    ensures
        b == (s@ == t@),
{
    let other = String::from_str(t);
    *s == other
}

/// The characters of a string, in order.
pub fn chars_of(s: &str) -> (v: Vec<char>)
    ensures
        v@ == s@,
{
    let mut v: Vec<char> = Vec::new();
    for c in it: s.chars()
        invariant
            v@ == it.history(),
    {
        v.push(c);
    }
    v
}

/// The string made of `v[from..to]`.
pub fn string_of(v: &Vec<char>, from: usize, to: usize) -> (s: String)
    requires
        from <= to <= v@.len(),
    ensures
        s@ == v@.subrange(from as int, to as int),
{
    let mut s = String::new();
    let mut i: usize = from;
    while i < to
        invariant
            from <= i <= to <= v@.len(),
            s@ == v@.subrange(from as int, i as int),
        decreases to - i,
    {
        s.push(v[i]);
        i += 1;
        assert(s@ =~= v@.subrange(from as int, i as int));
    }
    s
}

} // verus!
