//! Character classes and string building.
//!
//! Strings are modelled by their view, a `Seq<char>`. The Unicode character
//! classes come from the standard library and are known here only by name;
//! everything else in this file is proved.

use vstd::prelude::*;
use vstd::string::*;

verus! {

/// Whether `c` has the Unicode property `White_Space`.
pub uninterp spec fn unicode_whitespace(c: char) -> bool;

/// Whether `c` has the Unicode property `Alphabetic`.
pub uninterp spec fn unicode_alphabetic(c: char) -> bool;

/// Whether `c` is alphabetic or numeric in the sense of Unicode.
pub uninterp spec fn unicode_alphanumeric(c: char) -> bool;

/// The text that `{:?}` formatting produces for a string with the characters
/// `s`: the string in double quotes, with quotes, backslashes and
/// non-printable characters escaped.
pub uninterp spec fn debug_quoted(s: Seq<char>) -> Seq<char>;

/// `char::is_whitespace` of the standard library. Trusted: the result depends
/// on the character alone and is named [`unicode_whitespace`].
pub assume_specification[ char::is_whitespace ](c: char) -> (b: bool)
    ensures
        b == unicode_whitespace(c),
;

/// `char::is_alphabetic` of the standard library. Trusted: the result depends
/// on the character alone and is named [`unicode_alphabetic`].
pub assume_specification[ char::is_alphabetic ](c: char) -> (b: bool)
    ensures
        b == unicode_alphabetic(c),
;

/// `char::is_alphanumeric` of the standard library. Trusted: the result
/// depends on the character alone and is named [`unicode_alphanumeric`].
pub assume_specification[ char::is_alphanumeric ](c: char) -> (b: bool)
    ensures
        b == unicode_alphanumeric(c),
;

/// `String::push` of the standard library. Trusted: the character is appended
/// at the end and nothing else changes.
pub assume_specification[ String::push ](s: &mut String, c: char)
    ensures
        final(s)@ == old(s)@.push(c),
;

/// The `Debug` rendering of a string, as `format!("{:?}", s)` gives it.
/// Trusted: the result depends on the characters alone and is named
/// [`debug_quoted`].
#[verifier::external_body]
pub(crate) fn quoted(s: &str) -> (r: String)
    ensures
        r@ == debug_quoted(s@),
{
    format!("{:?}", s)
}

/// A character of a source text with its Unicode classes.
///
/// The lexer decides by these fields alone, so its rules can be stated and
/// checked on plain values. [`SourceChar::of`] fills them in for a
/// character.
#[derive(Debug, Clone, Copy, PartialEq, Eq)]
pub struct SourceChar {
    pub ch: char,
    /// Whether the character is whitespace.
    pub space: bool,
    /// Whether the character is alphabetic.
    pub alphabetic: bool,
    /// Whether the character is alphabetic or numeric.
    pub alphanumeric: bool,
}

/// `c` with its classes.
pub open spec fn classify_char(c: char) -> SourceChar {
    SourceChar {
        ch: c,
        space: unicode_whitespace(c),
        alphabetic: unicode_alphabetic(c),
        alphanumeric: unicode_alphanumeric(c),
    }
}

/// The characters of `s`, each with its classes.
pub open spec fn classify_text(s: Seq<char>) -> Seq<SourceChar> {
    s.map_values(|c: char| classify_char(c))
}

impl SourceChar {
    /// Whether the character is skipped between tokens.
    pub open spec fn is_space(self) -> bool {
        self.space
    }

    /// Whether the character may begin an identifier or keyword: a letter
    /// or an underscore.
    pub open spec fn starts_word(self) -> bool {
        self.alphabetic || self.ch == '_'
    }

    /// Whether the character may continue an identifier or keyword: a
    /// letter, a digit or an underscore.
    pub open spec fn continues_word(self) -> bool {
        self.alphanumeric || self.ch == '_'
    }

    /// The character `c` with its classes.
    pub fn of(c: char) -> (r: SourceChar)
        ensures
            r == classify_char(c),
    {
        SourceChar {
            ch: c,
            space: c.is_whitespace(),
            alphabetic: c.is_alphabetic(),
            alphanumeric: c.is_alphanumeric(),
        }
    }
}

/// The characters of `s`, each with its classes.
pub fn classify(s: &str) -> (v: Vec<SourceChar>)
    ensures
        v@ == classify_text(s@),
{
    let mut v: Vec<SourceChar> = Vec::new();
    for c in it: s.chars()
        invariant
            v@ == classify_text(it.seq().take(it.index())),
    {
        v.push(SourceChar::of(c));
    }
    v
}

/// The character for a decimal digit `d` below ten.
pub open spec fn digit_char(d: nat) -> char {
    (d + 48) as char
}

/// The decimal digits of `n`, most significant first, without leading zeros.
pub open spec fn decimal(n: nat) -> Seq<char>
    decreases n,
{
    if n < 10 {
        seq![digit_char(n)]
    } else {
        decimal(n / 10).push(digit_char(n % 10))
    }
}

/// The views of a sequence of strings.
pub open spec fn string_views(v: Seq<String>) -> Seq<Seq<char>> {
    v.map_values(|s: String| s@)
}

/// The concatenation of `lines`, each followed by a line feed.
pub open spec fn joined_lines(lines: Seq<Seq<char>>) -> Seq<char>
    decreases lines.len(),
{
    if lines.len() == 0 {
        Seq::empty()
    } else {
        joined_lines(lines.drop_last()) + lines.last().push('\n')
    }
}

/// The characters of `s` as a vector.
pub fn chars_of(s: &str) -> (v: Vec<char>)
    ensures
        v@ == s@,
{
    let mut v: Vec<char> = Vec::new();
    for c in it: s.chars()
        invariant
            v@ == it.seq().take(it.index()),
    {
        v.push(c);
    }
    v
}

/// Appends the characters `v[from..to]` to `out`.
pub fn push_range(out: &mut String, v: &Vec<char>, from: usize, to: usize)
    requires
        from <= to <= v.len(),
    ensures
        final(out)@ == old(out)@ + v@.subrange(from as int, to as int),
{
    let mut i: usize = from;
    while i < to
        invariant
            from <= i <= to <= v.len(),
            out@ == old(out)@ + v@.subrange(from as int, i as int),
        decreases to - i,
    {
        out.push(v[i]);
        i += 1;
    }
}

/// Appends the decimal digits of `n` to `out`.
pub fn push_decimal(out: &mut String, n: usize)
    ensures
        final(out)@ == old(out)@ + decimal(n as nat),
    decreases n,
{
    if n >= 10 {
        push_decimal(out, n / 10);
    }
    let d: u8 = (n % 10) as u8;
    out.push((d + 48) as char);
}

} // verus!
