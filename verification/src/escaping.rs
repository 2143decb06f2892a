//! Escaping of text for markup, addresses and search expressions.

use vstd::prelude::*;
use vstd::string::*;
use vstd::utf8::*;
use crate::text;

verus! {

/// What replaces a character in HTML text.
pub open spec fn html_text_char() -> spec_fn(char) -> Seq<char> {
    |c: char|
        if c == '&' {
            "&amp;"@
        } else if c == '<' {
            "&lt;"@
        } else if c == '>' {
            "&gt;"@
        } else {
            seq![c]
        }
}

/// What replaces a character in an HTML attribute between double quotes.
pub open spec fn html_attribute_char() -> spec_fn(char) -> Seq<char> {
    |c: char|
        if c == '"' {
            "&quot;"@
        } else {
            html_text_char()(c)
        }
}

/// A text with `&`, `<` and `>` written as character references.
pub open spec fn html_text(s: Seq<char>) -> Seq<char> {
    text::expanded(s, html_text_char())
}

/// A text with `&`, `<`, `>` and `"` written as character references.
pub open spec fn html_attribute(s: Seq<char>) -> Seq<char> {
    text::expanded(s, html_attribute_char())
}

/// `html_escape::encode_text` replaces `&`, `<` and `>` by `&amp;`, `&lt;` and `&gt;`
/// and keeps every other character.
#[verifier::external_body]
pub(crate) fn encode_text(s: &str) -> (r: String)
    ensures
        r@ == html_text(s@),
{
    html_escape::encode_text(s).into_owned()
}

/// `html_escape::encode_double_quoted_attribute` replaces `&`, `<`, `>` and `"` by
/// `&amp;`, `&lt;`, `&gt;` and `&quot;` and keeps every other character.
#[verifier::external_body]
pub(crate) fn encode_attribute(s: &str) -> (r: String)
    ensures
        r@ == html_attribute(s@),
{
    html_escape::encode_double_quoted_attribute(s).into_owned()
}

/// What `html_escape::decode_html_entities` gives of a text that holds `&`.
pub uninterp spec fn references_decoded(s: Seq<char>) -> Seq<char>;

/// A text with its character references replaced.
pub open spec fn html_decoded(s: Seq<char>) -> Seq<char> {
    if s.contains('&') {
        references_decoded(s)
    } else {
        s
    }
}

/// `html_escape::decode_html_entities` replaces the character references of a text.
/// A text without `&` comes back as it is; for any other the result depends on the text
/// alone, and the table of named references is not stated.
#[verifier::external_body]
pub(crate) fn decode_html_entities(s: &str) -> (r: String)
    ensures
        r@ == (if s@.contains('&') {
            references_decoded(s@)
        } else {
            s@
        }),
{
    html_escape::decode_html_entities(s).into_owned()
}

/// True of the bytes that stand for themselves in a percent-encoded text.
pub open spec fn unreserved(b: u8) -> bool {
    ||| '0' as u8 <= b <= '9' as u8
    ||| 'A' as u8 <= b <= 'Z' as u8
    ||| 'a' as u8 <= b <= 'z' as u8
    ||| b == '-' as u8
    ||| b == '.' as u8
    ||| b == '_' as u8
    ||| b == '~' as u8
}

/// The upper-case hexadecimal digit of a number below sixteen.
pub open spec fn upper_hex(d: int) -> char {
    if d < 10 {
        ('0' as u8 + d) as u8 as char
    } else {
        ('A' as u8 + (d - 10)) as u8 as char
    }
}

/// A byte as it stands in a percent-encoded text.
pub open spec fn percent_byte(b: u8) -> Seq<char> {
    if unreserved(b) {
        seq![b as char]
    } else {
        seq!['%', upper_hex((b / 16) as int), upper_hex((b % 16) as int)]
    }
}

/// Bytes as they stand in a percent-encoded text.
pub open spec fn percent_bytes(b: Seq<u8>) -> Seq<char>
    decreases b.len(),
{
    if b.len() == 0 {
        seq![]
    } else {
        percent_bytes(b.drop_last()) + percent_byte(b.last())
    }
}

/// A text percent-encoded byte by byte in UTF-8.
pub open spec fn percent_encoded(s: Seq<char>) -> Seq<char> {
    percent_bytes(encode_utf8(s))
}

/// `urlencoding::encode` keeps ASCII letters, digits and `-._~` and writes every other
/// byte of the text's UTF-8 form as `%` and two upper-case hexadecimal digits.
#[verifier::external_body]
pub(crate) fn url_encode(s: &str) -> (r: String)
    ensures
        r@ == percent_encoded(s@),
{
    urlencoding::encode(s).into_owned()
}

/// The number that a hexadecimal digit stands for.
pub open spec fn hex_digit(b: u8) -> Option<int> {
    if '0' as u8 <= b <= '9' as u8 {
        Some(b - '0' as u8)
    } else if 'A' as u8 <= b <= 'F' as u8 {
        Some(b - 'A' as u8 + 10)
    } else if 'a' as u8 <= b <= 'f' as u8 {
        Some(b - 'a' as u8 + 10)
    } else {
        None
    }
}

/// Bytes in which each `%` with two hexadecimal digits behind it has given way to the byte that
/// the digits stand for.
pub open spec fn unescaped_bytes(b: Seq<u8>) -> Seq<u8>
    decreases b.len(),
{
    if b.len() == 0 {
        seq![]
    } else if b.len() >= 3 && b[0] == '%' as u8 && hex_digit(b[1]) is Some && hex_digit(b[2])
        is Some {
        seq![(16 * hex_digit(b[1])->0 + hex_digit(b[2])->0) as u8] + unescaped_bytes(b.skip(3))
    } else {
        seq![b[0]] + unescaped_bytes(b.skip(1))
    }
}

/// A text with its percent-encoded bytes replaced, where that gives UTF-8.
pub open spec fn percent_decoded(s: Seq<char>) -> Option<Seq<char>> {
    let b = unescaped_bytes(encode_utf8(s));
    if valid_utf8(b) {
        Some(decode_utf8(b))
    } else {
        None
    }
}

/// `urlencoding::decode` replaces each `%` with two hexadecimal digits behind it by the byte that
/// they stand for, keeps everything else, `+` too, and fails where the bytes are not UTF-8.
#[verifier::external_body]
pub(crate) fn url_decode(s: &str) -> (r: Option<String>)
    ensures
        text::opt_text(r) == percent_decoded(s@),
{
    urlencoding::decode(s).ok().map(|decoded| decoded.into_owned())
}

/// True of the characters that have a meaning in a regular expression.
pub open spec fn regex_special(c: char) -> bool {
    ||| c == '\\'
    ||| c == '.'
    ||| c == '+'
    ||| c == '*'
    ||| c == '?'
    ||| c == '('
    ||| c == ')'
    ||| c == '|'
    ||| c == '['
    ||| c == ']'
    ||| c == '{'
    ||| c == '}'
    ||| c == '^'
    ||| c == '$'
    ||| c == '#'
    ||| c == '&'
    ||| c == '-'
    ||| c == '~'
}

/// What replaces a character in a regular expression that matches a text literally.
pub open spec fn regex_char() -> spec_fn(char) -> Seq<char> {
    |c: char|
        if regex_special(c) {
            seq!['\\', c]
        } else {
            seq![c]
        }
}

/// A regular expression that matches a text literally.
pub open spec fn regex_literal(s: Seq<char>) -> Seq<char> {
    text::expanded(s, regex_char())
}

/// `regex::escape` puts a backslash before each character that has a meaning in a
/// regular expression.
#[verifier::external_body]
pub(crate) fn regex_escape(s: &str) -> (r: String)
    ensures
        r@ == regex_literal(s@),
{
    regex::escape(s)
}

/// The lower-case hexadecimal digit of a number below sixteen.
pub open spec fn lower_hex(d: int) -> char {
    if d < 10 {
        ('0' as u8 + d) as u8 as char
    } else {
        ('a' as u8 + (d - 10)) as u8 as char
    }
}

/// The lower-case hexadecimal form of bytes, two digits for each.
pub open spec fn hex_text(b: Seq<u8>) -> Seq<char> {
    Seq::new(
        2 * b.len(),
        |i: int|
            if i % 2 == 0 {
                lower_hex((b[i / 2] / 16) as int)
            } else {
                lower_hex((b[i / 2] % 16) as int)
            },
    )
}

/// `hex::encode` writes each byte as two lower-case hexadecimal digits.
#[verifier::external_body]
pub(crate) fn hex_encode(b: &Vec<u8>) -> (r: String)
    ensures
        r@ == hex_text(b@),
{
    hex::encode(b)
}

/// The digest that SHA-256 gives of bytes.
pub uninterp spec fn sha256(b: Seq<u8>) -> Seq<u8>;

/// `sha2::Sha256::digest` gives the SHA-256 digest, which is 32 bytes long.
#[verifier::external_body]
pub(crate) fn sha256_digest(b: &[u8]) -> (r: Vec<u8>)
    ensures
        r@ == sha256(b@),
        r@.len() == 32,
{
    <sha2::Sha256 as sha2::Digest>::digest(b).to_vec()
}

} // verus!
