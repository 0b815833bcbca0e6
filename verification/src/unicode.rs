//! Character classes and UTF-8 widths.
//!
//! The identifier and emoji classes are table lookups of the `unicode-xid`
//! and `unicode-properties` crates. They are reached through the three
//! wrappers at the end of this module, whose contracts are believed, not
//! proved.

use vstd::prelude::*;
use vstd::utf8::*;

verus! {

/// Returned by lookahead when the requested position is past the input.
pub const EOF_CHAR: char = '\0';

/// `\n`
pub const BACKSLASH_N: char = '\u{000A}';

/// `\r`
pub const BACKSLASH_R: char = '\u{000D}';

/// U+200D, which glues emoji into one glyph.
pub const ZERO_WIDTH_JOINER: char = '\u{200d}';

/// Whether `c` is one of the 128 ASCII characters.
pub open spec fn ascii(c: char) -> bool {
    c <= '\u{7f}'
}

/// The Unicode `White_Space` property.
pub open spec fn white_space(c: char) -> bool {
    ||| ('\u{0009}' <= c && c <= '\u{000D}')
    ||| c == '\u{0020}'
    ||| c == '\u{0085}'
    ||| c == '\u{00A0}'
    ||| c == '\u{1680}'
    ||| ('\u{2000}' <= c && c <= '\u{200A}')
    ||| c == '\u{2028}'
    ||| c == '\u{2029}'
    ||| c == '\u{202F}'
    ||| c == '\u{205F}'
    ||| c == '\u{3000}'
}

/// The decimal digits `0` to `9`.
pub open spec fn decimal_digit(c: char) -> bool {
    '0' <= c && c <= '9'
}

/// The ASCII letters.
pub open spec fn ascii_letter(c: char) -> bool {
    ('a' <= c && c <= 'z') || ('A' <= c && c <= 'Z')
}

/// The Unicode derived property `XID_Start`, as the tables of `unicode-xid` give it.
pub uninterp spec fn xid_start(c: char) -> bool;

/// The Unicode derived property `XID_Continue`, as the tables of `unicode-xid` give it.
pub uninterp spec fn xid_continue(c: char) -> bool;

/// The Unicode property `Emoji`, as the tables of `unicode-properties` give it.
pub uninterp spec fn emoji_char(c: char) -> bool;

/// A character that may start an identifier: `_` or `XID_Start`. Of the
/// ASCII characters, the letters are `XID_Start`.
pub open spec fn id_start(c: char) -> bool {
    c == '_' || if ascii(c) {
        ascii_letter(c)
    } else {
        xid_start(c)
    }
}

/// A character that may continue an identifier: `XID_Continue`. Of the ASCII
/// characters, the letters, the digits and `_` are `XID_Continue`.
pub open spec fn id_continue(c: char) -> bool {
    if ascii(c) {
        ascii_letter(c) || decimal_digit(c) || c == '_'
    } else {
        xid_continue(c)
    }
}

/// A non-ASCII emoji, which makes an identifier invalid.
pub open spec fn emoji(c: char) -> bool {
    !ascii(c) && emoji_char(c)
}

/// Number of bytes of `c` in UTF-8.
pub open spec fn utf8_width(c: char) -> nat {
    if c <= '\u{7f}' {
        1
    } else if c <= '\u{7ff}' {
        2
    } else if c <= '\u{ffff}' {
        3
    } else {
        4
    }
}

/// Number of bytes of `s[from..to]` in UTF-8.
pub open spec fn utf8_len(s: Seq<char>, from: int, to: int) -> nat
    decreases to - from,
{
    if 0 <= from < to <= s.len() {
        utf8_len(s, from, to - 1) + utf8_width(s[to - 1])
    } else {
        0
    }
}

/// Number of bytes of the whole of `s` in UTF-8.
pub open spec fn utf8_size(s: Seq<char>) -> nat {
    utf8_len(s, 0, s.len() as int)
}

/// Byte lengths add up over adjacent ranges.
pub proof fn lemma_utf8_len_split(s: Seq<char>, from: int, mid: int, to: int)
    requires
        0 <= from <= mid <= to <= s.len(),
    ensures
        utf8_len(s, from, to) == utf8_len(s, from, mid) + utf8_len(s, mid, to),
    decreases to - mid,
{
    if mid < to {
        lemma_utf8_len_split(s, from, mid, to - 1);
    }
}

/// A range holds at least one byte per character and at most four.
pub proof fn lemma_utf8_len_bounds(s: Seq<char>, from: int, to: int)
    requires
        0 <= from <= to <= s.len(),
    ensures
        to - from <= utf8_len(s, from, to) <= 4 * (to - from),
    decreases to - from,
{
    if from < to {
        lemma_utf8_len_bounds(s, from, to - 1);
    }
}

/// A longer range has at least as many bytes.
pub proof fn lemma_utf8_len_monotonic(s: Seq<char>, from: int, mid: int, to: int)
    requires
        0 <= from <= mid <= to <= s.len(),
    ensures
        utf8_len(s, from, mid) <= utf8_len(s, from, to),
{
    lemma_utf8_len_split(s, from, mid, to);
}

/// The byte length of a range only depends on the characters in it.
pub proof fn lemma_utf8_len_subrange(s: Seq<char>, from: int, to: int)
    requires
        0 <= from <= to <= s.len(),
    ensures
        utf8_size(s.subrange(from, to)) == utf8_len(s, from, to),
    decreases to - from,
{
    let t = s.subrange(from, to);
    if from < to {
        lemma_utf8_len_subrange(s, from, to - 1);
        lemma_utf8_len_prefix(t, s.subrange(from, to - 1), to - from - 1);
    }
}

/// Two sequences that agree on their first `n` characters have the same byte
/// length there.
pub proof fn lemma_utf8_len_prefix(a: Seq<char>, b: Seq<char>, n: int)
    requires
        0 <= n <= a.len(),
        n <= b.len(),
        forall|i: int| 0 <= i < n ==> a[i] == b[i],
    ensures
        utf8_len(a, 0, n) == utf8_len(b, 0, n),
    decreases n,
{
    if n > 0 {
        lemma_utf8_len_prefix(a, b, n - 1);
    }
}

/// `utf8_width` is the length of the UTF-8 encoding of one character.
pub proof fn lemma_utf8_width_is_encoded_len(c: char)
    ensures
        encode_scalar(c as u32).len() == utf8_width(c),
{
    let v = c as u32;
    char_is_scalar(c);
    assert('\u{7f}' as u32 == 0x7f);
    assert('\u{7ff}' as u32 == 0x7ff);
    assert('\u{ffff}' as u32 == 0xffff);
    assert((c <= '\u{7f}') == (v <= 0x7f));
    assert((c <= '\u{7ff}') == (v <= 0x7ff));
    assert((c <= '\u{ffff}') == (v <= 0xffff));
}

/// `utf8_size` is the length of the UTF-8 encoding.
pub proof fn lemma_utf8_size_is_encoded_len(s: Seq<char>)
    ensures
        utf8_size(s) == encode_utf8(s).len(),
    decreases s.len(),
{
    if s.len() > 0 {
        let rest = s.drop_first();
        lemma_utf8_size_is_encoded_len(rest);
        lemma_utf8_len_split(s, 0, 1, s.len() as int);
        assert(utf8_len(s, 0, 1) == utf8_width(s[0])) by {
            assert(utf8_len(s, 0, 0) == 0);
        }
        lemma_utf8_len_shift(s, 1, s.len() as int);
        lemma_utf8_width_is_encoded_len(s[0]);
    }
}

/// Dropping the first character shifts every range by one.
pub proof fn lemma_utf8_len_shift(s: Seq<char>, from: int, to: int)
    requires
        1 <= from <= to <= s.len(),
    ensures
        utf8_len(s, from, to) == utf8_len(s.drop_first(), from - 1, to - 1),
    decreases to - from,
{
    if from < to {
        lemma_utf8_len_shift(s, from, to - 1);
    }
}

/// Whether `c` is `LF (\n)`.
///
/// `CR (\r)` is not included: it is plain whitespace.
pub fn is_a_possible_new_line(c: char) -> (r: bool)
    ensures
        r == (c == BACKSLASH_N),
{
    c == BACKSLASH_N
}

/// Whether `c` has the Unicode `White_Space` property.
pub fn is_unicode_whitespace(c: char) -> (r: bool)
    ensures
        r == white_space(c),
{
    ('\u{0009}' <= c && c <= '\u{000D}') || c == '\u{0020}' || c == '\u{0085}' || c == '\u{00A0}'
        || c == '\u{1680}' || ('\u{2000}' <= c && c <= '\u{200A}') || c == '\u{2028}' || c
        == '\u{2029}' || c == '\u{202F}' || c == '\u{205F}' || c == '\u{3000}'
}

/// Whether `c` is a whitespace character (but not a new line).
pub fn is_whitespace(c: char) -> (r: bool)
    ensures
        r == (white_space(c) && c != BACKSLASH_N),
{
    is_unicode_whitespace(c) && !is_a_possible_new_line(c)
}

/// Whether `c` is a decimal digit.
pub fn is_decimal_digit(c: char) -> (r: bool)
    ensures
        r == decimal_digit(c),
{
    '0' <= c && c <= '9'
}

/// Whether `c` is an ASCII character.
pub fn is_ascii_char(c: char) -> (r: bool)
    ensures
        r == ascii(c),
{
    c <= '\u{7f}'
}

/// Number of bytes that `c` takes in UTF-8.
pub fn char_width(c: char) -> (n: usize)
    ensures
        n == utf8_width(c),
        1 <= n <= 4,
{
    if c <= '\u{7f}' {
        1
    } else if c <= '\u{7ff}' {
        2
    } else if c <= '\u{ffff}' {
        3
    } else {
        4
    }
}

/// True if `c` is valid as a first character of an identifier.
pub fn is_id_start(c: char) -> (r: bool)
    ensures
        r == id_start(c),
{
    c == '_' || lookup_xid_start(c)
}

/// True if `c` is valid as a non-first character of an identifier.
pub fn is_id_continue(c: char) -> (r: bool)
    ensures
        r == id_continue(c),
{
    lookup_xid_continue(c)
}

/// True if `c` is an emoji outside ASCII.
pub fn is_emoji(c: char) -> (r: bool)
    ensures
        r == emoji(c),
{
    !is_ascii_char(c) && lookup_emoji(c)
}

/// Calls `unicode_xid::UnicodeXID::is_xid_start` on a `char`.
///
/// Believed: the result is the table's verdict, named `xid_start`; and for an
/// ASCII character it is true exactly of the letters, which that function
/// decides before it looks at any table.
#[verifier::external_body]
fn lookup_xid_start(c: char) -> (r: bool)
    ensures
        r == xid_start(c),
        ascii(c) ==> r == ascii_letter(c),
{
    unicode_xid::UnicodeXID::is_xid_start(c)
}

/// Calls `unicode_xid::UnicodeXID::is_xid_continue` on a `char`.
///
/// Believed: the result is the table's verdict, named `xid_continue`; and for
/// an ASCII character it is true exactly of the letters, the digits and `_`,
/// which that function decides before it looks at any table.
#[verifier::external_body]
fn lookup_xid_continue(c: char) -> (r: bool)
    ensures
        r == xid_continue(c),
        ascii(c) ==> r == (ascii_letter(c) || decimal_digit(c) || c == '_'),
{
    unicode_xid::UnicodeXID::is_xid_continue(c)
}

/// Calls `unicode_properties::UnicodeEmoji::is_emoji_char` on a `char`.
///
/// Believed: the result depends on the character alone; it is named
/// `emoji_char`.
#[verifier::external_body]
fn lookup_emoji(c: char) -> (r: bool)
    ensures
        r == emoji_char(c),
{
    unicode_properties::UnicodeEmoji::is_emoji_char(c)
}

} // verus!
