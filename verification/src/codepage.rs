//! The three legacy single-byte codepages and the encoding engine:
//! lossless-encoding checks, the best-codepage detection chain, and the
//! truncate-at-embedded-zero rule applied to encoded bytes.

use vstd::prelude::*;

verus! {

/// One of the three supported legacy single-byte character tables.
#[derive(Clone, Copy, Debug, PartialEq, Eq, Structural)]
pub enum Codepage {
    /// Western European (windows-1252).
    Windows1252,
    /// Central European (windows-1250).
    Windows1250,
    /// Cyrillic (windows-1251).
    Windows1251,
}

/// Numeric tag of a codepage, used to index the abstract encoding tables.
pub open spec fn table_id(cp: Codepage) -> int {
    match cp {
        Codepage::Windows1252 => 1252,
        Codepage::Windows1250 => 1250,
        Codepage::Windows1251 => 1251,
    }
}

/// What one of the legacy tables makes of a text: `Some(bytes)` when every
/// character of `text` is representable, `None` when the encoding is lossy.
/// The result depends on the table and the text alone; its value is fixed
/// by the tables themselves and is left unspecified here.
pub uninterp spec fn table_encoding(table: int, text: Seq<char>) -> Option<Seq<u8>>;

/// True iff `cp` represents every character of `text`.
pub open spec fn encodable(cp: Codepage, text: Seq<char>) -> bool {
    table_encoding(table_id(cp), text) is Some
}

/// The encoded bytes of `text` under `cp` (meaningful when `encodable`).
pub open spec fn encoding_of(cp: Codepage, text: Seq<char>) -> Seq<u8> {
    table_encoding(table_id(cp), text).unwrap()
}

/// Relies on `encoding_rs::Encoding::encode`: the returned bytes and the
/// lossiness flag are a function of the encoding table and the input text
/// alone.  The flag is true iff some character was unmappable (and was
/// replaced in the output), so `None` is returned exactly in the lossy case.
#[verifier::external_body]
fn encode_codepage(cp: Codepage, text: &str) -> (r: Option<Vec<u8>>)
    ensures
        r is Some <==> table_encoding(table_id(cp), text@) is Some,
        r is Some ==> r.unwrap()@ == table_encoding(table_id(cp), text@).unwrap(),
{
    let table = match cp {
        Codepage::Windows1252 => encoding_rs::WINDOWS_1252,
        Codepage::Windows1250 => encoding_rs::WINDOWS_1250,
        Codepage::Windows1251 => encoding_rs::WINDOWS_1251,
    };
    let (bytes, _, had_errors) = table.encode(text);
    if had_errors {
        None
    } else {
        Some(bytes.into_owned())
    }
}

/// True iff `cp` encodes `text` losslessly; the executable form of
/// [`encodable`].
pub fn can_encode_with(cp: Codepage, text: &str) -> (r: bool)
    ensures
        r == encodable(cp, text@),
{
    encode_codepage(cp, text).is_some()
}

/// Encoded bytes of `text` under `cp`, or `None` when lossy.
pub fn encode_text(cp: Codepage, text: &str) -> (r: Option<Vec<u8>>)
    ensures
        r is Some <==> encodable(cp, text@),
        r is Some ==> r.unwrap()@ == encoding_of(cp, text@),
{
    encode_codepage(cp, text)
}

/// A character of the Cyrillic Unicode block (U+0400 through U+04FF).
pub open spec fn is_cyrillic_char(c: char) -> bool {
    0x400 <= (c as u32) <= 0x4FF
}

/// Some character of `text` lies in the Cyrillic block.
pub open spec fn has_cyrillic(text: Seq<char>) -> bool {
    exists|i: int| 0 <= i < text.len() && is_cyrillic_char(#[trigger] text[i])
}

/// A letter of the curated Central European set: the accented letters of
/// Polish, Czech, Slovak, Hungarian and Croatian/Serbian Latin whose
/// presence suggests the Central European codepage.
pub open spec fn is_central_european_char(c: char) -> bool {
    ||| c == '\u{104}' ||| c == '\u{105}' ||| c == '\u{106}' ||| c == '\u{107}'
    ||| c == '\u{118}' ||| c == '\u{119}' ||| c == '\u{141}' ||| c == '\u{142}'
    ||| c == '\u{143}' ||| c == '\u{144}' ||| c == '\u{D3}' ||| c == '\u{F3}'
    ||| c == '\u{15A}' ||| c == '\u{15B}' ||| c == '\u{179}' ||| c == '\u{17A}'
    ||| c == '\u{17B}' ||| c == '\u{17C}'
    ||| c == '\u{10C}' ||| c == '\u{10D}' ||| c == '\u{10E}' ||| c == '\u{10F}'
    ||| c == '\u{147}' ||| c == '\u{148}' ||| c == '\u{158}' ||| c == '\u{159}'
    ||| c == '\u{160}' ||| c == '\u{161}' ||| c == '\u{164}' ||| c == '\u{165}'
    ||| c == '\u{16E}' ||| c == '\u{16F}' ||| c == '\u{17D}' ||| c == '\u{17E}'
    ||| c == '\u{13D}' ||| c == '\u{13E}' ||| c == '\u{154}' ||| c == '\u{155}'
    ||| c == '\u{150}' ||| c == '\u{151}' ||| c == '\u{170}' ||| c == '\u{171}'
    ||| c == '\u{110}' ||| c == '\u{111}'
}

/// Some character of `text` lies in the curated Central European set.
pub open spec fn has_central_european(text: Seq<char>) -> bool {
    exists|i: int| 0 <= i < text.len() && is_central_european_char(#[trigger] text[i])
}

/// Executable form of [`is_central_european_char`].
pub fn central_european_char(c: char) -> (r: bool)
    ensures
        r == is_central_european_char(c),
{
    matches!(c,
        '\u{104}' | '\u{105}' | '\u{106}' | '\u{107}' | '\u{118}' | '\u{119}'
        | '\u{141}' | '\u{142}' | '\u{143}' | '\u{144}' | '\u{D3}' | '\u{F3}'
        | '\u{15A}' | '\u{15B}' | '\u{179}' | '\u{17A}' | '\u{17B}' | '\u{17C}'
        | '\u{10C}' | '\u{10D}' | '\u{10E}' | '\u{10F}' | '\u{147}' | '\u{148}'
        | '\u{158}' | '\u{159}' | '\u{160}' | '\u{161}' | '\u{164}' | '\u{165}'
        | '\u{16E}' | '\u{16F}' | '\u{17D}' | '\u{17E}' | '\u{13D}' | '\u{13E}'
        | '\u{154}' | '\u{155}' | '\u{150}' | '\u{151}' | '\u{170}' | '\u{171}'
        | '\u{110}' | '\u{111}')
}

/// Executable form of [`is_cyrillic_char`].
pub fn cyrillic_char(c: char) -> (r: bool)
    ensures
        r == is_cyrillic_char(c),
{
    let v = c as u32;
    0x400 <= v && v <= 0x4FF
}

/// True iff some character of `text` lies in the Cyrillic block.
pub fn contains_cyrillic(text: &str) -> (r: bool)
    ensures
        r == has_cyrillic(text@),
{
    let n = text.unicode_len();
    for i in 0..n
        invariant
            n == text@.len(),
            forall|j: int| 0 <= j < i ==> !is_cyrillic_char(#[trigger] text@[j]),
    {
        if cyrillic_char(text.get_char(i)) {
            return true;
        }
    }
    false
}

/// True iff some character of `text` lies in the Central European set.
pub fn contains_central_european(text: &str) -> (r: bool)
    ensures
        r == has_central_european(text@),
{
    let n = text.unicode_len();
    for i in 0..n
        invariant
            n == text@.len(),
            forall|j: int| 0 <= j < i ==> !is_central_european_char(#[trigger] text@[j]),
    {
        if central_european_char(text.get_char(i)) {
            return true;
        }
    }
    false
}

/// The best codepage for `text`, starting from the active one: the active
/// codepage if it fits; then Western European; then Cyrillic when Cyrillic
/// characters are present and it fits; then Central European when letters
/// of the curated set are present and it fits; then Central European and
/// Cyrillic in that order; and Western European as the last resort even
/// when lossy.
pub open spec fn detected(active: Codepage, text: Seq<char>) -> Codepage {
    if encodable(active, text) {
        active
    } else if encodable(Codepage::Windows1252, text) {
        Codepage::Windows1252
    } else if has_cyrillic(text) && encodable(Codepage::Windows1251, text) {
        Codepage::Windows1251
    } else if has_central_european(text) && encodable(Codepage::Windows1250, text) {
        Codepage::Windows1250
    } else if encodable(Codepage::Windows1250, text) {
        Codepage::Windows1250
    } else if encodable(Codepage::Windows1251, text) {
        Codepage::Windows1251
    } else {
        Codepage::Windows1252
    }
}

/// Walks the detection chain of [`detected`] on real encoding tables.
pub fn detect_codepage(active: Codepage, text: &str) -> (r: Codepage)
    ensures
        r == detected(active, text@),
{
    if can_encode_with(active, text) {
        active
    } else if can_encode_with(Codepage::Windows1252, text) {
        Codepage::Windows1252
    } else if contains_cyrillic(text) && can_encode_with(Codepage::Windows1251, text) {
        Codepage::Windows1251
    } else if contains_central_european(text) && can_encode_with(Codepage::Windows1250, text) {
        Codepage::Windows1250
    } else if can_encode_with(Codepage::Windows1250, text) {
        Codepage::Windows1250
    } else if can_encode_with(Codepage::Windows1251, text) {
        Codepage::Windows1251
    } else {
        Codepage::Windows1252
    }
}

/// Text whose own codepage fails, which Western European also fails,
/// and which holds Cyrillic-block characters that the Cyrillic table
/// represents, is detected as Cyrillic.
pub proof fn lemma_detect_selects_cyrillic(active: Codepage, text: Seq<char>)
    requires
        !encodable(active, text),
        !encodable(Codepage::Windows1252, text),
        has_cyrillic(text),
        encodable(Codepage::Windows1251, text),
    ensures
        detected(active, text) == Codepage::Windows1251,
{
}

/// Detection never refuses outright: whenever any of the three tables
/// represents the text, the detected codepage does.
pub proof fn lemma_detect_finds_any_fit(active: Codepage, text: Seq<char>)
    requires
        encodable(Codepage::Windows1252, text) || encodable(Codepage::Windows1250, text)
            || encodable(Codepage::Windows1251, text),
    ensures
        encodable(detected(active, text), text),
{
}

/// Text that none of the three codepages represents makes detection fall
/// back to Western European, which every consumer then finds lossy: the
/// string writes and the best-fit encode all fail on such text.
pub proof fn lemma_detect_falls_back_when_nothing_fits(active: Codepage, text: Seq<char>)
    requires
        !encodable(Codepage::Windows1252, text),
        !encodable(Codepage::Windows1250, text),
        !encodable(Codepage::Windows1251, text),
    ensures
        detected(active, text) == Codepage::Windows1252,
        !encodable(detected(active, text), text),
{
}

/// Index of the first zero byte of `s`, or `s.len()` when none occurs.
pub open spec fn first_zero_index(s: Seq<u8>) -> int
    decreases s.len(),
{
    if s.len() == 0 {
        0
    } else if s[0] == 0 {
        0
    } else {
        1 + first_zero_index(s.drop_first())
    }
}

/// `first_zero_index` points at the first zero byte: it is in range, every
/// byte before it is nonzero, and it is `s.len()` exactly when `s` has no
/// zero byte.
pub proof fn lemma_first_zero_index(s: Seq<u8>)
    ensures
        0 <= first_zero_index(s) <= s.len(),
        first_zero_index(s) < s.len() ==> s[first_zero_index(s)] == 0,
        forall|j: int| 0 <= j < first_zero_index(s) ==> s[j] != 0,
    decreases s.len(),
{
    if s.len() == 0 {
    } else if s[0] == 0 {
    } else {
        lemma_first_zero_index(s.drop_first());
        assert forall|j: int| 0 <= j < first_zero_index(s) implies s[j] != 0 by {
            if j > 0 {
                assert(s.drop_first()[j - 1] == s[j]);
            }
        }
    }
}

/// `s` cut off at its first zero byte: the longest zero-free prefix.
pub open spec fn zero_trunc(s: Seq<u8>) -> Seq<u8> {
    s.take(first_zero_index(s))
}

/// Relies on `memchr::memchr`: the index of the first occurrence of
/// `needle` in `bytes`, or `None` when it does not occur.
#[verifier::external_body]
fn find_byte(needle: u8, bytes: &Vec<u8>) -> (r: Option<usize>)
    ensures
        match r {
            Some(i) => i < bytes@.len() && bytes@[i as int] == needle
                && forall|j: int| 0 <= j < i ==> bytes@[j] != needle,
            None => forall|j: int| 0 <= j < bytes@.len() ==> bytes@[j] != needle,
        },
{
    memchr::memchr(needle, bytes)
}

/// Applies the truncate-at-embedded-zero rule: everything from the first
/// zero byte on is dropped, so the result is a zero-free prefix ready to
/// receive its own terminator.
pub fn truncate_at_zero(bytes: Vec<u8>) -> (r: Vec<u8>)
    ensures
        r@ == zero_trunc(bytes@),
{
    let ghost orig = bytes@;
    proof {
        lemma_first_zero_index(orig);
    }
    match find_byte(0, &bytes) {
        None => {
            proof {
                assert(first_zero_index(orig) == orig.len()) by {
                    if first_zero_index(orig) < orig.len() {
                        assert(orig[first_zero_index(orig)] == 0);
                    }
                }
                assert(orig.take(orig.len() as int) =~= orig);
            }
            bytes
        },
        Some(i) => {
            proof {
                assert(first_zero_index(orig) == i) by {
                    if first_zero_index(orig) < i {
                        assert(orig[first_zero_index(orig)] == 0);
                    }
                    if first_zero_index(orig) > i {
                        assert(orig[i as int] != 0);
                    }
                }
            }
            let mut out = bytes;
            out.truncate(i);
            out
        },
    }
}

} // verus!
