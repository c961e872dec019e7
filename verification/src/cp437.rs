//! Character encoding validation against the device's fixed CP437 code
//! page, and normalization of common typographic variants to their
//! closest device-native equivalents.

use vstd::prelude::*;

verus! {

/// A character that the device cannot represent.
#[derive(Clone, Copy, Debug, PartialEq, Eq, Structural)]
pub enum EncodingError {
    UnsupportedCharacter(char),
}

/// The 128 extended (non-ASCII) entries of the CP437 code page, as the
/// Unicode characters they render as.
pub open spec fn spec_is_extended_cp437(c: char) -> bool {
    match c {
        'Ç' | 'ü' | 'é' | 'â' | 'ä' | 'à' | 'å' | 'ç' | 'ê' | 'ë' | 'è' | 'ï' | 'î' | 'ì'
        | 'Ä' | 'Å' | 'É' | 'æ' | 'Æ' | 'ô' | 'ö' | 'ò' | 'û' | 'ù' | 'ÿ' | 'Ö' | 'Ü' | '¢'
        | '£' | '¥' | '₧' | 'ƒ' | 'á' | 'í' | 'ó' | 'ú' | 'ñ' | 'Ñ' | 'ª' | 'º' | '¿' | '⌐'
        | '¬' | '½' | '¼' | '¡' | '«' | '»' | '░' | '▒' | '▓' | '│' | '┤' | '╡' | '╢' | '╖'
        | '╕' | '╣' | '║' | '╗' | '╝' | '╜' | '╛' | '┐' | '└' | '┴' | '┬' | '├' | '─' | '┼'
        | '╞' | '╟' | '╚' | '╔' | '╩' | '╦' | '╠' | '═' | '╬' | '╧' | '╨' | '╤' | '╥' | '╙'
        | '╘' | '╒' | '╓' | '╫' | '╪' | '┘' | '┌' | '█' | '▄' | '▌' | '▐' | '▀' | 'α' | 'ß'
        | 'Γ' | 'π' | 'Σ' | 'σ' | 'µ' | 'τ' | 'Φ' | 'Θ' | 'Ω' | 'δ' | '∞' | 'φ' | 'ε' | '∩'
        | '≡' | '±' | '≥' | '≤' | '⌠' | '⌡' | '÷' | '≈' | '°' | '∙' | '·' | '√' | 'ⁿ' | '²'
        | '■' | '\u{00A0}' => true,
        _ => false,
    }
}

/// A character the device can print: printable ASCII, an ASCII
/// whitespace control (tab through carriage return), or one of the 128
/// extended CP437 entries.  Other control characters are rejected: they
/// are commands to the device, not text.
pub open spec fn spec_is_cp437(c: char) -> bool {
    (0x20 <= (c as u32) && (c as u32) <= 0x7E) || (0x09 <= (c as u32) && (c as u32) <= 0x0D)
        || spec_is_extended_cp437(c)
}

/// The normalization table for typographic variants: curly single and
/// double quotes, en-dash and em-dash map to their ASCII equivalents;
/// every other character passes through unchanged.
pub open spec fn spec_normalize(c: char) -> char {
    match c {
        '\u{2018}' | '\u{2019}' | '\u{02BC}' => '\'',
        '\u{201C}' | '\u{201D}' => '"',
        '\u{2013}' | '\u{2014}' => '-',
        _ => c,
    }
}

/// Whether the normalization table has an entry for this character.
pub open spec fn spec_normalizes(c: char) -> bool {
    c == '\u{2018}' || c == '\u{2019}' || c == '\u{02BC}' || c == '\u{201C}' || c == '\u{201D}'
        || c == '\u{2013}' || c == '\u{2014}'
}

/// Normalize a single Unicode typographic character to its ASCII equivalent.
/// Returns the ASCII equivalent if applicable, otherwise returns None.
pub fn normalize_char(ch: char) -> (r: Option<char>)
    ensures
        spec_normalizes(ch) ==> r == Some(spec_normalize(ch)),
        !spec_normalizes(ch) ==> r is None,
{
    match ch {
        '\u{2018}' | '\u{2019}' | '\u{02BC}' => Some('\''),
        '\u{201C}' | '\u{201D}' => Some('"'),
        '\u{2013}' | '\u{2014}' => Some('-'),
        _ => None,
    }
}

/// Normalization is idempotent: applying the table twice gives the same
/// character as applying it once, for every character.
pub proof fn lemma_normalize_idempotent(c: char)
    ensures
        spec_normalize(spec_normalize(c)) == spec_normalize(c),
{
}

/// A whole string normalized: every character through the table, and a
/// horizontal ellipsis expanded to three periods.
pub open spec fn spec_normalize_text(s: Seq<char>) -> Seq<char>
    decreases s.len(),
{
    if s.len() == 0 {
        Seq::empty()
    } else {
        (if s[0] == '\u{2026}' {
            seq!['.', '.', '.']
        } else {
            seq![spec_normalize(s[0])]
        }) + spec_normalize_text(s.skip(1))
    }
}

/// Normalize a string by converting Unicode typographic characters to
/// ASCII equivalents: curly quotes, dashes, and the ellipsis, which
/// expands to three periods.
pub fn normalize_to_ascii(s: &str) -> (r: String)
    ensures
        r@ == spec_normalize_text(s@),
{
    let ghost sv = s@;
    let mut out: Vec<char> = Vec::new();
    let n = s.unicode_len();
    let mut i: usize = 0;
    proof {
        assert(sv.skip(0) =~= sv);
    }
    while i < n
        invariant
            0 <= i <= n,
            n == sv.len(),
            s@ == sv,
            spec_normalize_text(sv) == out@ + spec_normalize_text(sv.skip(i as int)),
        decreases n - i,
    {
        let ghost out0 = out@;
        let c = s.get_char(i);
        if c == '\u{2026}' {
            out.push('.');
            out.push('.');
            out.push('.');
        } else {
            let normalized = match normalize_char(c) {
                Some(nc) => nc,
                None => c,
            };
            out.push(normalized);
        }
        proof {
            let tail = sv.skip(i as int);
            assert(tail[0] == sv[i as int]);
            assert(tail.skip(1) =~= sv.skip(i + 1));
            if sv[i as int] == '\u{2026}' {
                assert(out@ =~= out0 + seq!['.', '.', '.']);
            } else {
                assert(out@ =~= out0 + seq![spec_normalize(sv[i as int])]);
            }
            assert(spec_normalize_text(sv) =~= out@ + spec_normalize_text(sv.skip(i + 1)));
        }
        i = i + 1;
    }
    proof {
        assert(sv.skip(n as int) =~= Seq::<char>::empty());
        assert(out@ =~= spec_normalize_text(sv));
    }
    crate::strutil::chars_to_string(out)
}

/// Check if a character is valid in CP437.
/// Uses a fast path for the ASCII ranges and a fixed lookup for
/// extended characters.
pub fn is_cp437_char(ch: char) -> (r: bool)
    ensures
        r == spec_is_cp437(ch),
{
    let code = ch as u32;
    if (0x20 <= code && code <= 0x7E) || (0x09 <= code && code <= 0x0D) {
        return true;
    }
    match ch {
        'Ç' | 'ü' | 'é' | 'â' | 'ä' | 'à' | 'å' | 'ç' | 'ê' | 'ë' | 'è' | 'ï' | 'î' | 'ì'
        | 'Ä' | 'Å' | 'É' | 'æ' | 'Æ' | 'ô' | 'ö' | 'ò' | 'û' | 'ù' | 'ÿ' | 'Ö' | 'Ü' | '¢'
        | '£' | '¥' | '₧' | 'ƒ' | 'á' | 'í' | 'ó' | 'ú' | 'ñ' | 'Ñ' | 'ª' | 'º' | '¿' | '⌐'
        | '¬' | '½' | '¼' | '¡' | '«' | '»' | '░' | '▒' | '▓' | '│' | '┤' | '╡' | '╢' | '╖'
        | '╕' | '╣' | '║' | '╗' | '╝' | '╜' | '╛' | '┐' | '└' | '┴' | '┬' | '├' | '─' | '┼'
        | '╞' | '╟' | '╚' | '╔' | '╩' | '╦' | '╠' | '═' | '╬' | '╧' | '╨' | '╤' | '╥' | '╙'
        | '╘' | '╒' | '╓' | '╫' | '╪' | '┘' | '┌' | '█' | '▄' | '▌' | '▐' | '▀' | 'α' | 'ß'
        | 'Γ' | 'π' | 'Σ' | 'σ' | 'µ' | 'τ' | 'Φ' | 'Θ' | 'Ω' | 'δ' | '∞' | 'φ' | 'ε' | '∩'
        | '≡' | '±' | '≥' | '≤' | '⌠' | '⌡' | '÷' | '≈' | '°' | '∙' | '·' | '√' | 'ⁿ' | '²'
        | '■' | '\u{00A0}' => true,
        _ => false,
    }
}

/// Validate that a single character is valid in CP437.
/// Returns the character if valid, or an error naming it.
pub fn cp437_char_only(ch: char) -> (r: Result<char, EncodingError>)
    ensures
        spec_is_cp437(ch) ==> r == Ok::<char, EncodingError>(ch),
        !spec_is_cp437(ch) ==> r == Err::<char, EncodingError>(
            EncodingError::UnsupportedCharacter(ch),
        ),
{
    if is_cp437_char(ch) {
        Ok(ch)
    } else {
        Err(EncodingError::UnsupportedCharacter(ch))
    }
}

} // verus!
