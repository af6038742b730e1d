//! The IRC color table and the ANSI escape sequences built from it.

use vstd::prelude::*;
use vstd::string::*;

verus! {

/// The control byte that starts an IRC color code.
pub const INTRODUCER: u8 = 0x03;

/// ASCII line feed.
pub const NEWLINE: u8 = 0x0a;

/// ASCII comma, which separates a foreground from a background number.
pub const COMMA: u8 = 0x2c;

/// ASCII escape, the first byte of every SGR sequence.
pub const ESCAPE: u8 = 0x1b;

/// ASCII `[`, which follows the escape byte.
pub const BRACKET: u8 = 0x5b;

/// ASCII `3`, the SGR prefix of a foreground color.
pub const FOREGROUND: u8 = 0x33;

/// ASCII `4`, the SGR prefix of a background color.
pub const BACKGROUND: u8 = 0x34;

/// ASCII `9`, the SGR suffix of the default color.
pub const DEFAULT_COLOR: u8 = 0x39;

/// ASCII `m`, which ends every SGR sequence.
pub const SGR_END: u8 = 0x6d;

/// Number of entries in the IRC color table.
pub const COLOR_COUNT: u8 = 16;

/// The SGR parameter suffix of IRC color `color`, as text. The suffix follows
/// a `3` (foreground) or a `4` (background) inside the escape sequence.
pub open spec fn color_suffix(color: u8) -> Seq<char>
    recommends
        color < COLOR_COUNT,
{
    match color {
        0 => "7"@,
        1 => "8;5;235"@,
        2 => "4"@,
        3 => "2"@,
        4 => "1"@,
        5 => "8;5;52"@,
        6 => "5"@,
        7 => "8;5;209"@,
        8 => "3"@,
        9 => "8;5;47"@,
        10 => "6"@,
        11 => "6"@,
        12 => "8;5;56"@,
        13 => "8;5;200"@,
        14 => "8;5;241"@,
        _ => "7"@,
    }
}

/// The bytes of a text made of ASCII characters only, one byte per character.
pub open spec fn ascii_bytes(text: Seq<char>) -> Seq<u8> {
    Seq::new(text.len(), |i: int| text[i] as u8)
}

/// The escape sequence that selects IRC color `color` as the foreground
/// (`foreground` set) or background color: escape, `[`, `3` or `4`, the
/// color's suffix, `m`.
pub open spec fn color_sequence(foreground: bool, color: u8) -> Seq<u8>
    recommends
        color < COLOR_COUNT,
{
    seq![ESCAPE, BRACKET, if foreground { FOREGROUND } else { BACKGROUND }]
        + ascii_bytes(color_suffix(color)) + seq![SGR_END]
}

/// The escape sequence that ends a color span: default foreground (`39`),
/// then default background (`49`).
pub open spec fn reset_sequence() -> Seq<u8> {
    seq![
        ESCAPE, BRACKET, FOREGROUND, DEFAULT_COLOR, SGR_END,
        ESCAPE, BRACKET, BACKGROUND, DEFAULT_COLOR, SGR_END,
    ]
}

/// Every suffix in the color table is ASCII text.
pub proof fn lemma_color_suffix_is_ascii(color: u8)
    ensures
        vstd::utf8::is_ascii_chars(color_suffix(color)),
{
    reveal_strlit("7");
    reveal_strlit("8;5;235");
    reveal_strlit("4");
    reveal_strlit("2");
    reveal_strlit("1");
    reveal_strlit("8;5;52");
    reveal_strlit("5");
    reveal_strlit("8;5;209");
    reveal_strlit("3");
    reveal_strlit("8;5;47");
    reveal_strlit("6");
    reveal_strlit("8;5;56");
    reveal_strlit("8;5;200");
    reveal_strlit("8;5;241");
}

/// Looks up the SGR parameter suffix of an IRC color index.
pub fn lookup_irc_color(color: u8) -> (suffix: &'static str)
    requires
        color < COLOR_COUNT,
    ensures
        suffix@ == color_suffix(color),
{
    match color {
        0 => "7",
        1 => "8;5;235",
        2 => "4",
        3 => "2",
        4 => "1",
        5 => "8;5;52",
        6 => "5",
        7 => "8;5;209",
        8 => "3",
        9 => "8;5;47",
        10 => "6",
        11 => "6",
        12 => "8;5;56",
        13 => "8;5;200",
        14 => "8;5;241",
        _ => "7",
    }
}

/// Appends to `output` the escape sequence that selects IRC color `color` as
/// the foreground or background color.
pub fn output_color(output: &mut Vec<u8>, foreground: bool, color: u8)
    requires
        color < COLOR_COUNT,
    ensures
        final(output)@ == old(output)@ + color_sequence(foreground, color),
{
    let suffix = lookup_irc_color(color);
    proof {
        lemma_color_suffix_is_ascii(color);
        is_ascii_spec_bytes(suffix);
    }
    output.push(ESCAPE);
    output.push(BRACKET);
    output.push(if foreground { FOREGROUND } else { BACKGROUND });
    output.extend_from_slice(suffix.as_bytes());
    output.push(SGR_END);
}

/// Appends to `output` the escape sequence that ends a color span.
pub fn output_reset(output: &mut Vec<u8>)
    ensures
        final(output)@ == old(output)@ + reset_sequence(),
{
    output.push(ESCAPE);
    output.push(BRACKET);
    output.push(FOREGROUND);
    output.push(DEFAULT_COLOR);
    output.push(SGR_END);
    output.push(ESCAPE);
    output.push(BRACKET);
    output.push(BACKGROUND);
    output.push(DEFAULT_COLOR);
    output.push(SGR_END);
}

} // verus!
