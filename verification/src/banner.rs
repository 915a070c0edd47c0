//! Large lettering for the title: every character drawn eight cells wide
//! and eight rows high from its bitmap, and the colours of the rows.

use vstd::prelude::*;
use vstd::string::*;
use font8x8::{UnicodeFonts, BASIC_FONTS};
use crate::text::{chars_of, push_char};

verus! {

/// A title takes nine lines: an empty one above the eight rows.
pub const BANNER_LINES: usize = 9;

/// The eight rows of the bitmap of a character, top row first, where the
/// basic set of the font holds the character. In a row, bit `k` (the lowest
/// being bit 0) tells whether cell `k` from the left is set.
pub uninterp spec fn glyph_rows(c: char) -> Option<Seq<u8>>;

pub open spec fn glyph_view(glyph: Option<[u8; 8]>) -> Option<Seq<u8>> {
    match glyph {
        Some(rows) => Some(rows@),
        None => None,
    }
}

/// `font8x8::BASIC_FONTS.get` (`UnicodeFonts::get`): the bitmap that the
/// font's basic set holds for the character. The set holds the characters
/// from U+0000 to U+007F and no others.
#[verifier::external_body]
fn basic_glyph(c: char) -> (glyph: Option<[u8; 8]>)
    ensures
        glyph_view(glyph) == glyph_rows(c),
        glyph is Some <==> (c as u32) < 128,
{
    BASIC_FONTS.get(c)
}

pub open spec fn bit_set(bits: u8, k: u8) -> bool {
    (bits >> k) & 1 == 1
}

/// A row of a bitmap in text: two characters per cell, `[]` for a cell that
/// is set and two spaces for one that is not.
pub open spec fn row_text(bits: u8) -> Seq<char> {
    Seq::new(
        16,
        |p: int|
            if bit_set(bits, (p / 2) as u8) {
                if p % 2 == 0 {
                    '['
                } else {
                    ']'
                }
            } else {
                ' '
            },
    )
}

pub open spec fn spaces(width: nat) -> Seq<char> {
    Seq::new(width, |p: int| ' ')
}

/// What a character with the bitmap `rows` adds to line `line` of a title:
/// eight spaces to the line on top, its row in text to each line below.
pub open spec fn glyph_line(rows: Seq<u8>, line: int) -> Seq<char> {
    if line == 0 {
        spaces(8)
    } else {
        row_text(rows[line - 1])
    }
}

/// Line `line` of the title `text`. Characters that the font does not hold
/// add nothing.
pub open spec fn banner_line(text: Seq<char>, line: int) -> Seq<char>
    decreases text.len(),
{
    if text.len() == 0 {
        Seq::empty()
    } else {
        let before = banner_line(text.drop_last(), line);
        match glyph_rows(text.last()) {
            Some(rows) => before + glyph_line(rows, line),
            None => before,
        }
    }
}

fn push_spaces(out: &mut String, width: usize)
    ensures
        final(out)@ == old(out)@ + spaces(width as nat),
{
    let mut i: usize = 0;
    proof {
        assert(out@ =~= old(out)@ + spaces(0));
    }
    while i < width
        invariant
            i <= width,
            out@ == old(out)@ + spaces(i as nat),
        decreases width - i,
    {
        push_char(out, ' ');
        i = i + 1;
        proof {
            assert(out@ =~= old(out)@ + spaces(i as nat));
        }
    }
}

fn push_row(out: &mut String, bits: u8)
    ensures
        final(out)@ == old(out)@ + row_text(bits),
{
    let mut k: u8 = 0;
    proof {
        assert(out@ =~= old(out)@ + row_text(bits).take(0));
    }
    while k < 8
        invariant
            k <= 8,
            out@ == old(out)@ + row_text(bits).take(2 * k),
        decreases 8 - k,
    {
        let ghost before = out@;
        if (bits >> k) & 1 == 1 {
            push_char(out, '[');
            push_char(out, ']');
        } else {
            push_char(out, ' ');
            push_char(out, ' ');
        }
        proof {
            let row = row_text(bits);
            assert((2 * k) / 2 == k && (2 * k + 1) / 2 == k && (2 * k) % 2 == 0 && (2 * k + 1)
                % 2 == 1);
            assert(out@ == before.push(row[2 * k]).push(row[2 * k + 1]));
            assert(out@ =~= old(out)@ + row.take(2 * (k + 1)));
        }
        k = k + 1;
    }
    proof {
        assert(row_text(bits).take(16) =~= row_text(bits));
    }
}

/// Draws line `line` of the title `text`.
fn draw_line(text: &Vec<char>, line: usize) -> (out: String)
    requires
        line < BANNER_LINES,
    ensures
        out@ == banner_line(text@, line as int),
{
    let mut out = String::new();
    let mut i: usize = 0;
    proof {
        assert(text@.take(0) =~= Seq::<char>::empty());
    }
    while i < text.len()
        invariant
            i <= text@.len(),
            line < BANNER_LINES,
            out@ == banner_line(text@.take(i as int), line as int),
        decreases text@.len() - i,
    {
        proof {
            assert(text@.take(i + 1).drop_last() =~= text@.take(i as int));
            assert(text@.take(i + 1).last() == text@[i as int]);
        }
        match basic_glyph(text[i]) {
            Some(rows) => {
                if line == 0 {
                    push_spaces(&mut out, 8);
                } else {
                    push_row(&mut out, rows[line - 1]);
                }
            },
            None => {},
        }
        i = i + 1;
    }
    proof {
        assert(text@.take(i as int) =~= text@);
    }
    out
}

/// Draws the title `text` in large letters: nine lines, top line first.
pub fn display_large_text(text: &str) -> (lines: Vec<String>)
    ensures
        lines@.len() == BANNER_LINES,
        forall|line: int|
            0 <= line < BANNER_LINES ==> (#[trigger] lines@[line])@ == banner_line(text@, line),
{
    let chars = chars_of(text);
    let mut lines: Vec<String> = Vec::new();
    let mut line: usize = 0;
    while line < BANNER_LINES
        invariant
            line <= BANNER_LINES,
            lines@.len() == line,
            chars@ == text@,
            forall|j: int| 0 <= j < line ==> (#[trigger] lines@[j])@ == banner_line(text@, j),
        decreases BANNER_LINES - line,
    {
        let drawn = draw_line(&chars, line);
        lines.push(drawn);
        line = line + 1;
    }
    lines
}

/// The text without the `#` bytes at its start.
pub open spec fn strip_hashes(bytes: Seq<u8>) -> Seq<u8>
    decreases bytes.len(),
{
    if bytes.len() > 0 && bytes[0] == 0x23 {
        strip_hashes(bytes.drop_first())
    } else {
        bytes
    }
}

/// The value of a hexadecimal digit, in either case.
pub open spec fn hex_digit(byte: u8) -> Option<u8> {
    if 0x30 <= byte <= 0x39 {
        Some((byte - 0x30) as u8)
    } else if 0x61 <= byte <= 0x66 {
        Some((byte - 0x61 + 10) as u8)
    } else if 0x41 <= byte <= 0x46 {
        Some((byte - 0x41 + 10) as u8)
    } else {
        None
    }
}

/// The number that two bytes spell in hexadecimal: two digits, or a plus
/// sign and one digit. Anything else counts as zero.
pub open spec fn hex_pair(high: u8, low: u8) -> u8 {
    match (hex_digit(high), hex_digit(low)) {
        (Some(h), Some(l)) => (16 * h + l) as u8,
        (None, Some(l)) => if high == 0x2b {
            l
        } else {
            0
        },
        _ => 0,
    }
}

/// The colour that a text such as `#FFE6CC` names: after the `#`, two
/// bytes each for red, green and blue.
pub open spec fn rgb_of(bytes: Seq<u8>) -> (u8, u8, u8) {
    let digits = strip_hashes(bytes);
    (
        hex_pair(digits[0], digits[1]),
        hex_pair(digits[2], digits[3]),
        hex_pair(digits[4], digits[5]),
    )
}

fn read_hex_digit(byte: u8) -> (digit: Option<u8>)
    ensures
        digit == hex_digit(byte),
{
    if 0x30 <= byte && byte <= 0x39 {
        Some(byte - 0x30)
    } else if 0x61 <= byte && byte <= 0x66 {
        Some(byte - 0x61 + 10)
    } else if 0x41 <= byte && byte <= 0x46 {
        Some(byte - 0x41 + 10)
    } else {
        None
    }
}

fn read_hex_pair(high: u8, low: u8) -> (value: u8)
    ensures
        value == hex_pair(high, low),
{
    match (read_hex_digit(high), read_hex_digit(low)) {
        (Some(h), Some(l)) => 16 * h + l,
        (None, Some(l)) => if high == 0x2b {
            l
        } else {
            0
        },
        _ => 0,
    }
}

/// Reads a colour from its hexadecimal notation.
pub fn hex_to_rgb(hex: &str) -> (rgb: (u8, u8, u8))
    requires
        strip_hashes(hex.spec_bytes()).len() >= 6,
    ensures
        rgb == rgb_of(hex.spec_bytes()),
{
    let bytes = hex.as_bytes();
    let mut start: usize = 0;
    proof {
        assert(bytes@.skip(0) =~= bytes@);
    }
    while start < bytes.len() && bytes[start] == 0x23
        invariant
            start <= bytes@.len(),
            strip_hashes(bytes@) == strip_hashes(bytes@.skip(start as int)),
        decreases bytes@.len() - start,
    {
        proof {
            assert(bytes@.skip(start as int).drop_first() =~= bytes@.skip(start + 1));
        }
        start = start + 1;
    }
    proof {
        assert(strip_hashes(bytes@) == bytes@.skip(start as int));
    }
    (
        read_hex_pair(bytes[start], bytes[start + 1]),
        read_hex_pair(bytes[start + 2], bytes[start + 3]),
        read_hex_pair(bytes[start + 4], bytes[start + 5]),
    )
}

/// The colour of line `line` of the title, in hexadecimal notation.
pub fn banner_color(line: usize) -> (hex: &'static str)
    requires
        line < BANNER_LINES,
    ensures
        hex@ == banner_colors()[line as int],
{
    if line == 0 {
        "#FFE6CC"
    } else if line == 1 {
        "#FFCCB3"
    } else if line == 2 {
        "#FFB399"
    } else if line == 3 {
        "#E6B3FF"
    } else if line == 4 {
        "#B380FF"
    } else if line == 5 {
        "#805AD0"
    } else if line == 6 {
        "#4D33A3"
    } else if line == 7 {
        "#33266E"
    } else {
        "#1A204A"
    }
}

/// The colours of the nine lines of a title, from top to bottom.
pub open spec fn banner_colors() -> Seq<Seq<char>> {
    seq![
        "#FFE6CC"@,
        "#FFCCB3"@,
        "#FFB399"@,
        "#E6B3FF"@,
        "#B380FF"@,
        "#805AD0"@,
        "#4D33A3"@,
        "#33266E"@,
        "#1A204A"@,
    ]
}

} // verus!
