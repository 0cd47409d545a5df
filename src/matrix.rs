//! Text on a 7x5 LED matrix: characters as glyph indices, and rows of
//! pixels for a window of eight columns.
use vstd::prelude::*;

verus! {

/// Number of glyphs: digits, capital letters, and a space.
pub const GLYPHS: u8 = 37;

/// Glyph index of the space.
pub const SPACE_GLYPH: u8 = 36;

/// Most glyph indices a translation keeps.
pub const TEXT_MAX: usize = 64;

/// Columns of the output window.
pub const OUTPUT_BITS: u8 = 8;

/// Rows of a glyph.
pub const GLYPH_ROWS: usize = 5;

/// Width in columns of glyph `i`.
pub open spec fn glyph_width(i: u8) -> u8 {
    match i {
        0 => 3,
        1 => 2,
        2 => 3,
        3 => 2,
        4 => 3,
        5 => 3,
        6 => 3,
        7 => 3,
        8 => 3,
        9 => 3,
        10 => 3,
        11 => 3,
        12 => 2,
        13 => 3,
        14 => 2,
        15 => 2,
        16 => 3,
        17 => 3,
        18 => 1,
        19 => 3,
        20 => 3,
        21 => 2,
        22 => 5,
        23 => 4,
        24 => 3,
        25 => 3,
        26 => 4,
        27 => 3,
        28 => 3,
        29 => 3,
        30 => 3,
        31 => 3,
        32 => 5,
        33 => 3,
        34 => 3,
        35 => 3,
        _ => 0,
    }
}

/// The rows of glyph `i`, right-aligned bits, top row first.
pub open spec fn glyph_rows(i: u8) -> Seq<u8> {
    match i {
        0 => seq![7u8, 5u8, 5u8, 5u8, 7u8],
        1 => seq![1u8, 3u8, 1u8, 1u8, 1u8],
        2 => seq![2u8, 5u8, 1u8, 6u8, 7u8],
        3 => seq![3u8, 1u8, 3u8, 1u8, 3u8],
        4 => seq![5u8, 5u8, 7u8, 1u8, 1u8],
        5 => seq![7u8, 4u8, 6u8, 1u8, 6u8],
        6 => seq![4u8, 4u8, 7u8, 5u8, 7u8],
        7 => seq![7u8, 1u8, 1u8, 2u8, 4u8],
        8 => seq![7u8, 5u8, 7u8, 5u8, 7u8],
        9 => seq![7u8, 5u8, 7u8, 1u8, 3u8],
        10 => seq![7u8, 5u8, 7u8, 5u8, 5u8],
        11 => seq![6u8, 5u8, 6u8, 5u8, 6u8],
        12 => seq![3u8, 2u8, 2u8, 2u8, 3u8],
        13 => seq![6u8, 5u8, 5u8, 5u8, 6u8],
        14 => seq![3u8, 2u8, 3u8, 2u8, 3u8],
        15 => seq![3u8, 2u8, 3u8, 2u8, 2u8],
        16 => seq![7u8, 4u8, 7u8, 5u8, 7u8],
        17 => seq![5u8, 5u8, 7u8, 5u8, 5u8],
        18 => seq![1u8, 0u8, 1u8, 1u8, 1u8],
        19 => seq![1u8, 1u8, 1u8, 5u8, 2u8],
        20 => seq![5u8, 5u8, 6u8, 5u8, 5u8],
        21 => seq![2u8, 2u8, 2u8, 2u8, 3u8],
        22 => seq![17u8, 27u8, 21u8, 17u8, 17u8],
        23 => seq![9u8, 13u8, 11u8, 9u8, 9u8],
        24 => seq![2u8, 5u8, 5u8, 5u8, 2u8],
        25 => seq![6u8, 5u8, 6u8, 4u8, 4u8],
        26 => seq![4u8, 10u8, 10u8, 6u8, 1u8],
        27 => seq![6u8, 5u8, 6u8, 5u8, 5u8],
        28 => seq![3u8, 4u8, 2u8, 1u8, 6u8],
        29 => seq![7u8, 2u8, 2u8, 2u8, 2u8],
        30 => seq![5u8, 5u8, 5u8, 5u8, 7u8],
        31 => seq![5u8, 5u8, 5u8, 5u8, 2u8],
        32 => seq![17u8, 17u8, 21u8, 27u8, 17u8],
        33 => seq![5u8, 5u8, 2u8, 5u8, 5u8],
        34 => seq![5u8, 5u8, 2u8, 2u8, 2u8],
        35 => seq![7u8, 1u8, 2u8, 4u8, 7u8],
        _ => seq![0u8, 0u8, 0u8, 0u8, 0u8],
    }
}

/// Width and rows of glyph `i`.
fn glyph(i: u8) -> (r: (u8, [u8; GLYPH_ROWS]))
    requires
        i < GLYPHS,
    ensures
        r.0 == glyph_width(i),
        r.1@ == glyph_rows(i),
{
    let r: (u8, [u8; GLYPH_ROWS]) = match i {
        0 => (3, [7, 5, 5, 5, 7]),
        1 => (2, [1, 3, 1, 1, 1]),
        2 => (3, [2, 5, 1, 6, 7]),
        3 => (2, [3, 1, 3, 1, 3]),
        4 => (3, [5, 5, 7, 1, 1]),
        5 => (3, [7, 4, 6, 1, 6]),
        6 => (3, [4, 4, 7, 5, 7]),
        7 => (3, [7, 1, 1, 2, 4]),
        8 => (3, [7, 5, 7, 5, 7]),
        9 => (3, [7, 5, 7, 1, 3]),
        10 => (3, [7, 5, 7, 5, 5]),
        11 => (3, [6, 5, 6, 5, 6]),
        12 => (2, [3, 2, 2, 2, 3]),
        13 => (3, [6, 5, 5, 5, 6]),
        14 => (2, [3, 2, 3, 2, 3]),
        15 => (2, [3, 2, 3, 2, 2]),
        16 => (3, [7, 4, 7, 5, 7]),
        17 => (3, [5, 5, 7, 5, 5]),
        18 => (1, [1, 0, 1, 1, 1]),
        19 => (3, [1, 1, 1, 5, 2]),
        20 => (3, [5, 5, 6, 5, 5]),
        21 => (2, [2, 2, 2, 2, 3]),
        22 => (5, [17, 27, 21, 17, 17]),
        23 => (4, [9, 13, 11, 9, 9]),
        24 => (3, [2, 5, 5, 5, 2]),
        25 => (3, [6, 5, 6, 4, 4]),
        26 => (4, [4, 10, 10, 6, 1]),
        27 => (3, [6, 5, 6, 5, 5]),
        28 => (3, [3, 4, 2, 1, 6]),
        29 => (3, [7, 2, 2, 2, 2]),
        30 => (3, [5, 5, 5, 5, 7]),
        31 => (3, [5, 5, 5, 5, 2]),
        32 => (5, [17, 17, 21, 27, 17]),
        33 => (3, [5, 5, 2, 5, 5]),
        34 => (3, [5, 5, 2, 2, 2]),
        35 => (3, [7, 1, 2, 4, 7]),
        _ => (0, [0, 0, 0, 0, 0]),
    };
    assert(r.1@ =~= glyph_rows(i));
    r
}

/// Row `row` of the window after drawing `chars` from index `ci` on onto
/// `out`, the next glyph starting `draw` columns in and shifted `extra`
/// columns further left.
pub open spec fn render_from(row: int, ci: int, extra: int, draw: int, out: u8, chars: Seq<u8>) -> u8
    decreases chars.len() - ci,
{
    if ci < 0 || ci >= chars.len() || draw >= OUTPUT_BITS {
        out
    } else {
        let a = chars[ci];
        let w = glyph_width(a) as int;
        let space: int = if a == SPACE_GLYPH {
            2
        } else {
            1
        };
        let shift = OUTPUT_BITS - w + extra - draw;
        let bits = glyph_rows(a)[row];
        let drawn: u8 = if -8 < shift < 8 {
            if shift >= 0 {
                out | (bits << (shift as u8))
            } else {
                out | (bits >> ((-shift) as u8))
            }
        } else {
            out
        };
        render_from(row, ci + 1, 0, draw + w + space - extra, drawn, chars)
    }
}

/// Row `row_index` of eight columns of text: glyphs `chars` from
/// `char_index` on, left to right with a column between them (two after a
/// space), the first one scrolled `char_offset` columns off to the left.
/// Offsets past 119 columns are excluded.
pub fn render(row_index: usize, char_index: usize, char_offset: u8, chars: &[u8]) -> (r: u8)
    requires
        row_index < GLYPH_ROWS,
        char_offset < 120,
        forall|i: int| 0 <= i < chars@.len() ==> #[trigger] chars@[i] < GLYPHS,
    ensures
        r == render_from(row_index as int, char_index as int, char_offset as int, 0, 0, chars@),
{
    let ghost first = char_index;
    let mut char_index: usize = char_index;
    let mut draw_position: i8 = 0;
    let mut extra_left_shift: u8 = char_offset;
    let mut output: u8 = 0;
    while char_index < chars.len() && draw_position < OUTPUT_BITS as i8
        invariant
            row_index < GLYPH_ROWS,
            forall|i: int| 0 <= i < chars@.len() ==> #[trigger] chars@[i] < GLYPHS,
            extra_left_shift < 120,
            extra_left_shift == 0 || draw_position == 0,
            -119 <= draw_position <= 15,
            render_from(row_index as int, char_index as int, extra_left_shift as int, draw_position as int, output, chars@)
                == render_from(row_index as int, first as int, char_offset as int, 0, 0, chars@),
        decreases chars.len() - char_index,
    {
        let alpha_index: u8 = chars[char_index];
        let (width, rows) = glyph(alpha_index);
        proof {
            assert(glyph_rows(alpha_index).len() == 5);
        }
        let space: u8 = if alpha_index == SPACE_GLYPH {
            2
        } else {
            1
        };
        let left_shift: i8 = (OUTPUT_BITS - width + extra_left_shift) as i8 - draw_position;
        let bits: u8 = rows[row_index];
        if -8 < left_shift && left_shift < 8 {
            let shifted: u8 = if left_shift >= 0 {
                bits << (left_shift as u8)
            } else {
                bits >> ((-left_shift) as u8)
            };
            output = output | shifted;
        }
        draw_position = draw_position + (width + space) as i8 - extra_left_shift as i8;
        char_index = char_index + 1;
        extra_left_shift = 0;
    }
    output
}

/// Glyph index of character `c`, if it has a glyph.
pub open spec fn glyph_of(c: char) -> Option<u8> {
    if '0' <= c && c <= '9' {
        Some((c as u32 - 48) as u8)
    } else if 'A' <= c && c <= 'Z' {
        Some((c as u32 - 55) as u8)
    } else if c == ' ' {
        Some(SPACE_GLYPH)
    } else {
        None
    }
}

/// Glyph indices of the characters of `s` that have a glyph, in order.
pub open spec fn translated(s: Seq<char>) -> Seq<u8>
    decreases s.len(),
{
    if s.len() == 0 {
        Seq::empty()
    } else {
        let t = translated(s.drop_last());
        match glyph_of(s.last()) {
            Some(g) => t.push(g),
            None => t,
        }
    }
}

/// Translating a longer text only adds glyph indices at the end.
proof fn lemma_translated_prefix(s: Seq<char>, j: int, k: int)
    requires
        0 <= j <= k <= s.len(),
    ensures
        translated(s.subrange(0, j)).len() <= translated(s.subrange(0, k)).len(),
        translated(s.subrange(0, j)) == translated(s.subrange(0, k)).subrange(
            0,
            translated(s.subrange(0, j)).len() as int,
        ),
    decreases k - j,
{
    if j < k {
        lemma_translated_prefix(s, j, k - 1);
        assert(s.subrange(0, k).drop_last() =~= s.subrange(0, k - 1));
        let a = translated(s.subrange(0, j));
        let b = translated(s.subrange(0, k - 1));
        let c = translated(s.subrange(0, k));
        assert(c.subrange(0, b.len() as int) =~= b);
        assert(c.subrange(0, a.len() as int) =~= b.subrange(0, a.len() as int));
    } else {
        let a = translated(s.subrange(0, j));
        assert(a.subrange(0, a.len() as int) =~= a);
    }
}

#[verifier::external_type_specification]
#[verifier::external_body]
#[verifier::reject_recursive_types(T)]
pub struct ExHeaplessVec<T, const N: usize>(heapless::Vec<T, N>);

/// The items held by a buffer of glyph indices.
pub uninterp spec fn text_items(v: heapless::Vec<u8, 64>) -> Seq<u8>;

/// Relies on `heapless::Vec::clear`, which truncates the buffer to no items.
#[verifier::external_body]
fn text_clear(v: &mut heapless::Vec<u8, TEXT_MAX>)
    ensures
        text_items(*final(v)).len() == 0,
{
    v.clear()
}

/// Relies on `heapless::Vec::is_full`: whether the length has reached the
/// capacity.
#[verifier::external_body]
fn text_is_full(v: &heapless::Vec<u8, TEXT_MAX>) -> (r: bool)
    ensures
        r == (text_items(*v).len() == TEXT_MAX),
{
    v.is_full()
}

/// Relies on `heapless::Vec::push`: appends below the capacity, else hands
/// the item back and leaves the buffer as it was.
#[verifier::external_body]
fn text_push(v: &mut heapless::Vec<u8, TEXT_MAX>, b: u8) -> (r: bool)
    ensures
        text_items(*old(v)).len() < TEXT_MAX ==> r && text_items(*final(v)) == text_items(
            *old(v),
        ).push(b),
        text_items(*old(v)).len() >= TEXT_MAX ==> !r && text_items(*final(v)) == text_items(
            *old(v),
        ),
{
    v.push(b).is_ok()
}

/// Glyph index of `c`, if it has a glyph.
pub fn glyph_index(c: char) -> (r: Option<u8>)
    ensures
        r == glyph_of(c),
{
    if '0' <= c && c <= '9' {
        Some((c as u32 - 48) as u8)
    } else if 'A' <= c && c <= 'Z' {
        Some((c as u32 - 55) as u8)
    } else if c == ' ' {
        Some(SPACE_GLYPH)
    } else {
        None
    }
}

/// Fills `v` with the glyph indices of the characters of `s` that have a
/// glyph (digits, capital letters, space), skipping the others and stopping
/// at `TEXT_MAX` indices.
pub fn translate(s: &str, v: &mut heapless::Vec<u8, TEXT_MAX>)
    ensures
        text_items(*final(v)) == if translated(s@).len() <= TEXT_MAX {
            translated(s@)
        } else {
            translated(s@).subrange(0, TEXT_MAX as int)
        },
{
    text_clear(v);
    let n: usize = s.unicode_len();
    let mut i: usize = 0;
    while i < n
        invariant
            n == s@.len(),
            i <= n,
            text_items(*v) == translated(s@.subrange(0, i as int)),
            text_items(*v).len() <= TEXT_MAX,
        decreases n - i,
    {
        if text_is_full(v) {
            proof {
                lemma_translated_prefix(s@, i as int, n as int);
                assert(s@.subrange(0, n as int) =~= s@);
            }
            return;
        }
        let c = s.get_char(i);
        let g = glyph_index(c);
        proof {
            assert(s@.subrange(0, i + 1).drop_last() =~= s@.subrange(0, i as int));
        }
        match g {
            Some(x) => {
                text_push(v, x);
            },
            None => {},
        }
        i = i + 1;
    }
    assert(s@.subrange(0, n as int) =~= s@);
}

} // verus!
