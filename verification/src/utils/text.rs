//! Text assembly: joining strings, escape sequences for coloured glyphs, and
//! the layout of a frame's cells into lines.

use colored::Colorize;
use vstd::prelude::*;

verus! {

/// `String::push` appends one character and changes nothing else, as the
/// standard library documents.
pub assume_specification[ String::push ](s: &mut String, c: char)
    ensures
        final(s)@ == old(s)@.push(c),
;

/// All the parts, one after the other.
pub open spec fn concat(parts: Seq<Seq<char>>) -> Seq<char>
    decreases parts.len(),
{
    if parts.len() == 0 {
        Seq::empty()
    } else {
        concat(parts.drop_last()) + parts.last()
    }
}

/// The characters of each string.
pub open spec fn views(strings: Seq<String>) -> Seq<Seq<char>> {
    Seq::new(strings.len(), |i: int| strings[i]@)
}

/// Adding a part at the end adds its characters at the end.
pub proof fn lemma_concat_push(parts: Seq<Seq<char>>, part: Seq<char>)
    ensures
        concat(parts.push(part)) == concat(parts) + part,
{
    assert(parts.push(part).drop_last() =~= parts);
}

/// Joins the strings without a separator.
pub fn merge_string_vec(str_ver: Vec<String>) -> (merged: String)
    ensures
        merged@ == concat(views(str_ver@)),
{
    let mut merged = String::new();
    let mut i: usize = 0;
    while i < str_ver.len()
        invariant
            i <= str_ver.len(),
            merged@ == concat(views(str_ver@).take(i as int)),
        decreases str_ver.len() - i,
    {
        proof {
            let parts = views(str_ver@);
            lemma_concat_push(parts.take(i as int), parts[i as int]);
            assert(parts.take(i as int).push(parts[i as int]) =~= parts.take(i + 1));
        }
        merged.append(str_ver[i].as_str());
        i += 1;
    }
    assert(views(str_ver@).take(i as int) =~= views(str_ver@));
    merged
}

/// Calls `String::into_boxed_str`, which keeps the characters and gives up
/// the spare capacity, as the standard library documents.
#[verifier::external_body]
fn into_boxed_str(s: String) -> (boxed: Box<str>)
    ensures
        boxed@ == s@,
{
    s.into_boxed_str()
}

/// Calls `Box::leak`, which hands out the boxed value for the rest of the
/// program and never frees it, as the standard library documents.
#[verifier::external_body]
fn leak_boxed_str(boxed: Box<str>) -> (leaked: &'static str)
    ensures
        leaked@ == boxed@,
{
    Box::leak(boxed)
}

/// Gives the string a life as long as the program's. The memory is never
/// given back.
pub fn string_to_static_str(s: String) -> (leaked: &'static str)
    ensures
        leaked@ == s@,
{
    leak_boxed_str(into_boxed_str(s))
}

/// The characters of a string in reverse order.
pub fn reverse_string(text: &str) -> (result: String)
    ensures
        result@ == text@.reverse(),
{
    let mut chars: Vec<char> = Vec::new();
    for c in iter: text.chars()
        invariant
            iter.seq() == text@,
            chars@ == iter.seq().take(iter.index() as int),
    {
        chars.push(c);
    }
    let mut result = String::new();
    let mut i: usize = chars.len();
    while i > 0
        invariant
            i <= chars.len(),
            chars@ == text@,
            result@ == text@.reverse().take(chars.len() - i),
        decreases i,
    {
        i -= 1;
        result.push(chars[i]);
        assert(result@ =~= text@.reverse().take(chars.len() - i));
    }
    assert(text@.reverse().take(chars.len() as int) =~= text@.reverse());
    result
}

/// Text of the cell at `index` as it stands in the frame: a line break comes
/// before every cell that starts a row other than the first.
pub open spec fn cell_in_frame(texts: Seq<Seq<char>>, width: nat, index: int) -> Seq<char> {
    if index > 0 && index % (width as int) == 0 {
        seq!['\n'] + texts[index]
    } else {
        texts[index]
    }
}

/// The cells' texts laid out in rows of `width` cells: rows are separated by
/// one line break, and none follows the last row.
pub open spec fn frame_text(texts: Seq<Seq<char>>, width: nat) -> Seq<char> {
    concat(Seq::new(texts.len(), |i: int| cell_in_frame(texts, width, i)))
}

/// Every glyph as a text of its own.
pub open spec fn singletons(glyphs: Seq<char>) -> Seq<Seq<char>> {
    Seq::new(glyphs.len(), |i: int| seq![glyphs[i]])
}

/// Where the glyph in column `column` of row `row` stands in the text of a
/// frame of bare glyphs: every row before it takes `width` glyphs and a line
/// break.
pub open spec fn plain_position(row: int, column: int, width: nat) -> int {
    row * (width + 1) + column
}

/// A quotient grows by one exactly at the multiples of the divisor.
proof fn lemma_quotient_step(k: int, width: int)
    requires
        k > 0,
        width > 0,
    ensures
        k % width == 0 ==> k / width == (k - 1) / width + 1,
        k % width != 0 ==> k / width == (k - 1) / width,
{
    let q = k / width;
    let r = k % width;
    vstd::arithmetic::div_mod::lemma_fundamental_div_mod(k, width);
    if r == 0 {
        assert(k - 1 == (q - 1) * width + (width - 1)) by (nonlinear_arith)
            requires
                k == width * q + r,
                r == 0,
        ;
        vstd::arithmetic::div_mod::lemma_fundamental_div_mod_converse(
            k - 1,
            width,
            q - 1,
            width - 1,
        );
    } else {
        assert(k - 1 == q * width + (r - 1)) by (nonlinear_arith)
            requires
                k == width * q + r,
        ;
        vstd::arithmetic::div_mod::lemma_fundamental_div_mod_converse(k - 1, width, q, r - 1);
    }
}

/// Where the glyph of the cell at `index` stands in the text of a frame of
/// bare glyphs: after the glyphs before it and one line break for each row
/// before its own.
pub open spec fn glyph_position(index: int, width: int) -> int {
    index + index / width
}

/// Where the line break before the cell at `index` stands, if the cell starts
/// a row: just before the cell's glyph.
pub open spec fn break_position(index: int, width: int) -> int {
    index + index / width - 1
}

/// The text of the first `count` cells of a frame of bare glyphs holds every
/// glyph and every line break at its place, and nothing else.
proof fn lemma_plain_prefix(glyphs: Seq<char>, width: nat, count: nat)
    requires
        width > 0,
        count <= glyphs.len(),
    ensures
        ({
            let cells = singletons(glyphs);
            let pieces = Seq::new(cells.len(), |i: int| cell_in_frame(cells, width, i));
            let text = concat(pieces.take(count as int));
            &&& count == 0 ==> text.len() == 0
            &&& count > 0 ==> text.len() == count + (count - 1) / (width as int)
            &&& forall|i: int|
                0 <= i < count ==> text[#[trigger] glyph_position(i, width as int)] == glyphs[i]
            &&& forall|i: int|
                0 < i < count && i % (width as int) == 0 ==> text[#[trigger] break_position(
                    i,
                    width as int,
                )] == '\n'
        }),
    decreases count,
{
    let cells = singletons(glyphs);
    let pieces = Seq::new(cells.len(), |i: int| cell_in_frame(cells, width, i));
    let w = width as int;
    if count == 0 {
        assert(pieces.take(0) =~= Seq::<Seq<char>>::empty());
    } else {
        let k = (count - 1) as int;
        lemma_plain_prefix(glyphs, width, k as nat);
        let before = concat(pieces.take(k));
        let text = concat(pieces.take(count as int));
        assert(pieces.take(k).push(pieces[k]) =~= pieces.take(count as int));
        lemma_concat_push(pieces.take(k), pieces[k]);
        assert(text == before + pieces[k]);
        assert(cells[k] == seq![glyphs[k]]);
        if k > 0 {
            lemma_quotient_step(k, w);
            if k % w == 0 {
                assert(pieces[k] =~= seq!['\n', glyphs[k]]);
                assert(text[before.len() as int] == '\n');
                assert(text[before.len() as int + 1] == glyphs[k]);
            } else {
                assert(pieces[k] =~= seq![glyphs[k]]);
                assert(text[before.len() as int] == glyphs[k]);
            }
        } else {
            assert(0int / w == 0) by (nonlinear_arith)
                requires
                    w > 0,
            ;
            assert(pieces[k] =~= seq![glyphs[k]]);
            assert(text[0] == glyphs[0]);
        }
        assert forall|i: int| 0 <= i < count implies text[#[trigger] glyph_position(i, w)]
            == glyphs[i] by {
            if i < k {
                lemma_offset_grows(i, k, w);
                assert(text[glyph_position(i, w)] == before[glyph_position(i, w)]);
            }
        }
        assert forall|i: int| 0 < i < count && i % w == 0 implies text[#[trigger] break_position(
            i,
            w,
        )] == '\n' by {
            if i < k {
                lemma_offset_grows(i, k, w);
                lemma_quotient_step(i, w);
                assert(text[break_position(i, w)] == before[break_position(i, w)]);
            }
        }
    }
}

/// The place of a cell's glyph lies before the end of the text of all cells
/// up to a later one.
proof fn lemma_offset_grows(i: int, k: int, width: int)
    requires
        0 <= i < k,
        width > 0,
    ensures
        0 <= i / width,
        i + i / width < k + (k - 1) / width,
{
    assert(0 <= i / width && i / width <= (k - 1) / width) by (nonlinear_arith)
        requires
            0 <= i <= k - 1,
            width > 0,
    ;
}

/// The text of a frame of bare glyphs, by rows and columns: the glyph in
/// column `c` of row `r` stands at `r * (width + 1) + c`, a line break ends
/// every row but the last, and nothing else is in the text.
pub proof fn lemma_plain_frame_layout(glyphs: Seq<char>, width: nat, height: nat)
    requires
        width > 0,
        height > 0,
        glyphs.len() == width * height,
    ensures
        frame_text(singletons(glyphs), width).len() == width * height + height - 1,
        forall|row: int, column: int|
            0 <= row < height && 0 <= column < width ==> frame_text(
                singletons(glyphs),
                width,
            )[#[trigger] plain_position(row, column, width)] == glyphs[row * width + column],
        forall|row: int|
            0 <= row < height - 1 ==> frame_text(singletons(glyphs), width)[#[trigger] plain_position(
                row,
                width as int,
                width,
            )] == '\n',
{
    let cells = singletons(glyphs);
    let pieces = Seq::new(cells.len(), |i: int| cell_in_frame(cells, width, i));
    let text = frame_text(cells, width);
    let w = width as int;
    let h = height as int;
    let count = glyphs.len();
    assert(pieces.take(count as int) =~= pieces);
    lemma_plain_prefix(glyphs, width, count);
    assert(count > 0) by (nonlinear_arith)
        requires
            count == width * height,
            width > 0,
            height > 0,
    ;
    assert(count - 1 == (h - 1) * w + (w - 1)) by (nonlinear_arith)
        requires
            count == w * h,
    ;
    vstd::arithmetic::div_mod::lemma_fundamental_div_mod_converse(count - 1, w, h - 1, w - 1);
    assert forall|row: int, column: int| 0 <= row < height && 0 <= column < width implies text[#[trigger] plain_position(
        row,
        column,
        width,
    )] == glyphs[row * width + column] by {
        let i = row * w + column;
        vstd::arithmetic::div_mod::lemma_fundamental_div_mod_converse(i, w, row, column);
        assert(0 <= i < count) by (nonlinear_arith)
            requires
                i == row * w + column,
                0 <= row < h,
                0 <= column < w,
                count == w * h,
        ;
        assert(plain_position(row, column, width) == i + i / w) by (nonlinear_arith)
            requires
                i == row * w + column,
                i / w == row,
                plain_position(row, column, width) == row * (w + 1) + column,
        ;
        assert(text[glyph_position(i, w)] == glyphs[i]);
    }
    assert forall|row: int| 0 <= row < height - 1 implies text[#[trigger] plain_position(
        row,
        width as int,
        width,
    )] == '\n' by {
        let i = (row + 1) * w;
        vstd::arithmetic::div_mod::lemma_fundamental_div_mod_converse(i, w, row + 1, 0);
        assert(0 < i < count) by (nonlinear_arith)
            requires
                i == (row + 1) * w,
                0 <= row < h - 1,
                w > 0,
                count == w * h,
        ;
        assert(plain_position(row, w, width) == i + i / w - 1) by (nonlinear_arith)
            requires
                i == (row + 1) * w,
                i / w == row + 1,
                plain_position(row, w, width) == row * (w + 1) + w,
        ;
        assert(text[break_position(i, w)] == '\n');
    }
}

/// Lays the cells' texts out in rows of `width` cells.
pub fn format_cells(texts: Vec<String>, width: u32) -> (text: String)
    requires
        width > 0,
    ensures
        text@ == frame_text(views(texts@), width as nat),
{
    let ghost cells = views(texts@);
    let ghost pieces = Seq::new(cells.len(), |i: int| cell_in_frame(cells, width as nat, i));
    let mut parts: Vec<String> = Vec::new();
    let mut i: usize = 0;
    while i < texts.len()
        invariant
            i <= texts.len(),
            width > 0,
            cells == views(texts@),
            pieces == Seq::new(cells.len(), |i: int| cell_in_frame(cells, width as nat, i)),
            parts@.len() == i,
            forall|j: int| 0 <= j < i ==> (#[trigger] parts@[j])@ == pieces[j],
        decreases texts.len() - i,
    {
        let mut part = String::new();
        if i > 0 && i % (width as usize) == 0 {
            part.push('\n');
        }
        part.append(texts[i].as_str());
        assert(part@ =~= pieces[i as int]);
        parts.push(part);
        i += 1;
    }
    assert(views(parts@) =~= pieces);
    merge_string_vec(parts)
}

/// The decimal digit for a number below ten.
pub open spec fn digit(d: nat) -> char {
    (48 + d) as char
}

/// A number written in decimal, without leading zeros.
pub open spec fn decimal(n: nat) -> Seq<char>
    decreases n,
{
    if n < 10 {
        seq![digit(n)]
    } else {
        decimal(n / 10).push(digit(n % 10))
    }
}

/// The two characters that open an escape sequence.
pub open spec fn escape_start() -> Seq<char> {
    seq!['\x1b', '[']
}

/// The sequence that sets all attributes back.
pub open spec fn escape_reset() -> Seq<char> {
    seq!['\x1b', '[', '0', 'm']
}

/// A glyph in a 24-bit foreground colour.
pub open spec fn truecolor_text(glyph: char, r: u8, g: u8, b: u8) -> Seq<char> {
    escape_start() + seq!['3', '8', ';', '2', ';'] + decimal(r as nat) + seq![';'] + decimal(
        g as nat,
    ) + seq![';'] + decimal(b as nat) + seq!['m', glyph] + escape_reset()
}

/// A glyph in one of the sixteen colours of the basic palette.
pub open spec fn palette_text(glyph: char, code: nat) -> Seq<char> {
    escape_start() + decimal(code) + seq!['m', glyph] + escape_reset()
}

/// The foreground codes of the basic palette: eight colours and their bright
/// forms.
pub open spec fn is_palette_code(code: nat) -> bool {
    30 <= code <= 37 || 90 <= code <= 97
}

/// What a coloured glyph may look like. Whether colours are written at all, and
/// whether 24-bit colours are, is decided by the terminal's environment: the
/// glyph comes bare, in its own colour, or in a colour of the basic palette.
pub open spec fn is_colored_text(text: Seq<char>, glyph: char, r: u8, g: u8, b: u8) -> bool {
    ||| text == seq![glyph]
    ||| text == truecolor_text(glyph, r, g, b)
    ||| exists|code: nat| is_palette_code(code) && text == #[trigger] palette_text(glyph, code)
}

/// Calls `colored::Colorize::truecolor` on the glyph and formats the result
/// with its `Display`. That crate reads the environment: without colours it
/// writes the glyph alone; with them it writes the escape sequence for the
/// 24-bit colour where `COLORTERM` announces such colours, else the one for
/// the nearest colour of the basic palette; then the glyph and the reset
/// sequence.
#[verifier::external_body]
pub(crate) fn colored_glyph(glyph: char, r: u8, g: u8, b: u8) -> (text: String)
    ensures
        is_colored_text(text@, glyph, r, g, b),
{
    glyph.to_string().truecolor(r, g, b).to_string()
}

/// The glyph as a string of its own.
pub fn plain_glyph(glyph: char) -> (text: String)
    ensures
        text@ == seq![glyph],
{
    let mut text = String::new();
    text.push(glyph);
    text
}

} // verus!
