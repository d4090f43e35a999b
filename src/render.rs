//! Hex dumps of opaque byte regions: rows of thirty-two bytes, each shown
//! as hexadecimal pairs followed by a column of printable glyphs.

use crate::block::HexData;
use itertools::Itertools;
use vstd::prelude::*;
use vstd::string::StringExecFns;

verus! {

/// Number of bytes shown on one row of a dump.
pub const ROW_WIDTH: usize = 32;

/// Characters that the glyph column shows as they are: ASCII letters and
/// digits, the space, and a fixed set of punctuation.
pub open spec fn shown_as_is(c: char) -> bool {
    ||| ('a' <= c && c <= 'z')
    ||| ('A' <= c && c <= 'Z')
    ||| ('0' <= c && c <= '9')
    ||| c == ':' || c == ';' || c == '@' || c == '/' || c == '\\' || c == '|'
    ||| c == '?' || c == '!' || c == '+' || c == '*' || c == '.' || c == ','
    ||| c == ' ' || c == '-' || c == '_' || c == '\'' || c == '"' || c == '='
    ||| c == '(' || c == ')' || c == '{' || c == '}' || c == '[' || c == ']'
    ||| c == '&' || c == '>' || c == '<'
}

/// The glyph that the dump shows for a character: the character itself
/// when it is shown as is, a visible symbol for line feed, carriage return
/// and NUL, and the replacement character for everything else.
pub open spec fn ascii_glyph(c: char) -> char {
    if shown_as_is(c) {
        c
    } else if c == '\n' {
        '\u{240A}'
    } else if c == '\r' {
        '\u{240D}'
    } else if c == '\0' {
        '\u{2400}'
    } else {
        '\u{FFFD}'
    }
}

/// The glyph that the dump shows for a byte, read as a character.
pub open spec fn byte_glyph(b: u8) -> char {
    ascii_glyph(b as char)
}

/// Maps a character to its glyph in the dump's text column.
pub fn make_ascii(c: char) -> (r: char)
    ensures
        r == ascii_glyph(c),
{
    if ('a' <= c && c <= 'z') || ('A' <= c && c <= 'Z') || ('0' <= c && c <= '9') || c == ':'
        || c == ';' || c == '@' || c == '/' || c == '\\' || c == '|' || c == '?' || c == '!' || c
        == '+' || c == '*' || c == '.' || c == ',' || c == ' ' || c == '-' || c == '_' || c
        == '\'' || c == '"' || c == '=' || c == '(' || c == ')' || c == '{' || c == '}' || c
        == '[' || c == ']' || c == '&' || c == '>' || c == '<' {
        c
    } else if c == '\n' {
        '\u{240A}'
    } else if c == '\r' {
        '\u{240D}'
    } else if c == '\0' {
        '\u{2400}'
    } else {
        '\u{FFFD}'
    }
}

/// Upper-case hexadecimal digit of a value below sixteen.
pub open spec fn hex_digit(n: u8) -> char {
    if n < 10 {
        (48 + n) as char
    } else {
        (55 + n) as char
    }
}

/// Upper-case hexadecimal digit of a value below sixteen.
fn hex_digit_char(n: u8) -> (r: char)
    requires
        n < 16,
    ensures
        r == hex_digit(n),
{
    if n < 10 {
        (48 + n) as char
    } else {
        (55 + n) as char
    }
}

/// The two hexadecimal digits of a byte, high digit first.
pub open spec fn hex_cell(b: u8) -> (char, char) {
    (hex_digit(b / 16), hex_digit(b % 16))
}

/// The cell that stands in the place of a missing byte on a short row.
pub open spec fn placeholder_cell() -> (char, char) {
    ('.', '.')
}

/// The cell at position `i` of the hex section of a row of bytes.
pub open spec fn cell_at(row: Seq<u8>, i: int) -> (char, char) {
    if i < row.len() {
        hex_cell(row[i])
    } else {
        placeholder_cell()
    }
}

/// The first `n` cells of a row's hex section, each followed by a space.
pub open spec fn hex_section(row: Seq<u8>, n: int) -> Seq<char>
    decreases n,
{
    if n <= 0 {
        Seq::empty()
    } else {
        hex_section(row, n - 1) + seq![cell_at(row, n - 1).0, cell_at(row, n - 1).1, ' ']
    }
}

/// The text column of a row: one glyph per byte present.
pub open spec fn glyph_column(row: Seq<u8>) -> Seq<char> {
    row.map_values(|b: u8| byte_glyph(b))
}

/// One line of the dump: thirty-two cells, then the glyphs between bars.
pub open spec fn row_text(row: Seq<u8>) -> Seq<char> {
    hex_section(row, ROW_WIDTH as int) + seq![' ', '|'] + glyph_column(row) + seq!['|', '\n']
}

/// Number of rows in the dump of `n` bytes.
pub open spec fn row_count(n: int) -> int {
    (n + 31) / 32
}

/// The bytes shown on row `k` of the dump of `b`.
pub open spec fn row_bytes(b: Seq<u8>, k: int) -> Seq<u8> {
    let end = if 32 * k + 32 <= b.len() {
        32 * k + 32
    } else {
        b.len() as int
    };
    b.subrange(32 * k, end)
}

/// The first `k` rows of the dump of `b`.
pub open spec fn rows_text(b: Seq<u8>, k: int) -> Seq<char>
    decreases k,
{
    if k <= 0 {
        Seq::empty()
    } else {
        rows_text(b, k - 1) + row_text(row_bytes(b, k - 1))
    }
}

/// The whole dump of `b`; an empty region has no rows.
pub open spec fn dump_text(b: Seq<u8>) -> Seq<char> {
    rows_text(b, row_count(b.len() as int))
}

/// Relies on std's `String::push`: the character is added at the end.
#[verifier::external_body]
fn push_char(s: &mut String, c: char)
    ensures
        final(s)@ == old(s)@.push(c),
{
    s.push(c)
}

/// Relies on itertools' `Itertools::chunks`: consecutive pieces of `size`
/// items in order, the last one shorter when the items run out. It panics
/// on a size of zero.
#[verifier::external_body]
fn chunk_bytes(b: &Vec<u8>, size: usize) -> (r: Vec<Vec<u8>>)
    requires
        size > 0,
    ensures
        r@.len() == (b@.len() + size - 1) / size as int,
        forall|k: int|
            0 <= k < r@.len() ==> #[trigger] r@[k]@ == b@.subrange(
                k * size,
                if (k + 1) * size <= b@.len() {
                    (k + 1) * size
                } else {
                    b@.len() as int
                },
            ),
{
    b.iter().chunks(size).into_iter().map(|c| c.copied().collect()).collect()
}

/// The filler of a short row.
fn placeholder() -> (r: (char, char))
    ensures
        r == placeholder_cell(),
{
    ('.', '.')
}

/// Relies on itertools' `Itertools::pad_using`: the items are kept in order
/// and, while fewer than `min` have come, the filler is added after them.
#[verifier::external_body]
fn pad_cells(cells: Vec<(char, char)>, min: usize) -> (r: Vec<(char, char)>)
    ensures
        r@.len() == if cells@.len() < min {
            min as int
        } else {
            cells@.len() as int
        },
        forall|i: int| 0 <= i < cells@.len() ==> #[trigger] r@[i] == cells@[i],
        forall|i: int| cells@.len() <= i < min ==> #[trigger] r@[i] == placeholder_cell(),
{
    cells.into_iter().pad_using(min, |_| placeholder()).collect()
}

/// Renders one row of at most thirty-two bytes.
fn render_row(row: &Vec<u8>) -> (r: String)
    requires
        row@.len() <= ROW_WIDTH,
    ensures
        r@ == row_text(row@),
{
    let mut cells: Vec<(char, char)> = Vec::new();
    let mut i: usize = 0;
    while i < row.len()
        invariant
            i <= row@.len(),
            cells@.len() == i,
            forall|j: int| 0 <= j < i ==> #[trigger] cells@[j] == hex_cell(row@[j]),
        decreases row@.len() - i,
    {
        let b = row[i];
        cells.push((hex_digit_char(b / 16), hex_digit_char(b % 16)));
        i = i + 1;
    }
    let cells = pad_cells(cells, ROW_WIDTH);
    let mut out = String::new();
    let mut j: usize = 0;
    while j < ROW_WIDTH
        invariant
            j <= ROW_WIDTH,
            cells@.len() == ROW_WIDTH,
            forall|k: int| 0 <= k < ROW_WIDTH ==> #[trigger] cells@[k] == cell_at(row@, k),
            out@ == hex_section(row@, j as int),
        decreases ROW_WIDTH - j,
    {
        let cell = cells[j];
        push_char(&mut out, cell.0);
        push_char(&mut out, cell.1);
        push_char(&mut out, ' ');
        j = j + 1;
    }
    push_char(&mut out, ' ');
    push_char(&mut out, '|');
    let ghost head = out@;
    let mut i: usize = 0;
    while i < row.len()
        invariant
            i <= row@.len(),
            out@ == head + glyph_column(row@.subrange(0, i as int)),
        decreases row@.len() - i,
    {
        push_char(&mut out, make_ascii(row[i] as char));
        assert(glyph_column(row@.subrange(0, i + 1)) =~= glyph_column(row@.subrange(0, i as int))
            + seq![byte_glyph(row@[i as int])]);
        i = i + 1;
    }
    assert(row@.subrange(0, row@.len() as int) =~= row@);
    push_char(&mut out, '|');
    push_char(&mut out, '\n');
    out
}

impl HexData {
    /// The hex dump of the region: one line per thirty-two bytes, each with
    /// thirty-two space-terminated cells (two upper-case hex digits, or `..`
    /// past the end of the region), a space, and the glyphs of the bytes
    /// present between two bars.
    pub fn hex_dump(&self) -> (r: String)
        ensures
            r@ == dump_text(self@),
    {
        let rows = chunk_bytes(&self.0, ROW_WIDTH);
        let mut out = String::new();
        let mut k: usize = 0;
        while k < rows.len()
            invariant
                k <= rows@.len(),
                rows@.len() == row_count(self@.len() as int),
                forall|m: int| 0 <= m < rows@.len() ==> #[trigger] rows@[m]@ == row_bytes(self@, m),
                out@ == rows_text(self@, k as int),
            decreases rows@.len() - k,
        {
            let line = render_row(&rows[k]);
            out.append(line.as_str());
            k = k + 1;
        }
        out
    }
}

/// Each row of a dump has thirty-two cells of three characters: cell `i`
/// holds the hex digits of byte `i` of the row, or the placeholder where
/// the row has no byte `i`. The text column has one glyph per byte present.
pub proof fn lemma_row_shape(row: Seq<u8>)
    requires
        row.len() <= ROW_WIDTH,
    ensures
        row_text(row).len() == 3 * ROW_WIDTH + 2 + row.len() + 2,
        glyph_column(row).len() == row.len(),
        forall|i: int|
            0 <= i < ROW_WIDTH ==> #[trigger] row_text(row).subrange(3 * i, 3 * i + 3) == seq![
                cell_at(row, i).0,
                cell_at(row, i).1,
                ' ',
            ],
        forall|i: int|
            0 <= i < row.len() ==> #[trigger] row_text(row)[3 * ROW_WIDTH + 2 + i] == byte_glyph(
                row[i],
            ),
{
    lemma_hex_section(row, ROW_WIDTH as int);
    let t = row_text(row);
    let h = hex_section(row, ROW_WIDTH as int);
    assert forall|i: int| 0 <= i < ROW_WIDTH implies #[trigger] t.subrange(3 * i, 3 * i + 3)
        == seq![cell_at(row, i).0, cell_at(row, i).1, ' '] by {
        assert(t.subrange(3 * i, 3 * i + 3) =~= h.subrange(3 * i, 3 * i + 3));
    }
}

/// The first `n` cells of a hex section take three characters each.
proof fn lemma_hex_section(row: Seq<u8>, n: int)
    requires
        n >= 0,
    ensures
        hex_section(row, n).len() == 3 * n,
        forall|i: int|
            0 <= i < n ==> #[trigger] hex_section(row, n).subrange(3 * i, 3 * i + 3) == seq![
                cell_at(row, i).0,
                cell_at(row, i).1,
                ' ',
            ],
    decreases n,
{
    if n > 0 {
        lemma_hex_section(row, n - 1);
        let prev = hex_section(row, n - 1);
        let cur = hex_section(row, n);
        assert forall|i: int| 0 <= i < n implies #[trigger] cur.subrange(3 * i, 3 * i + 3)
            == seq![cell_at(row, i).0, cell_at(row, i).1, ' '] by {
            if i < n - 1 {
                assert(cur.subrange(3 * i, 3 * i + 3) =~= prev.subrange(3 * i, 3 * i + 3));
            } else {
                assert(cur.subrange(3 * i, 3 * i + 3) =~= seq![
                    cell_at(row, i).0,
                    cell_at(row, i).1,
                    ' ',
                ]);
            }
        }
    }
}

/// A dump of `n` bytes has one row per thirty-two bytes, rounded up: every
/// row but the last is full, and the last holds what is left, at least one.
pub proof fn lemma_dump_rows(b: Seq<u8>)
    ensures
        row_count(b.len() as int) * 32 >= b.len(),
        b.len() > 0 ==> (row_count(b.len() as int) - 1) * 32 < b.len(),
        forall|k: int|
            0 <= k < row_count(b.len() as int) - 1 ==> #[trigger] row_bytes(b, k).len() == 32,
        b.len() > 0 ==> row_bytes(b, row_count(b.len() as int) - 1).len() == b.len() - 32 * (
        row_count(b.len() as int) - 1),
        dump_text(b) == rows_text(b, row_count(b.len() as int)),
{
}

/// Every byte has exactly one glyph, and a single byte renders as one row
/// whose text column is that glyph alone.
pub proof fn lemma_single_byte_dump(b: u8)
    ensures
        dump_text(seq![b]) == row_text(seq![b]),
        glyph_column(seq![b]) == seq![byte_glyph(b)],
        shown_as_is(b as char) ==> byte_glyph(b) == b as char,
        !shown_as_is(b as char) ==> byte_glyph(b) == '\u{240A}' || byte_glyph(b) == '\u{240D}'
            || byte_glyph(b) == '\u{2400}' || byte_glyph(b) == '\u{FFFD}',
{
    assert(row_bytes(seq![b], 0) =~= seq![b]);
    assert(rows_text(seq![b], 0) =~= Seq::<char>::empty());
    assert(rows_text(seq![b], 1) =~= row_text(seq![b]));
    assert(glyph_column(seq![b]) =~= seq![byte_glyph(b)]);
}

} // verus!
