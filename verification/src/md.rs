//! A small Markdown rendering engine: fixed-width, column-aligned
//! tables over heterogeneous cell values, setext and atx headers, and
//! collapsible detail blocks for long bodies.
//!
//! Every renderer appends to a caller-supplied `String` and is pinned
//! by its contract to a spec-level description of the produced text,
//! so the output is byte-for-byte determined by the input.

use vstd::prelude::*;
use vstd::string::*;

verus! {

/// A table cell: plain text, an integer count, or nothing.
pub enum Cell {
    Text(String),
    Integer(i128),
    Empty,
}

/// The decimal digit `d` as a character.
pub open spec fn digit_char(d: int) -> char {
    if d == 0 {
        '0'
    } else if d == 1 {
        '1'
    } else if d == 2 {
        '2'
    } else if d == 3 {
        '3'
    } else if d == 4 {
        '4'
    } else if d == 5 {
        '5'
    } else if d == 6 {
        '6'
    } else if d == 7 {
        '7'
    } else if d == 8 {
        '8'
    } else {
        '9'
    }
}

/// The decimal digits of `n`, most significant first.
pub open spec fn dec_digits(n: nat) -> Seq<char>
    decreases n,
{
    if n < 10 {
        seq![digit_char(n as int)]
    } else {
        dec_digits(n / 10) + seq![digit_char((n % 10) as int)]
    }
}

/// The decimal rendering of an integer, with a leading `-` when it is
/// negative.
pub open spec fn dec_str(n: int) -> Seq<char> {
    if n < 0 {
        seq!['-'] + dec_digits((-n) as nat)
    } else {
        dec_digits(n as nat)
    }
}

/// The text a cell displays as: its own text, the decimal rendering of
/// its integer, or nothing.
pub open spec fn cell_text(c: Cell) -> Seq<char> {
    match c {
        Cell::Text(s) => s@,
        Cell::Integer(n) => dec_str(n as int),
        Cell::Empty => Seq::empty(),
    }
}

/// `n` copies of the character `c`.
pub open spec fn repeat_char(c: char, n: nat) -> Seq<char>
    decreases n,
{
    if n == 0 {
        Seq::empty()
    } else {
        repeat_char(c, (n - 1) as nat) + seq![c]
    }
}

/// `n` copies of the sequence `s`.
pub open spec fn repeat_seq(s: Seq<char>, n: nat) -> Seq<char>
    decreases n,
{
    if n == 0 {
        Seq::empty()
    } else {
        repeat_seq(s, (n - 1) as nat) + s
    }
}

/// Relies on `String::push`: appends the one character at the end of
/// the string.
#[verifier::external_body]
fn push_char(out: &mut String, c: char)
    ensures
        final(out)@ == old(out)@ + seq![c],
{
    out.push(c);
}

fn push_repeat_char(out: &mut String, c: char, n: usize)
    ensures
        final(out)@ == old(out)@ + repeat_char(c, n as nat),
{
    let mut i: usize = 0;
    while i < n
        invariant
            i <= n,
            out@ == old(out)@ + repeat_char(c, i as nat),
        decreases n - i,
    {
        push_char(out, c);
        proof {
            assert(old(out)@ + repeat_char(c, i as nat) + seq![c] =~= old(out)@ + repeat_char(
                c,
                (i + 1) as nat,
            ));
        }
        i += 1;
    }
}

fn push_repeat_str(out: &mut String, s: &str, n: usize)
    ensures
        final(out)@ == old(out)@ + repeat_seq(s@, n as nat),
{
    let mut i: usize = 0;
    while i < n
        invariant
            i <= n,
            out@ == old(out)@ + repeat_seq(s@, i as nat),
        decreases n - i,
    {
        out.append(s);
        proof {
            assert(old(out)@ + repeat_seq(s@, i as nat) + s@ =~= old(out)@ + repeat_seq(
                s@,
                (i + 1) as nat,
            ));
        }
        i += 1;
    }
}

fn digit_of(d: u128) -> (c: char)
    requires
        d < 10,
    ensures
        c == digit_char(d as int),
{
    if d == 0 {
        '0'
    } else if d == 1 {
        '1'
    } else if d == 2 {
        '2'
    } else if d == 3 {
        '3'
    } else if d == 4 {
        '4'
    } else if d == 5 {
        '5'
    } else if d == 6 {
        '6'
    } else if d == 7 {
        '7'
    } else if d == 8 {
        '8'
    } else {
        '9'
    }
}

fn push_dec_u128(out: &mut String, n: u128)
    ensures
        final(out)@ == old(out)@ + dec_digits(n as nat),
    decreases n,
{
    if n >= 10 {
        push_dec_u128(out, n / 10);
        let d = digit_of(n % 10);
        push_char(out, d);
    } else {
        let d = digit_of(n);
        push_char(out, d);
    }
}

/// Appends the decimal rendering of `n`.
fn push_dec_i128(out: &mut String, n: i128)
    ensures
        final(out)@ == old(out)@ + dec_str(n as int),
{
    if n < 0 {
        push_char(out, '-');
        let mag: u128 = ((-(n + 1)) as u128) + 1;
        assert(mag as int == -(n as int));
        push_dec_u128(out, mag);
        proof {
            assert(old(out)@ + seq!['-'] + dec_digits(mag as nat) =~= old(out)@ + dec_str(
                n as int,
            ));
        }
    } else {
        push_dec_u128(out, n as u128);
    }
}

/// The decimal rendering of `n` as an owned string.
pub fn dec_string(n: i128) -> (r: String)
    ensures
        r@ == dec_str(n as int),
{
    let mut out = String::new();
    push_dec_i128(&mut out, n);
    out
}

/// Renders a cell to the text it displays as.
pub fn render_cell(c: &Cell) -> (r: String)
    ensures
        r@ == cell_text(*c),
{
    let mut out = String::new();
    match c {
        Cell::Text(s) => {
            out.append(s.as_str());
        },
        Cell::Integer(n) => {
            push_dec_i128(&mut out, *n);
        },
        Cell::Empty => {},
    }
    out
}

/// Cell text padded to `width` columns: empty text becomes all spaces;
/// left-aligned text absorbs the spare columns on the right; centered
/// text splits them evenly, the right side taking the odd remainder.
pub open spec fn padded(content: Seq<char>, width: nat, center: bool) -> Seq<char>
    recommends
        content.len() <= width,
{
    if content.len() == 0 {
        repeat_char(' ', width)
    } else if !center {
        content + repeat_char(' ', (width - content.len()) as nat)
    } else {
        let diff = (width - content.len()) as nat;
        repeat_char(' ', diff / 2) + content + repeat_char(' ', diff / 2 + diff % 2)
    }
}

/// Pads a Markdown cell's text so the raw table stays aligned. Width
/// and padding are counted in Unicode scalar values.
pub fn pad_cell_text(content: &str, column_width: usize, align_center: bool) -> (r: String)
    requires
        content@.len() <= column_width,
    ensures
        r@ == padded(content@, column_width as nat, align_center),
{
    let mut result = String::new();
    let clen: usize = content.unicode_len();
    if clen > 0 {
        let len_diff: usize = column_width - clen;
        if len_diff > 0 {
            if !align_center {
                result.append(content);
                push_repeat_char(&mut result, ' ', len_diff);
            } else {
                let pad_len: usize = len_diff / 2;
                let remainder: usize = len_diff % 2;
                push_repeat_char(&mut result, ' ', pad_len);
                result.append(content);
                push_repeat_char(&mut result, ' ', pad_len + remainder);
                proof {
                    assert(result@ =~= padded(content@, column_width as nat, align_center));
                }
            }
        } else {
            result.append(content);
            proof {
                if align_center {
                    assert(result@ =~= padded(content@, column_width as nat, align_center));
                } else {
                    assert(result@ =~= padded(content@, column_width as nat, align_center));
                }
            }
        }
    } else {
        push_repeat_char(&mut result, ' ', column_width);
    }
    result
}

/// A setext-style header: the title on its own line, underlined by a
/// copy of `underline` per title character.
pub open spec fn header_md(underline: Seq<char>, title: Seq<char>) -> Seq<char> {
    seq!['\n'] + title + seq!['\n'] + repeat_seq(underline, title.len()) + seq!['\n']
}

/// The main header of the document.
pub open spec fn h1_md(title: Seq<char>) -> Seq<char> {
    header_md("="@, title)
}

/// A section header.
pub open spec fn h2_md(title: Seq<char>) -> Seq<char> {
    header_md("-"@, title)
}

/// An auxiliary header.
pub open spec fn h3_md(title: Seq<char>) -> Seq<char> {
    seq!['\n'] + "### "@ + title + " ###"@ + seq!['\n']
}

/// Helper to create the underlined kinds of header.
pub fn create_header(md: &mut String, underline: &str, title: &str)
    ensures
        final(md)@ == old(md)@ + header_md(underline@, title@),
{
    push_char(md, '\n');
    md.append(title);
    push_char(md, '\n');
    let n: usize = title.unicode_len();
    push_repeat_str(md, underline, n);
    push_char(md, '\n');
    proof {
        assert(md@ =~= old(md)@ + header_md(underline@, title@));
    }
}

/// Creates the main header in Markdown.
pub fn create_h1(md: &mut String, title: &str)
    ensures
        final(md)@ == old(md)@ + h1_md(title@),
{
    create_header(md, "=", title);
}

/// Creates a secondary header in Markdown.
pub fn create_h2(md: &mut String, title: &str)
    ensures
        final(md)@ == old(md)@ + h2_md(title@),
{
    create_header(md, "-", title);
}

/// Creates an auxiliary header in Markdown.
pub fn create_h3(md: &mut String, title: &str)
    ensures
        final(md)@ == old(md)@ + h3_md(title@),
{
    push_char(md, '\n');
    md.append("### ");
    md.append(title);
    md.append(" ###");
    push_char(md, '\n');
    proof {
        assert(md@ =~= old(md)@ + h3_md(title@));
    }
}

/// The first `n` characters of `s`, with `p` inserted after every
/// newline among them.
pub open spec fn tabulated_upto(s: Seq<char>, p: Seq<char>, n: int) -> Seq<char>
    decreases n,
{
    if n <= 0 {
        Seq::empty()
    } else {
        tabulated_upto(s, p, n - 1) + (if s[n - 1] == '\n' {
            seq!['\n'] + p
        } else {
            seq![s[n - 1]]
        })
    }
}

/// `s` with `p` prepended before the text and after every newline in it.
pub open spec fn tabulate_md(s: Seq<char>, p: Seq<char>) -> Seq<char> {
    p + tabulated_upto(s, p, s.len() as int)
}

/// Appends `to_prepend` before the text and after each of its newlines,
/// indenting a multi-line body as one block.
pub fn tabulate(input: &str, to_prepend: &str) -> (r: String)
    ensures
        r@ == tabulate_md(input@, to_prepend@),
{
    let mut result = String::new();
    result.append(to_prepend);
    let len: usize = input.unicode_len();
    let mut i: usize = 0;
    while i < len
        invariant
            i <= len,
            len == input@.len(),
            result@ == to_prepend@ + tabulated_upto(input@, to_prepend@, i as int),
        decreases len - i,
    {
        let c = input.get_char(i);
        push_char(&mut result, c);
        if c == '\n' {
            result.append(to_prepend);
        }
        proof {
            assert(result@ =~= to_prepend@ + tabulated_upto(input@, to_prepend@, i + 1));
        }
        i += 1;
    }
    result
}

/// A collapsible GFM block: a `<details>` element with a `<summary>`
/// label and the body indented by four spaces, surrounded by blank
/// lines.
pub open spec fn code_detail_md(summary: Seq<char>, code: Seq<char>) -> Seq<char> {
    "<details>\n"@ + "    <summary>"@ + summary + "</summary>\n"@ + "\n"@ + tabulate_md(
        code,
        "    "@,
    ) + "\n"@ + "</details>\n"@ + "\n"@
}

/// Creates a collapsible spoiler block in Markdown (GFM).
pub fn create_code_detail(md: &mut String, summary: &str, code: &str)
    ensures
        final(md)@ == old(md)@ + code_detail_md(summary@, code@),
{
    md.append("<details>\n");
    md.append("    <summary>");
    md.append(summary);
    md.append("</summary>\n");
    md.append("\n");
    let body = tabulate(code, "    ");
    md.append(body.as_str());
    md.append("\n");
    md.append("</details>\n");
    md.append("\n");
    proof {
        assert(md@ =~= old(md)@ + code_detail_md(summary@, code@));
    }
}

/// The texts a row of cells displays as.
pub open spec fn row_text(r: Seq<Cell>) -> Seq<Seq<char>> {
    r.map_values(|c: Cell| cell_text(c))
}

/// The texts a table of cells displays as.
pub open spec fn rows_text(rows: Seq<Vec<Cell>>) -> Seq<Seq<Seq<char>>> {
    rows.map_values(|r: Vec<Cell>| row_text(r@))
}

/// The width of column `j` over the first `n` rows: the longest cell
/// text in the column, and at least 3 so the divider dashes render
/// meaningfully.
pub open spec fn col_width_upto(rows: Seq<Seq<Seq<char>>>, j: int, n: int) -> nat
    decreases n,
{
    if n <= 0 {
        3
    } else {
        let prev = col_width_upto(rows, j, n - 1);
        let cur = rows[n - 1][j].len();
        if cur > prev {
            cur
        } else {
            prev
        }
    }
}

/// The width of column `j` over the whole table.
pub open spec fn col_width(rows: Seq<Seq<Seq<char>>>, j: int) -> nat {
    col_width_upto(rows, j, rows.len() as int)
}

proof fn lemma_col_width_ge3(rows: Seq<Seq<Seq<char>>>, j: int, n: int)
    ensures
        col_width_upto(rows, j, n) >= 3,
    decreases n,
{
    if n > 0 {
        lemma_col_width_ge3(rows, j, n - 1);
    }
}

proof fn lemma_col_width_bound(rows: Seq<Seq<Seq<char>>>, j: int, i: int, n: int)
    requires
        0 <= i < n,
    ensures
        col_width_upto(rows, j, n) >= rows[i][j].len(),
    decreases n,
{
    if i < n - 1 {
        lemma_col_width_bound(rows, j, i, n - 1);
    }
}

/// The first `n` cells of a row, each padded to its column's width and
/// followed by the `|` delimiter. The first cell of a body row is
/// left-aligned when `left_first` asks for it; all others center.
pub open spec fn row_cells_upto(
    row: Seq<Seq<char>>,
    rows: Seq<Seq<Seq<char>>>,
    n: int,
    left_first: bool,
) -> Seq<char>
    decreases n,
{
    if n <= 0 {
        Seq::empty()
    } else {
        row_cells_upto(row, rows, n - 1, left_first) + padded(
            row[n - 1],
            col_width(rows, n - 1),
            !(left_first && n - 1 == 0),
        ) + seq!['|']
    }
}

/// One rendered table row: pipe-delimited padded cells on one line.
pub open spec fn row_line(row: Seq<Seq<char>>, rows: Seq<Seq<Seq<char>>>, left_first: bool) -> Seq<
    char,
> {
    seq!['|'] + row_cells_upto(row, rows, row.len() as int, left_first) + seq!['\n']
}

/// The first `n` cells of the divider row: dashes at each column's
/// width, pipe-delimited.
pub open spec fn divider_cells_upto(rows: Seq<Seq<Seq<char>>>, n: int) -> Seq<char>
    decreases n,
{
    if n <= 0 {
        Seq::empty()
    } else {
        divider_cells_upto(rows, n - 1) + repeat_char('-', col_width(rows, n - 1)) + seq!['|']
    }
}

/// The divider row between the header and the body.
pub open spec fn divider_line(rows: Seq<Seq<Seq<char>>>) -> Seq<char> {
    seq!['|'] + divider_cells_upto(rows, rows[0].len() as int) + seq!['\n']
}

/// The body rows with index below `n` (the header, row 0, is not a
/// body row).
pub open spec fn data_rows_upto(rows: Seq<Seq<Seq<char>>>, n: int, left_first: bool) -> Seq<char>
    decreases n,
{
    if n <= 1 {
        Seq::empty()
    } else {
        data_rows_upto(rows, n - 1, left_first) + row_line(rows[n - 1], rows, left_first)
    }
}

/// The whole rendered table: the header row (always centered), the
/// divider, each body row, and a blank line after the table. Fewer
/// than 2 rows render as nothing, since a table needs at least a
/// header and one data row.
pub open spec fn md_table(rows: Seq<Seq<Seq<char>>>, left_first: bool) -> Seq<char> {
    if rows.len() < 2 {
        Seq::empty()
    } else {
        row_line(rows[0], rows, false) + divider_line(rows) + data_rows_upto(
            rows,
            rows.len() as int,
            left_first,
        ) + seq!['\n']
    }
}

/// Renders a table in Markdown: rows top to bottom, the first row
/// being the headers, each row its cells left to right. All rows must
/// have the same column count.
pub fn create_md_table(md: &mut String, rows: Vec<Vec<Cell>>, align_left_first_column: bool)
    requires
        forall|i: int|
            0 <= i < rows@.len() ==> (#[trigger] rows@[i])@.len() == rows@[0]@.len(),
    ensures
        final(md)@ == old(md)@ + md_table(rows_text(rows@), align_left_first_column),
        rows@.len() < 2 ==> final(md)@ == old(md)@,
{
    let ghost t = rows_text(rows@);
    if rows.len() < 2 {
        // we need at least one header row and one value row
        return ;
    }
    // render each cell once to the text it displays as
    let mut texts: Vec<Vec<String>> = Vec::new();
    let mut i: usize = 0;
    while i < rows.len()
        invariant
            i <= rows@.len(),
            texts@.len() == i,
            t == rows_text(rows@),
            t.len() == rows@.len(),
            forall|a: int| 0 <= a < rows@.len() ==> #[trigger] t[a].len() == rows@[a]@.len(),
            forall|a: int, b: int|
                0 <= a < rows@.len() && 0 <= b < rows@[a]@.len() ==> #[trigger] t[a][b]
                    == cell_text(rows@[a]@[b]),
            forall|a: int| 0 <= a < i ==> (#[trigger] texts@[a])@.len() == rows@[a]@.len(),
            forall|a: int, b: int|
                0 <= a < i && 0 <= b < rows@[a]@.len() ==> (#[trigger] texts@[a]@[b])@
                    == t[a][b],
        decreases rows@.len() - i,
    {
        let row = &rows[i];
        let mut trow: Vec<String> = Vec::new();
        let mut j: usize = 0;
        while j < row.len()
            invariant
                j <= row@.len(),
                trow@.len() == j,
                row == &rows@[i as int],
                i < rows@.len(),
                forall|b: int| 0 <= b < j ==> (#[trigger] trow@[b])@ == cell_text(row@[b]),
            decreases row@.len() - j,
        {
            let cell = render_cell(&row[j]);
            trow.push(cell);
            j += 1;
        }
        texts.push(trow);
        i += 1;
    }
    // detect the width of each column
    let column_count: usize = rows[0].len();
    let mut widths: Vec<usize> = Vec::new();
    let mut j: usize = 0;
    while j < column_count
        invariant
            j <= column_count,
            widths@.len() == j,
            column_count == rows@[0]@.len(),
            t == rows_text(rows@),
            t.len() == rows@.len() && t.len() >= 2,
            texts@.len() == t.len(),
            forall|a: int| 0 <= a < t.len() ==> #[trigger] t[a].len() == column_count,
            forall|a: int| 0 <= a < t.len() ==> (#[trigger] texts@[a])@.len() == column_count,
            forall|a: int, b: int|
                0 <= a < t.len() && 0 <= b < column_count ==> (#[trigger] texts@[a]@[b])@
                    == t[a][b],
            forall|b: int| 0 <= b < j ==> #[trigger] widths@[b] as nat == col_width(t, b),
        decreases column_count - j,
    {
        let mut w: usize = 3;
        let mut i2: usize = 0;
        while i2 < texts.len()
            invariant
                i2 <= texts@.len(),
                j < column_count,
                t == rows_text(rows@),
                texts@.len() == t.len(),
                forall|a: int| 0 <= a < t.len() ==> (#[trigger] texts@[a])@.len() == column_count,
                forall|a: int, b: int|
                    0 <= a < t.len() && 0 <= b < column_count ==> (#[trigger] texts@[a]@[b])@
                        == t[a][b],
                column_count == rows@[0]@.len(),
                forall|a: int| 0 <= a < t.len() ==> #[trigger] t[a].len() == column_count,
                w as nat == col_width_upto(t, j as int, i2 as int),
            decreases texts@.len() - i2,
        {
            let l: usize = texts[i2][j].as_str().unicode_len();
            if l > w {
                w = l;
            }
            i2 += 1;
        }
        widths.push(w);
        j += 1;
    }
    // header row
    push_char(md, '|');
    let mut j: usize = 0;
    while j < column_count
        invariant
            j <= column_count,
            t == rows_text(rows@),
            t.len() == rows@.len() && t.len() >= 2,
            texts@.len() == t.len(),
            column_count == rows@[0]@.len(),
            forall|a: int| 0 <= a < t.len() ==> #[trigger] t[a].len() == column_count,
            forall|a: int| 0 <= a < t.len() ==> (#[trigger] texts@[a])@.len() == column_count,
            forall|a: int, b: int|
                0 <= a < t.len() && 0 <= b < column_count ==> (#[trigger] texts@[a]@[b])@
                    == t[a][b],
            widths@.len() == column_count,
            forall|b: int| 0 <= b < column_count ==> #[trigger] widths@[b] as nat == col_width(
                t,
                b,
            ),
            md@ == old(md)@ + seq!['|'] + row_cells_upto(t[0], t, j as int, false),
        decreases column_count - j,
    {
        proof {
            lemma_col_width_ge3(t, j as int, t.len() as int);
            lemma_col_width_bound(t, j as int, 0, t.len() as int);
        }
        let padded_text = pad_cell_text(texts[0][j].as_str(), widths[j], true);
        md.append(padded_text.as_str());
        push_char(md, '|');
        proof {
            assert(md@ =~= old(md)@ + seq!['|'] + row_cells_upto(t[0], t, j + 1, false));
        }
        j += 1;
    }
    push_char(md, '\n');
    proof {
        assert(md@ =~= old(md)@ + row_line(t[0], t, false));
    }
    let ghost after_header = md@;
    // divider row
    push_char(md, '|');
    let mut j: usize = 0;
    while j < column_count
        invariant
            j <= column_count,
            t == rows_text(rows@),
            t.len() >= 2,
            column_count == rows@[0]@.len(),
            widths@.len() == column_count,
            forall|b: int| 0 <= b < column_count ==> #[trigger] widths@[b] as nat == col_width(
                t,
                b,
            ),
            md@ == after_header + seq!['|'] + divider_cells_upto(t, j as int),
        decreases column_count - j,
    {
        push_repeat_char(md, '-', widths[j]);
        push_char(md, '|');
        proof {
            assert(md@ =~= after_header + seq!['|'] + divider_cells_upto(t, j + 1));
        }
        j += 1;
    }
    push_char(md, '\n');
    proof {
        assert(t[0].len() == column_count);
        assert(md@ =~= after_header + divider_line(t));
    }
    let ghost after_divider = md@;
    // body rows
    let mut i: usize = 1;
    while i < texts.len()
        invariant
            1 <= i <= texts@.len(),
            t == rows_text(rows@),
            t.len() == rows@.len() && t.len() >= 2,
            texts@.len() == t.len(),
            column_count == rows@[0]@.len(),
            forall|a: int| 0 <= a < t.len() ==> #[trigger] t[a].len() == column_count,
            forall|a: int| 0 <= a < t.len() ==> (#[trigger] texts@[a])@.len() == column_count,
            forall|a: int, b: int|
                0 <= a < t.len() && 0 <= b < column_count ==> (#[trigger] texts@[a]@[b])@
                    == t[a][b],
            widths@.len() == column_count,
            forall|b: int| 0 <= b < column_count ==> #[trigger] widths@[b] as nat == col_width(
                t,
                b,
            ),
            md@ == after_divider + data_rows_upto(t, i as int, align_left_first_column),
        decreases texts@.len() - i,
    {
        push_char(md, '|');
        let mut j: usize = 0;
        while j < column_count
            invariant
                j <= column_count,
                1 <= i < texts@.len(),
                t == rows_text(rows@),
                t.len() >= 2,
                texts@.len() == t.len(),
                column_count == rows@[0]@.len(),
                forall|a: int| 0 <= a < t.len() ==> #[trigger] t[a].len() == column_count,
                forall|a: int| 0 <= a < t.len() ==> (#[trigger] texts@[a])@.len() == column_count,
                forall|a: int, b: int|
                    0 <= a < t.len() && 0 <= b < column_count ==> (#[trigger] texts@[a]@[b])@
                        == t[a][b],
                widths@.len() == column_count,
                forall|b: int| 0 <= b < column_count ==> #[trigger] widths@[b] as nat == col_width(
                    t,
                    b,
                ),
                md@ == after_divider + data_rows_upto(t, i as int, align_left_first_column)
                    + seq!['|'] + row_cells_upto(
                t[i as int],
                t,
                j as int,
                align_left_first_column,
            ),
            decreases column_count - j,
        {
            proof {
                lemma_col_width_ge3(t, j as int, t.len() as int);
                lemma_col_width_bound(t, j as int, i as int, t.len() as int);
            }
            let center: bool = !(align_left_first_column && j == 0);
            let padded_text = pad_cell_text(texts[i][j].as_str(), widths[j], center);
            md.append(padded_text.as_str());
            push_char(md, '|');
            proof {
                assert(md@ =~= after_divider + data_rows_upto(t, i as int, align_left_first_column)
                    + seq!['|'] + row_cells_upto(t[i as int], t, j + 1, align_left_first_column));
            }
            j += 1;
        }
        push_char(md, '\n');
        proof {
            assert(md@ =~= after_divider + data_rows_upto(t, i + 1, align_left_first_column));
        }
        i += 1;
    }
    push_char(md, '\n');
    proof {
        assert(md@ =~= old(md)@ + md_table(t, align_left_first_column));
    }
}

} // verus!
