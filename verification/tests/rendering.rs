//! Tests of the Markdown building blocks: name simplification, cell
//! padding, table layout, headers and collapsible blocks.

use junit2md::lang_specific::omit_java_package;
use junit2md::md::{
    create_code_detail, create_h1, create_h2, create_h3, create_md_table, dec_string,
    pad_cell_text, render_cell, tabulate, Cell,
};

#[test]
fn simplify_strips_package() {
    assert_eq!(omit_java_package("org.example.Foo"), "Foo");
    assert_eq!(omit_java_package("a.b"), "b");
    assert_eq!(omit_java_package(".x"), "x");
}

#[test]
fn simplify_keeps_plain_names() {
    assert_eq!(omit_java_package("Foo"), "Foo");
    assert_eq!(omit_java_package(""), "");
}

#[test]
fn simplify_keeps_spaced_names() {
    assert_eq!(omit_java_package("does the right thing"), "does the right thing");
    assert_eq!(omit_java_package("a. spaced .name"), "a. spaced .name");
}

#[test]
fn simplify_keeps_trailing_separator() {
    assert_eq!(omit_java_package("pkg."), "pkg.");
    assert_eq!(omit_java_package("."), ".");
}

#[test]
fn simplify_is_idempotent_on_values() {
    for name in ["org.example.Foo", "Foo", "a b.c", "pkg.", "x.y.z"] {
        let once = omit_java_package(name).to_string();
        let twice = omit_java_package(&once).to_string();
        assert_eq!(once, twice);
    }
}

#[test]
fn pad_centers_with_right_remainder() {
    assert_eq!(pad_cell_text("ab", 5, true), " ab  ");
    assert_eq!(pad_cell_text("ab", 4, true), " ab ");
    assert_eq!(pad_cell_text("ab", 3, true), "ab ");
    assert_eq!(pad_cell_text("ab", 2, true), "ab");
}

#[test]
fn pad_left_aligns_on_request() {
    assert_eq!(pad_cell_text("ab", 5, false), "ab   ");
    assert_eq!(pad_cell_text("ab", 2, false), "ab");
}

#[test]
fn pad_fills_empty_cell_with_spaces() {
    assert_eq!(pad_cell_text("", 3, true), "   ");
    assert_eq!(pad_cell_text("", 4, false), "    ");
}

#[test]
fn pad_counts_unicode_scalars_not_bytes() {
    // one scalar value, three bytes in UTF-8
    assert_eq!(pad_cell_text("✓", 3, true), " ✓ ");
    assert_eq!(pad_cell_text("✓", 5, false), "✓    ");
}

#[test]
fn decimal_rendering_exact() {
    assert_eq!(dec_string(0), "0");
    assert_eq!(dec_string(7), "7");
    assert_eq!(dec_string(42), "42");
    assert_eq!(dec_string(100), "100");
    assert_eq!(dec_string(-1), "-1");
    assert_eq!(dec_string(-987), "-987");
    assert_eq!(dec_string(i128::MIN), "-170141183460469231731687303715884105728");
    assert_eq!(dec_string(i128::MAX), "170141183460469231731687303715884105727");
}

#[test]
fn cells_render_to_their_text() {
    assert_eq!(render_cell(&Cell::Text(String::from("hi"))), "hi");
    assert_eq!(render_cell(&Cell::Integer(-12)), "-12");
    assert_eq!(render_cell(&Cell::Empty), "");
}

#[test]
fn headers_exact() {
    let mut md = String::new();
    create_h1(&mut md, "Foo");
    assert_eq!(md, "\nFoo\n===\n");
    let mut md = String::new();
    create_h2(&mut md, "Overall status");
    assert_eq!(md, "\nOverall status\n--------------\n");
    let mut md = String::new();
    create_h3(&mut md, "B");
    assert_eq!(md, "\n### B ###\n");
}

#[test]
fn header_underline_counts_unicode_scalars() {
    let mut md = String::new();
    create_h1(&mut md, "✓✓");
    assert_eq!(md, "\n✓✓\n==\n");
}

#[test]
fn tabulate_indents_every_line() {
    assert_eq!(tabulate("a\nb", "    "), "    a\n    b");
    assert_eq!(tabulate("", "    "), "    ");
    assert_eq!(tabulate("x", "  "), "  x");
    assert_eq!(tabulate("a\n", "  "), "  a\n  ");
}

#[test]
fn code_detail_exact() {
    let mut md = String::new();
    create_code_detail(&mut md, "S", "line1\nline2");
    assert_eq!(
        md,
        "<details>\n    <summary>S</summary>\n\n    line1\n    line2\n</details>\n\n"
    );
}

fn text_row(cells: &[&str]) -> Vec<Cell> {
    cells.iter().map(|c| Cell::Text(String::from(*c))).collect()
}

#[test]
fn table_with_fewer_than_two_rows_renders_nothing() {
    let mut md = String::new();
    create_md_table(&mut md, Vec::new(), false);
    assert_eq!(md, "");
    let mut md = String::new();
    create_md_table(&mut md, vec![text_row(&["only", "header"])], true);
    assert_eq!(md, "");
}

#[test]
fn table_layout_exact() {
    let rows = vec![text_row(&["A", "B"]), text_row(&["x", "yyyy"])];
    let mut md = String::new();
    create_md_table(&mut md, rows, false);
    assert_eq!(md, "| A | B  |\n|---|----|\n| x |yyyy|\n\n");
}

#[test]
fn table_left_aligns_first_body_column_on_request() {
    let rows = vec![text_row(&["A", "B"]), text_row(&["x", "yyyy"])];
    let mut md = String::new();
    create_md_table(&mut md, rows, true);
    assert_eq!(md, "| A | B  |\n|---|----|\n|x  |yyyy|\n\n");
}

#[test]
fn table_rendering_is_deterministic() {
    let make = || {
        vec![
            text_row(&["Name", "Count"]),
            vec![Cell::Text(String::from("total")), Cell::Integer(12)],
            vec![Cell::Text(String::from("✓ pass")), Cell::Empty],
        ]
    };
    let mut first = String::new();
    create_md_table(&mut first, make(), true);
    let mut second = String::new();
    create_md_table(&mut second, make(), true);
    assert_eq!(first, second);
    assert!(!first.is_empty());
}
