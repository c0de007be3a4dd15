//! Terminal colors and text tables, drawn by `owo_colors` and `comfy_table`.

use vstd::prelude::*;
use owo_colors::OwoColorize;
use crate::text::spec_no_escape;

verus! {

/// The foreground colors the reports use.
#[derive(Debug, Clone, Copy, PartialEq, Eq, Structural)]
pub enum AnsiColor {
    Green,
    Yellow,
    Red,
}

/// The ANSI escape that selects `c` as foreground color.
pub open spec fn spec_fg_escape(c: AnsiColor) -> Seq<char> {
    match c {
        AnsiColor::Green => seq!['\x1b', '[', '3', '2', 'm'],
        AnsiColor::Yellow => seq!['\x1b', '[', '3', '3', 'm'],
        AnsiColor::Red => seq!['\x1b', '[', '3', '1', 'm'],
    }
}

/// The ANSI escape that restores the default foreground color.
pub open spec fn spec_fg_reset() -> Seq<char> {
    seq!['\x1b', '[', '3', '9', 'm']
}

/// `text` drawn in color `c`.
pub open spec fn spec_painted(text: Seq<char>, c: AnsiColor) -> Seq<char> {
    spec_fg_escape(c) + text + spec_fg_reset()
}

/// `owo_colors::OwoColorize::color`, displayed: the color's escape, the text,
/// and the escape that restores the default color.
#[verifier::external_body]
pub(crate) fn paint(text: &str, c: AnsiColor) -> (res: String)
    ensures
        res@ == spec_painted(text@, c),
{
    let color = match c {
        AnsiColor::Green => owo_colors::AnsiColors::Green,
        AnsiColor::Yellow => owo_colors::AnsiColors::Yellow,
        AnsiColor::Red => owo_colors::AnsiColors::Red,
    };
    text.color(color).to_string()
}

/// What `comfy_table` draws for a table with the given header and rows, in its
/// default style, with lines joined by `\n` and no newline at the end.
pub uninterp spec fn spec_table_text(header: Seq<Seq<char>>, rows: Seq<Seq<Seq<char>>>) -> Seq<char>;

/// The views of a sequence of strings.
pub open spec fn string_seq_views(v: Seq<String>) -> Seq<Seq<char>> {
    v.map_values(|s: String| s@)
}

/// The views of a sequence of rows.
pub open spec fn row_views(v: Seq<Vec<String>>) -> Seq<Seq<Seq<char>>> {
    v.map_values(|r: Vec<String>| string_seq_views(r@))
}

/// No header or row cell holds the escape character.
pub open spec fn spec_cells_no_escape(header: Seq<Seq<char>>, rows: Seq<Seq<Seq<char>>>) -> bool {
    &&& forall|k: int| 0 <= k < header.len() ==> spec_no_escape(#[trigger] header[k])
    &&& forall|r: int, k: int| 0 <= r < rows.len() && 0 <= k < rows[r].len() ==> spec_no_escape(#[trigger] rows[r][k])
}

/// `comfy_table::Table`: a new table, `set_header`, `add_row` for each row in
/// order, then its `Display` text. Built without its `tty` feature, the crate
/// styles nothing: the text is the cells' text, spaces and the border
/// characters of its default preset, so it holds an escape character only
/// where a cell does.
#[verifier::external_body]
pub(crate) fn table_text(header: &Vec<String>, rows: &Vec<Vec<String>>) -> (res: String)
    ensures
        res@ == spec_table_text(string_seq_views(header@), row_views(rows@)),
        spec_cells_no_escape(string_seq_views(header@), row_views(rows@)) ==> spec_no_escape(res@),
{
    let mut table = comfy_table::Table::new();
    table.set_header(header.clone());
    for row in rows {
        table.add_row(row.clone());
    }
    table.to_string()
}

} // verus!
