//! What holds of painting spans, whatever the colours are.

use vstd::prelude::*;
use crate::canvas::{painted_row, painted_rows, Rgb, Span};

verus! {

/// Painting keeps the length of a row: it changes colours only.
pub proof fn lemma_painted_row_len(row: Seq<Rgb>, left: int, right: int, color: Rgb)
    ensures
        painted_row(row, left, right, color).len() == row.len(),
{
}

/// A span with its left bound above its right bound paints nothing, and
/// neither does one that lies wholly to the left or to the right of the
/// row.
pub proof fn lemma_span_without_columns(row: Seq<Rgb>, left: int, right: int, color: Rgb)
    requires
        left > right || right < 0 || left >= row.len(),
    ensures
        painted_row(row, left, right, color) == row,
{
    assert(painted_row(row, left, right, color) =~= row);
}

/// What is painted later covers what was painted before: after two spans
/// a column has the second colour where the second span holds it, else the
/// first colour where the first span holds it, else the colour it had.
pub proof fn lemma_later_span_covers(
    row: Seq<Rgb>,
    first: Span,
    first_color: Rgb,
    second: Span,
    second_color: Rgb,
)
    ensures
        painted_row(
            painted_row(row, first.left as int, first.right as int, first_color),
            second.left as int,
            second.right as int,
            second_color,
        ) == Seq::new(
            row.len(),
            |x: int|
                if second.left <= x <= second.right {
                    second_color
                } else if first.left <= x <= first.right {
                    first_color
                } else {
                    row[x]
                },
        ),
{
    assert(painted_row(
        painted_row(row, first.left as int, first.right as int, first_color),
        second.left as int,
        second.right as int,
        second_color,
    ) =~= Seq::new(
        row.len(),
        |x: int|
            if second.left <= x <= second.right {
                second_color
            } else if first.left <= x <= first.right {
                first_color
            } else {
                row[x]
            },
    ));
}

/// Painting keeps the number of rows and the length of each.
pub proof fn lemma_painted_rows_shape(
    rows: Seq<Seq<Rgb>>,
    first_row: int,
    spans: Seq<Span>,
    color: Rgb,
)
    ensures
        painted_rows(rows, first_row, spans, color).len() == rows.len(),
        forall|y: int|
            0 <= y < rows.len() ==> (#[trigger] painted_rows(rows, first_row, spans, color)[y]).len()
                == rows[y].len(),
{
}

/// Spans for rows that all lie above the raster, or all below it, paint
/// nothing.
pub proof fn lemma_rows_outside(rows: Seq<Seq<Rgb>>, first_row: int, spans: Seq<Span>, color: Rgb)
    requires
        first_row >= rows.len() || first_row + spans.len() <= 0,
    ensures
        painted_rows(rows, first_row, spans, color) == rows,
{
    assert(painted_rows(rows, first_row, spans, color) =~= rows);
}

/// A row outside the rows that the spans are for keeps its colours.
pub proof fn lemma_row_untouched(
    rows: Seq<Seq<Rgb>>,
    first_row: int,
    spans: Seq<Span>,
    color: Rgb,
    y: int,
)
    requires
        0 <= y < rows.len(),
        y < first_row || y >= first_row + spans.len(),
    ensures
        painted_rows(rows, first_row, spans, color)[y] == rows[y],
{
}

} // verus!
