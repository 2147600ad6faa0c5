//! Projection of the ordered reading list into a bounded text area: at most
//! the inner height's worth of rows, each with a left-aligned label and a
//! right-aligned, threshold-colored value cell.

use vstd::prelude::*;
use vstd::string::StrSliceExecFns;
use crate::Unit;
use crate::aggregate::display_values_bounded;
use crate::geom::rect_fits;
use crate::reading::Reading;
use crate::textfmt::{format_value, value_text_spec};
use tui::layout::Rect;

verus! {

/// One planned content row: where it goes, its texts and its emphasis.
pub struct Row {
    pub y: u16,
    pub label_x: u16,
    pub value_x: u16,
    pub label: Vec<char>,
    pub value_text: Vec<char>,
    pub high: bool,
}

/// Rows of content the inner rectangle has room for: the area inset by one
/// cell on every side.
pub open spec fn inner_height(area: Rect) -> int {
    if area.height >= 2 {
        area.height - 2
    } else {
        0
    }
}

/// How many readings are shown in an area: none when the area is below the
/// minimum usable size (fewer than 2 rows, or too narrow for the value
/// cell), and never more than the inner height.
pub open spec fn row_count(area: Rect, n: int) -> int {
    if area.height < 2 || area.width < 7 {
        0
    } else if n <= inner_height(area) {
        n
    } else {
        inner_height(area)
    }
}

/// The characters of a string, in order.
fn str_to_chars(s: &str) -> (out: Vec<char>)
    ensures
        out@ == s@,
{
    let n = s.unicode_len();
    let mut out: Vec<char> = Vec::new();
    let mut i: usize = 0;
    while i < n
        invariant
            n == s@.len(),
            0 <= i <= n,
            out@ == s@.take(i as int),
        decreases n - i,
    {
        let c = s.get_char(i);
        out.push(c);
        proof {
            assert(out@ =~= s@.take(i as int + 1));
        }
        i = i + 1;
    }
    proof {
        assert(s@.take(n as int) =~= s@);
    }
    out
}

/// Plans the content rows for one render of `readings` into `area`: one row
/// per reading in the given (already sorted) order, dropped silently beyond
/// the inner height; label at the inner-left edge, value cell at the
/// inner-right edge, "high" emphasis exactly when the value reaches the
/// threshold (compared in display units).
pub fn plan_rows(readings: &Vec<Reading>, area: Rect, threshold: i64, unit: Unit) -> (rows: Vec<
    Row,
>)
    requires
        rect_fits(area),
        display_values_bounded(readings@),
    ensures
        rows@.len() == row_count(area, readings@.len() as int),
        rows@.len() <= inner_height(area),
        forall|i: int|
            0 <= i < rows@.len() ==> {
                let row = #[trigger] rows@[i];
                &&& row.y == area.y + 1 + i
                &&& row.label_x == area.x + 1
                &&& row.value_x == area.x + area.width - 6
                &&& row.label@ == readings@[i].label@
                &&& row.value_text@ == value_text_spec(readings@[i].value as int, unit)
                &&& (row.high <==> readings@[i].value >= threshold)
            },
{
    let mut rows: Vec<Row> = Vec::new();
    if area.height < 2 || area.width < 7 {
        return rows;
    }
    let capacity: usize = (area.height - 2) as usize;
    let mut i: usize = 0;
    while i < readings.len() && i < capacity
        invariant
            rect_fits(area),
            display_values_bounded(readings@),
            area.height >= 2,
            area.width >= 7,
            capacity == area.height - 2,
            0 <= i <= readings@.len(),
            i <= capacity,
            rows@.len() == i,
            forall|t: int|
                0 <= t < rows@.len() ==> {
                    let row = #[trigger] rows@[t];
                    &&& row.y == area.y + 1 + t
                    &&& row.label_x == area.x + 1
                    &&& row.value_x == area.x + area.width - 6
                    &&& row.label@ == readings@[t].label@
                    &&& row.value_text@ == value_text_spec(readings@[t].value as int, unit)
                    &&& (row.high <==> readings@[t].value >= threshold)
                },
        decreases readings@.len() - i,
    {
        let r = &readings[i];
        let label = str_to_chars(r.label.as_str());
        let value_text = format_value(r.value, unit);
        let y: u16 = area.y + 1 + (i as u16);
        let label_x: u16 = area.x + 1;
        let value_x: u16 = area.x + area.width - 6;
        let high = r.value >= threshold;
        rows.push(Row { y, label_x, value_x, label, value_text, high });
        i = i + 1;
    }
    rows
}

} // verus!
