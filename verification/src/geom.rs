//! Spec-level geometry over tui rectangles and buffers.

use vstd::prelude::*;
use tui::buffer::Buffer;
use tui::layout::Rect;

verus! {

/// The rectangle's far edges stay within `u16`, so edge arithmetic on it
/// cannot wrap.
pub open spec fn rect_fits(r: Rect) -> bool {
    &&& r.x + r.width <= u16::MAX
    &&& r.y + r.height <= u16::MAX
}

/// `inner` lies entirely inside `outer`.
pub open spec fn rect_within(inner: Rect, outer: Rect) -> bool {
    &&& outer.x <= inner.x
    &&& inner.x + inner.width <= outer.x + outer.width
    &&& outer.y <= inner.y
    &&& inner.y + inner.height <= outer.y + outer.height
}

/// The buffer's documented shape: one cell per coordinate of its area, and
/// an area small enough that tui's cell indexing cannot wrap. tui documents
/// this of every buffer it builds but does not enforce it on the public
/// fields, so the panel demands it of the buffers it is handed.
pub open spec fn buf_wf(b: Buffer) -> bool {
    &&& b.content@.len() == b.area.width * b.area.height
    &&& b.area.width * b.area.height <= u16::MAX
}

/// The cell at content index `i` lies in the row of `y` at a column at or
/// right of `x` — the zone one text write may touch.
pub open spec fn in_row_from(barea: Rect, i: int, x: int, y: int) -> bool {
    &&& barea.width > 0
    &&& i / (barea.width as int) == y - barea.y
    &&& i % (barea.width as int) >= x - barea.x
}

/// The cell at content index `i` lies inside rectangle `r` of a buffer
/// whose area is `barea`.
pub open spec fn in_rect(barea: Rect, i: int, r: Rect) -> bool {
    &&& barea.width > 0
    &&& r.y - barea.y <= i / (barea.width as int) < r.y - barea.y + r.height
    &&& r.x - barea.x <= i % (barea.width as int) < r.x - barea.x + r.width
}

/// The cell at content index `i` lies in one of `r`'s rows, at or right of
/// `r`'s left edge: the region a render may touch (text writes clip at the
/// buffer's right edge, not at `r`'s).
pub open spec fn in_band(barea: Rect, i: int, r: Rect) -> bool {
    &&& barea.width > 0
    &&& r.y - barea.y <= i / (barea.width as int) < r.y - barea.y + r.height
    &&& i % (barea.width as int) >= r.x - barea.x
}

} // verus!
