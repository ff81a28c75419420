//! Integer screen geometry: cell, title and thumbnail rectangles, hit
//! testing, drop positions, window placement and scrolling a cell into view.

use vstd::prelude::*;

verus! {

/// Height of the search bar across the top of the canvas, in pixels.
pub const SEARCH_BAR_H: i32 = 50;

/// How far a live thumbnail is inset inside its cell, in pixels.
pub const THUMB_INSET: i32 = 2;

/// Gap between the bottom of a cell and the top of its title, in pixels.
pub const TITLE_GAP: i32 = 2;

/// A screen rectangle; `right` and `bottom` are the far edges.
#[derive(Clone, Copy, Debug, PartialEq, Eq, Structural)]
pub struct Rect {
    pub left: i32,
    pub top: i32,
    pub right: i32,
    pub bottom: i32,
}

/// The point lies in the rectangle, edges included.
pub open spec fn inside(r: Rect, x: int, y: int) -> bool {
    r.left <= x <= r.right && r.top <= y <= r.bottom
}

/// Integer halving that rounds toward zero, as `/ 2` does on `i32`.
pub open spec fn half_toward_zero(x: int) -> int {
    if x >= 0 {
        x / 2
    } else {
        -((-x) / 2)
    }
}

/// The value is an `i32`.
pub open spec fn fits_i32(x: int) -> bool {
    i32::MIN <= x <= i32::MAX
}

impl Rect {
    /// The rectangle that hides a thumbnail: all edges at -1.
    pub fn hidden() -> (r: Rect)
        ensures
            r == (Rect { left: -1i32, top: -1i32, right: -1i32, bottom: -1i32 }),
    {
        Rect { left: -1, top: -1, right: -1, bottom: -1 }
    }

    /// Whether the point lies in the rectangle, edges included.
    pub fn contains(&self, x: i32, y: i32) -> (r: bool)
        ensures
            r == inside(*self, x as int, y as int),
    {
        x >= self.left && x <= self.right && y >= self.top && y <= self.bottom
    }

    /// Width and height, as the far edge minus the near edge.
    pub fn size(&self) -> (r: (i32, i32))
        requires
            fits_i32(self.right - self.left),
            fits_i32(self.bottom - self.top),
        ensures
            r.0 == self.right - self.left,
            r.1 == self.bottom - self.top,
    {
        (self.right - self.left, self.bottom - self.top)
    }
}


/// The title rectangle under a cell: as wide as the cell, `title_h` tall,
/// starting `TITLE_GAP` below the cell's bottom edge.
pub fn title_rect_below(cell: Rect, title_h: i32) -> (r: Rect)
    requires
        fits_i32(cell.bottom + TITLE_GAP + title_h),
        fits_i32(cell.bottom + TITLE_GAP),
    ensures
        r.left == cell.left,
        r.top == cell.bottom + TITLE_GAP,
        r.right == cell.right,
        r.bottom == cell.bottom + TITLE_GAP + title_h,
{
    Rect {
        left: cell.left,
        top: cell.bottom + TITLE_GAP,
        right: cell.right,
        bottom: cell.bottom + TITLE_GAP + title_h,
    }
}

/// The rectangle of a live thumbnail: its cell shrunk by `THUMB_INSET` on
/// every side, so that the cell's border stays visible.
pub fn thumb_rect_inset(cell: Rect) -> (r: Rect)
    requires
        fits_i32(cell.left + THUMB_INSET),
        fits_i32(cell.top + THUMB_INSET),
        fits_i32(cell.right - THUMB_INSET),
        fits_i32(cell.bottom - THUMB_INSET),
    ensures
        r.left == cell.left + THUMB_INSET,
        r.top == cell.top + THUMB_INSET,
        r.right == cell.right - THUMB_INSET,
        r.bottom == cell.bottom - THUMB_INSET,
{
    Rect {
        left: cell.left + THUMB_INSET,
        top: cell.top + THUMB_INSET,
        right: cell.right - THUMB_INSET,
        bottom: cell.bottom - THUMB_INSET,
    }
}

/// How many cells a hit test looks at: the first `count`, and no more than
/// there are rectangles.
pub open spec fn probe_bound(len: int, count: int) -> int {
    if count < len {
        count
    } else {
        len
    }
}

/// The index of the first of the first `count` cells that contains the
/// point, edges included.
pub fn hit_test(cells: &[Rect], x: i32, y: i32, count: usize) -> (r: Option<usize>)
    ensures
        match r {
            Some(i) => {
                &&& i < probe_bound(cells@.len() as int, count as int)
                &&& inside(cells@[i as int], x as int, y as int)
                &&& forall|j: int| 0 <= j < i ==> !inside(#[trigger] cells@[j], x as int, y as int)
            },
            None => forall|j: int|
                0 <= j < probe_bound(cells@.len() as int, count as int) ==> !inside(
                    #[trigger] cells@[j],
                    x as int,
                    y as int,
                ),
        },
{
    let bound = if count < cells.len() {
        count
    } else {
        cells.len()
    };
    let mut i: usize = 0;
    while i < bound
        invariant
            bound == probe_bound(cells@.len() as int, count as int),
            bound <= cells@.len(),
            i <= bound,
            forall|j: int| 0 <= j < i ==> !inside(#[trigger] cells@[j], x as int, y as int),
        decreases bound - i,
    {
        if cells[i].contains(x, y) {
            return Some(i);
        }
        i += 1;
    }
    None
}

/// A drop lands before a cell when the point is within the cell's rows of
/// pixels and not right of its horizontal middle.
pub open spec fn drops_before(cell: Rect, x: int, y: int) -> bool {
    &&& cell.top <= y <= cell.bottom
    &&& x <= half_toward_zero(cell.left + cell.right)
}

/// Where a dragged cell is dropped: before the first of the first `count`
/// cells that the point drops before; otherwise after the last cell, at
/// position `count` (appended at the end), or nowhere when there are no
/// cells.
pub fn drop_index(cells: &[Rect], x: i32, y: i32, count: usize) -> (r: Option<usize>)
    requires
        forall|j: int|
            0 <= j < probe_bound(cells@.len() as int, count as int) && #[trigger] cells@[j].top <= y
                <= cells@[j].bottom ==> fits_i32(cells@[j].left + cells@[j].right),
    ensures
        (exists|i: int|
            0 <= i < probe_bound(cells@.len() as int, count as int) && drops_before(
                #[trigger] cells@[i],
                x as int,
                y as int,
            )) ==> match r {
            Some(i) => {
                &&& i < probe_bound(cells@.len() as int, count as int)
                &&& drops_before(cells@[i as int], x as int, y as int)
                &&& forall|j: int| 0 <= j < i ==> !drops_before(#[trigger] cells@[j], x as int, y as int)
            },
            None => false,
        },
        (forall|i: int|
            0 <= i < probe_bound(cells@.len() as int, count as int) ==> !drops_before(
                #[trigger] cells@[i],
                x as int,
                y as int,
            )) ==> r == (if count > 0 {
            Some(count)
        } else {
            None
        }),
{
    let bound = if count < cells.len() {
        count
    } else {
        cells.len()
    };
    let mut i: usize = 0;
    while i < bound
        invariant
            bound == probe_bound(cells@.len() as int, count as int),
            bound <= cells@.len(),
            i <= bound,
            forall|j: int|
                0 <= j < bound && #[trigger] cells@[j].top <= y <= cells@[j].bottom ==> fits_i32(
                    cells@[j].left + cells@[j].right,
                ),
            forall|j: int| 0 <= j < i ==> !drops_before(#[trigger] cells@[j], x as int, y as int),
        decreases bound - i,
    {
        let c = cells[i];
        assert(c == cells@[i as int]);
        if y >= c.top && y <= c.bottom {
            let cx = (c.left + c.right) / 2;
            assert(cx == half_toward_zero(c.left + c.right));
            if x <= cx {
                return Some(i);
            }
        }
        i += 1;
    }
    if count > 0 {
        Some(count)
    } else {
        None
    }
}


/// The frame around a window's client area: how far the client area lies
/// inside the window rectangle on the left, top, right and bottom, given
/// the window rectangle, the screen position of the client origin and the
/// client rectangle (which starts at 0, 0).
pub open spec fn frame_of(window: Rect, origin_x: int, origin_y: int, client: Rect) -> (int, int, int, int) {
    (
        origin_x - window.left,
        origin_y - window.top,
        window.right - (origin_x + client.right),
        window.bottom - (origin_y + client.bottom),
    )
}

/// The window position and size `(x, y, w, h)` that puts the client area
/// exactly on `target`, keeping the frame as it is.
pub open spec fn aligned_placement(window: Rect, origin_x: int, origin_y: int, client: Rect, target: Rect) -> (int, int, int, int) {
    let (bl, bt, br, bb) = frame_of(window, origin_x, origin_y, client);
    (
        target.left - bl,
        target.top - bt,
        (target.right - target.left) + bl + br,
        (target.bottom - target.top) + bt + bb,
    )
}

/// Every intermediate value of the placement computation is an `i32`.
pub open spec fn placement_in_range(window: Rect, origin_x: int, origin_y: int, client: Rect, target: Rect) -> bool {
    let (bl, bt, br, bb) = frame_of(window, origin_x, origin_y, client);
    &&& fits_i32(bl)
    &&& fits_i32(bt)
    &&& fits_i32(origin_x + client.right)
    &&& fits_i32(origin_y + client.bottom)
    &&& fits_i32(br)
    &&& fits_i32(bb)
    &&& fits_i32(target.left - bl)
    &&& fits_i32(target.top - bt)
    &&& fits_i32(target.right - target.left)
    &&& fits_i32(target.bottom - target.top)
    &&& fits_i32((target.right - target.left) + bl)
    &&& fits_i32((target.bottom - target.top) + bt)
    &&& fits_i32((target.right - target.left) + bl + br)
    &&& fits_i32((target.bottom - target.top) + bt + bb)
}

/// The window position and size `(x, y, w, h)` that puts a window's client
/// area exactly on `target`, from the window's current rectangle, the
/// screen position of its client origin and its client rectangle.
pub fn client_aligned_rect(window: Rect, origin_x: i32, origin_y: i32, client: Rect, target: Rect) -> (r: (i32, i32, i32, i32))
    requires
        placement_in_range(window, origin_x as int, origin_y as int, client, target),
    ensures
        (r.0 as int, r.1 as int, r.2 as int, r.3 as int) == aligned_placement(
            window,
            origin_x as int,
            origin_y as int,
            client,
            target,
        ),
{
    let bl = origin_x - window.left;
    let bt = origin_y - window.top;
    let br = window.right - (origin_x + client.right);
    let bb = window.bottom - (origin_y + client.bottom);
    let x = target.left - bl;
    let y = target.top - bt;
    let w = (target.right - target.left) + bl + br;
    let h = (target.bottom - target.top) + bt + bb;
    (x, y, w, h)
}

/// How far a placed window's client origin is from where it should be:
/// `(target.left - actual_x, target.top - actual_y)`.
pub fn placement_error(target: Rect, actual_x: i32, actual_y: i32) -> (r: (i32, i32))
    requires
        fits_i32(target.left - actual_x),
        fits_i32(target.top - actual_y),
    ensures
        r.0 == target.left - actual_x,
        r.1 == target.top - actual_y,
{
    (target.left - actual_x, target.top - actual_y)
}

/// The shift along one axis that brings the span `lo..hi` into the view
/// span `view_lo..view_hi`: a span longer than the view is aligned to the
/// view's start; otherwise it moves just far enough, or not at all.
pub open spec fn axis_shift(lo: int, hi: int, view_lo: int, view_hi: int) -> int {
    if hi - lo > view_hi - view_lo {
        view_lo - lo
    } else if lo < view_lo {
        view_lo - lo
    } else if hi > view_hi {
        view_hi - hi
    } else {
        0
    }
}

/// The box a cell occupies with its title: `(left, top, right, bottom)`.
pub open spec fn cell_box(cell: Rect, title_h: int) -> (int, int, int, int) {
    (cell.left as int, cell.top as int, cell.right as int, cell.bottom + TITLE_GAP + title_h)
}

/// The part of the canvas a cell should be kept in: below the search bar,
/// `margin` pixels away from every edge.
pub open spec fn view_box(margin: int, canvas_w: int, canvas_h: int) -> (int, int, int, int) {
    (margin, SEARCH_BAR_H + margin, canvas_w - margin, canvas_h - margin)
}

/// The box lies in the view.
pub open spec fn box_within(b: (int, int, int, int), v: (int, int, int, int)) -> bool {
    b.0 >= v.0 && b.2 <= v.2 && b.1 >= v.1 && b.3 <= v.3
}

/// The pan shift that scrolls a cell (with its title) into view: none when
/// it is already in view, else the shift along each axis.
pub open spec fn scroll_shift(cell: Rect, title_h: int, margin: int, canvas_w: int, canvas_h: int) -> Option<(int, int)> {
    let b = cell_box(cell, title_h);
    let v = view_box(margin, canvas_w, canvas_h);
    if box_within(b, v) {
        None
    } else {
        Some((axis_shift(b.0, b.2, v.0, v.2), axis_shift(b.1, b.3, v.1, v.3)))
    }
}

/// Every value that scrolling a cell into view computes is an `i32`.
pub open spec fn scroll_in_range(cell: Rect, title_h: int, margin: int, canvas_w: int, canvas_h: int) -> bool {
    let b = cell_box(cell, title_h);
    let v = view_box(margin, canvas_w, canvas_h);
    &&& fits_i32(cell.bottom + TITLE_GAP)
    &&& fits_i32(b.3)
    &&& fits_i32(b.2 - b.0)
    &&& fits_i32(b.3 - b.1)
    &&& fits_i32(v.1)
    &&& fits_i32(v.2)
    &&& fits_i32(v.3)
    &&& fits_i32(v.2 - v.0)
    &&& fits_i32(v.3 - v.1)
    &&& !box_within(b, v) ==> {
        &&& fits_i32(axis_shift(b.0, b.2, v.0, v.2))
        &&& fits_i32(axis_shift(b.1, b.3, v.1, v.3))
    }
}

/// The pan shift `(dx, dy)` that scrolls a cell, with a title `title_h`
/// tall under it, into the part of a `canvas_w` by `canvas_h` canvas below
/// the search bar and `margin` away from the edges; `None` when the cell
/// is already there.
pub fn scroll_offset(cell: Rect, title_h: i32, margin: i32, canvas_w: i32, canvas_h: i32) -> (r: Option<(i32, i32)>)
    requires
        scroll_in_range(cell, title_h as int, margin as int, canvas_w as int, canvas_h as int),
    ensures
        match r {
            None => scroll_shift(cell, title_h as int, margin as int, canvas_w as int, canvas_h as int) is None,
            Some((dx, dy)) => scroll_shift(
                cell,
                title_h as int,
                margin as int,
                canvas_w as int,
                canvas_h as int,
            ) == Some((dx as int, dy as int)),
        },
{
    let cell_left = cell.left;
    let cell_top = cell.top;
    let cell_right = cell.right;
    let cell_bottom = cell.bottom + TITLE_GAP + title_h;

    let cell_w = cell_right - cell_left;
    let cell_h = cell_bottom - cell_top;

    let view_left = margin;
    let view_top = SEARCH_BAR_H + margin;
    let view_right = canvas_w - margin;
    let view_bottom = canvas_h - margin;

    let view_w = view_right - view_left;
    let view_h = view_bottom - view_top;

    if cell_left >= view_left && cell_right <= view_right && cell_top >= view_top && cell_bottom
        <= view_bottom {
        return None;
    }
    let dx = if cell_w > view_w {
        view_left - cell_left
    } else if cell_left < view_left {
        view_left - cell_left
    } else if cell_right > view_right {
        view_right - cell_right
    } else {
        0
    };
    let dy = if cell_h > view_h {
        view_top - cell_top
    } else if cell_top < view_top {
        view_top - cell_top
    } else if cell_bottom > view_bottom {
        view_bottom - cell_bottom
    } else {
        0
    };
    Some((dx, dy))
}


/// A drop lands before a cell exactly when the pointer is within the
/// cell's rows of pixels and not right of its horizontal middle (rounded
/// toward zero): a pointer above or below a cell never drops before it.
pub proof fn drop_needs_pointer_in_cell_rows(cell: Rect, x: int, y: int)
    ensures
        drops_before(cell, x, y) ==> cell.top <= y <= cell.bottom,
        y < cell.top || y > cell.bottom ==> !drops_before(cell, x, y),
        cell.top <= y <= cell.bottom && 2 * x <= cell.left + cell.right && cell.left + cell.right >= 0
            ==> drops_before(cell, x, y),
        cell.top <= y <= cell.bottom && 2 * x > cell.left + cell.right + 1 ==> !drops_before(cell, x, y),
{
}

/// Where a drop lands: before the first probed cell whose rows of pixels
/// hold the pointer and whose middle is not left of it; when the pointer's
/// rows hold no such cell, after all `count` cells.
pub proof fn drop_position_laws(cells: Seq<Rect>, x: int, y: int, count: nat, r: Option<usize>)
    requires
        (exists|i: int|
            0 <= i < probe_bound(cells.len() as int, count as int) && drops_before(
                #[trigger] cells[i],
                x,
                y,
            )) ==> match r {
            Some(i) => {
                &&& i < probe_bound(cells.len() as int, count as int)
                &&& drops_before(cells[i as int], x, y)
                &&& forall|j: int| 0 <= j < i ==> !drops_before(#[trigger] cells[j], x, y)
            },
            None => false,
        },
        (forall|i: int|
            0 <= i < probe_bound(cells.len() as int, count as int) ==> !drops_before(
                #[trigger] cells[i],
                x,
                y,
            )) ==> r == (if count > 0 {
            Some(count as usize)
        } else {
            None
        }),
        count <= usize::MAX,
    ensures
        r is Some && r->0 < count ==> cells[r->0 as int].top <= y <= cells[r->0 as int].bottom,
        (forall|i: int|
            0 <= i < probe_bound(cells.len() as int, count as int) ==> y < #[trigger] cells[i].top || y
                > cells[i].bottom) ==> r == (if count > 0 {
            Some(count as usize)
        } else {
            None
        }),
{
    if forall|i: int|
        0 <= i < probe_bound(cells.len() as int, count as int) ==> y < #[trigger] cells[i].top || y
            > cells[i].bottom {
        assert forall|i: int| 0 <= i < probe_bound(cells.len() as int, count as int) implies !drops_before(
            #[trigger] cells[i],
            x,
            y,
        ) by {
            drop_needs_pointer_in_cell_rows(cells[i], x, y);
        }
    }
    if exists|i: int|
        0 <= i < probe_bound(cells.len() as int, count as int) && drops_before(#[trigger] cells[i], x, y) {
        if let Some(i) = r {
            drop_needs_pointer_in_cell_rows(cells[i as int], x, y);
        }
    }
}

/// A box moved by `(dx, dy)`.
pub open spec fn shifted(b: (int, int, int, int), dx: int, dy: int) -> (int, int, int, int) {
    (b.0 + dx, b.1 + dy, b.2 + dx, b.3 + dy)
}

/// Scrolling a cell into view leaves it in view whenever it is no larger
/// than the view: after the pan shift that `scroll_shift` gives, the cell
/// and its title lie within the view.
pub proof fn scrolled_cell_is_in_view(cell: Rect, title_h: int, margin: int, canvas_w: int, canvas_h: int)
    requires
        ({
            let b = cell_box(cell, title_h);
            let v = view_box(margin, canvas_w, canvas_h);
            b.2 - b.0 <= v.2 - v.0 && b.3 - b.1 <= v.3 - v.1
        }),
    ensures
        match scroll_shift(cell, title_h, margin, canvas_w, canvas_h) {
            None => box_within(cell_box(cell, title_h), view_box(margin, canvas_w, canvas_h)),
            Some((dx, dy)) => box_within(
                shifted(cell_box(cell, title_h), dx, dy),
                view_box(margin, canvas_w, canvas_h),
            ),
        },
{
}

/// A cell wider (or taller) than the view is scrolled so that its left
/// (or top) edge meets the view's left (or top) edge.
pub proof fn oversized_cell_aligns_to_view_start(cell: Rect, title_h: int, margin: int, canvas_w: int, canvas_h: int)
    ensures
        scroll_shift(cell, title_h, margin, canvas_w, canvas_h) matches Some((dx, dy)) ==> {
            let b = shifted(cell_box(cell, title_h), dx, dy);
            let v = view_box(margin, canvas_w, canvas_h);
            let o = cell_box(cell, title_h);
            &&& o.2 - o.0 > v.2 - v.0 ==> b.0 == v.0
            &&& o.3 - o.1 > v.3 - v.1 ==> b.1 == v.1
        },
{
}

/// A cell already in view is not scrolled.
pub proof fn cell_in_view_is_not_scrolled(cell: Rect, title_h: int, margin: int, canvas_w: int, canvas_h: int)
    ensures
        box_within(cell_box(cell, title_h), view_box(margin, canvas_w, canvas_h)) <==> scroll_shift(
            cell,
            title_h,
            margin,
            canvas_w,
            canvas_h,
        ) is None,
{
}

/// Placing a window at the position and size that `aligned_placement`
/// gives puts its client area, with the same frame, exactly on the target.
pub proof fn placement_puts_client_on_target(window: Rect, origin_x: int, origin_y: int, client: Rect, target: Rect)
    ensures
        ({
            let (bl, bt, br, bb) = frame_of(window, origin_x, origin_y, client);
            let (x, y, w, h) = aligned_placement(window, origin_x, origin_y, client, target);
            &&& x + bl == target.left
            &&& y + bt == target.top
            &&& x + w - br == target.right
            &&& y + h - bb == target.bottom
        }),
{
}

/// A live thumbnail lies within its cell whenever the cell is at least
/// twice the inset wide and tall.
pub proof fn thumb_within_cell(cell: Rect)
    requires
        cell.right - cell.left >= 2 * THUMB_INSET,
        cell.bottom - cell.top >= 2 * THUMB_INSET,
    ensures
        cell.left <= cell.left + THUMB_INSET <= cell.right - THUMB_INSET <= cell.right,
        cell.top <= cell.top + THUMB_INSET <= cell.bottom - THUMB_INSET <= cell.bottom,
{
}

} // verus!
