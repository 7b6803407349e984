//! Screen areas and list selections: the parts of the terminal layout the
//! player's logic reads (where a click lands, which list row is selected).
use vstd::prelude::*;

verus! {

/// A point on the terminal (column `x`, row `y`).
#[derive(Clone, Copy, Debug, PartialEq, Eq, Structural)]
pub struct Position {
    pub x: u16,
    pub y: u16,
}

/// A rectangle on the terminal.
#[derive(Clone, Copy, Debug, PartialEq, Eq, Structural)]
pub struct Rect {
    pub x: u16,
    pub y: u16,
    pub width: u16,
    pub height: u16,
}

/// `a + b`, held at `u16::MAX`.
pub open spec fn sat_add16(a: u16, b: u16) -> int {
    if a + b > u16::MAX { u16::MAX as int } else { a + b }
}

/// Whether `p` lies in `r` (its right and bottom edges held at `u16::MAX`).
pub open spec fn rect_contains(r: Rect, p: Position) -> bool {
    p.x >= r.x && p.x < sat_add16(r.x, r.width) && p.y >= r.y && p.y < sat_add16(r.y, r.height)
}

impl Rect {
    /// The empty rectangle at the origin.
    pub fn zero() -> (r: Rect)
        ensures
            r == (Rect { x: 0, y: 0, width: 0, height: 0 }),
    {
        Rect { x: 0, y: 0, width: 0, height: 0 }
    }

    /// Whether `p` lies in this rectangle.
    pub fn contains(&self, p: Position) -> (res: bool)
        ensures
            res == rect_contains(*self, p),
    {
        p.x >= self.x && p.x < self.x.saturating_add(self.width) && p.y >= self.y
            && p.y < self.y.saturating_add(self.height)
    }

    /// Whether this is the empty rectangle at the origin.
    pub fn is_zero(&self) -> (res: bool)
        ensures
            res == (*self == Rect { x: 0, y: 0, width: 0, height: 0 }),
    {
        self.x == 0 && self.y == 0 && self.width == 0 && self.height == 0
    }
}

/// A rectangle of at most `width` by `height` centred in `area`.
pub open spec fn centered(area: Rect, width: u16, height: u16) -> Rect {
    let w = if width < area.width { width } else { area.width };
    let h = if height < area.height { height } else { area.height };
    Rect {
        x: (area.x + (area.width - w) / 2) as u16,
        y: (area.y + (area.height - h) / 2) as u16,
        width: w,
        height: h,
    }
}

/// A rectangle of at most `width` by `height` centred in `area`.  The area must
/// lie within the terminal's coordinates (its edges fit in a u16).
pub fn centered_rect(area: Rect, width: u16, height: u16) -> (r: Rect)
    requires
        area.x + area.width <= u16::MAX,
        area.y + area.height <= u16::MAX,
    ensures
        r == centered(area, width, height),
        rect_contains(area, Position { x: r.x, y: r.y }) || r.width == 0 || r.height == 0,
{
    let w = if width < area.width { width } else { area.width };
    let h = if height < area.height { height } else { area.height };
    let x = area.x + (area.width - w) / 2;
    let y = area.y + (area.height - h) / 2;
    Rect { x, y, width: w, height: h }
}

/// The scroll offset and selected row of a list.
#[derive(Clone, Copy, Debug, PartialEq, Eq, Structural)]
pub struct ListSel {
    pub offset: usize,
    pub selected: Option<usize>,
}

/// The list state after selecting `idx`: clearing the selection also scrolls to the top.
pub open spec fn selected_as(s: ListSel, idx: Option<usize>) -> ListSel {
    ListSel { offset: if idx is None { 0 } else { s.offset }, selected: idx }
}

impl ListSel {
    /// No row selected, scrolled to the top.
    pub fn new() -> (s: ListSel)
        ensures
            s == (ListSel { offset: 0, selected: None }),
    {
        ListSel { offset: 0, selected: None }
    }

    /// The selected row.
    pub fn selected(&self) -> (res: Option<usize>)
        ensures
            res == self.selected,
    {
        self.selected
    }

    /// The first visible row.
    pub fn offset(&self) -> (res: usize)
        ensures
            res == self.offset,
    {
        self.offset
    }

    /// Selects `idx`; clearing the selection also scrolls to the top.
    pub fn select(&mut self, idx: Option<usize>)
        ensures
            *final(self) == selected_as(*old(self), idx),
    {
        self.selected = idx;
        if idx.is_none() {
            self.offset = 0;
        }
    }
}

/// The row a list of `len` rows moves to by `delta` from the selection (row 0 where
/// none): moving up stops at 0, moving down stops at the last row.
pub open spec fn moved_row(s: ListSel, len: nat, delta: int) -> int {
    let cur = match s.selected { Some(c) => c as int, None => 0 };
    if delta < 0 {
        if cur + delta < 0 { 0 } else { cur + delta }
    } else {
        if cur + delta > len - 1 { len - 1 } else { cur + delta }
    }
}

/// Whether moving down by `delta` from the selection stays within a `usize`.
pub open spec fn move_fits(s: ListSel, delta: int) -> bool {
    delta >= 0 ==> (match s.selected { Some(c) => c as int, None => 0 }) + delta <= usize::MAX
}

/// Moves the selection of a list of `len` rows by `delta` rows (see `moved_row`);
/// an empty list keeps its state.
pub fn move_list(state: &mut ListSel, len: usize, delta: i32)
    requires
        move_fits(*old(state), delta as int),
    ensures
        len == 0 ==> *final(state) == *old(state),
        len > 0 ==> *final(state) == selected_as(*old(state), Some(moved_row(*old(state), len as nat, delta as int) as usize)),
{
    if len == 0 {
        return;
    }
    let cur = match state.selected() {
        Some(c) => c,
        None => 0,
    };
    let new = if delta < 0 {
        let d: usize = if delta == i32::MIN { 2147483648usize } else { (-delta) as usize };
        if cur < d { 0 } else { cur - d }
    } else {
        let up = cur + delta as usize;
        if up > len - 1 { len - 1 } else { up }
    };
    state.select(Some(new));
}

/// Moving a selection that lies within the list keeps it within the list.
pub proof fn law_move_list_in_bounds(s: ListSel, len: nat, delta: int)
    requires
        len > 0,
        s.selected matches Some(c) ==> c < len,
    ensures
        0 <= moved_row(s, len, delta) < len,
{
}

/// The list state after a click at row `mouse_y` of a list of `len` rows shown in
/// `area` and scrolled by the list's offset: the row there is selected, where it
/// exists.
pub open spec fn row_selected(s: ListSel, area: Rect, mouse_y: u16, len: nat) -> ListSel {
    let below = if mouse_y >= area.y { mouse_y - area.y } else { 0 };
    let idx = if s.offset + below > usize::MAX { usize::MAX as int } else { s.offset + below };
    if len > 0 && idx < len { selected_as(s, Some(idx as usize)) } else { s }
}

/// Selects the row under the mouse at row `mouse_y` of a list shown in `area`
/// (see `row_selected`).
pub fn select_at(state: &mut ListSel, area: &Rect, mouse_y: u16, len: usize)
    ensures
        *final(state) == row_selected(*old(state), *area, mouse_y, len as nat),
{
    if len == 0 {
        return;
    }
    let offset = state.offset();
    let below: usize = if mouse_y >= area.y { (mouse_y - area.y) as usize } else { 0 };
    let idx = offset.saturating_add(below);
    if idx < len {
        state.select(Some(idx));
    }
}

} // verus!
