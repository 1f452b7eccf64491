use vstd::prelude::*;
use unicode_width::UnicodeWidthStr;
use tui::layout::{Constraint, Direction, Layout, Rect};

verus! {

/// A rectangle of terminal cells.
#[derive(PartialEq, Eq, Structural, Debug, Clone, Copy)]
pub struct Area {
    pub x: u16,
    pub y: u16,
    pub width: u16,
    pub height: u16,
}

impl Area {
    /// The area ends within the largest terminal coordinates.
    pub open spec fn on_screen(self) -> bool {
        self.x + self.width <= u16::MAX && self.y + self.height <= u16::MAX
    }

    /// The area lies within `outer`.
    pub open spec fn inside(self, outer: Area) -> bool {
        &&& outer.x <= self.x
        &&& self.x + self.width <= outer.x + outer.width
        &&& outer.y <= self.y
        &&& self.y + self.height <= outer.y + outer.height
    }
}

/// The number of terminal columns a text takes up.
pub uninterp spec fn display_width(s: Seq<char>) -> nat;

/// A percentage of an extent that tui can compute without overflow.
pub open spec fn percent_fits(p: u16, extent: u16) -> bool {
    p as int * extent as int <= u16::MAX as int
}

/// `v` is at least `lo` percent of `extent` and at most `hi` percent of it,
/// each rounded down, give or take one cell.
pub open spec fn share_within(v: int, lo: int, hi: int, extent: int) -> bool {
    lo * extent / 100 - 1 <= v <= hi * extent / 100 + 1
}

/// Relies on tui's Layout::split with three percentage constraints and no
/// margin. The pieces are adjacent and fill the area along the split, and each
/// one is at least its percentage, so the middle piece and its offset each
/// exceed their share by at most the percentage left unused; tui rounds the
/// solver's values down. The middle piece lies within the area and spans it
/// across the split.
#[verifier::external_body]
fn split_middle(area: Area, vertical: bool, p: (u16, u16, u16)) -> (r: Area)
    requires
        area.on_screen(),
        p.0 + p.1 + p.2 <= 100,
        percent_fits(p.0, if vertical { area.height } else { area.width }),
        percent_fits(p.1, if vertical { area.height } else { area.width }),
        percent_fits(p.2, if vertical { area.height } else { area.width }),
    ensures
        r.inside(area),
        vertical ==> share_within(r.height as int, p.1 as int, 100 - p.0 - p.2, area.height as int),
        vertical ==> share_within(r.y - area.y, p.0 as int, 100 - p.1 - p.2, area.height as int),
        !vertical ==> share_within(r.width as int, p.1 as int, 100 - p.0 - p.2, area.width as int),
        !vertical ==> share_within(r.x - area.x, p.0 as int, 100 - p.1 - p.2, area.width as int),
        vertical ==> r.x == area.x && r.width == area.width,
        !vertical ==> r.y == area.y && r.height == area.height,
{
    let direction = if vertical { Direction::Vertical } else { Direction::Horizontal };
    let rect = Rect { x: area.x, y: area.y, width: area.width, height: area.height };
    let parts = Layout::default().direction(direction).constraints(
        [Constraint::Percentage(p.0), Constraint::Percentage(p.1), Constraint::Percentage(p.2)],
    ).split(rect);
    Area { x: parts[1].x, y: parts[1].y, width: parts[1].width, height: parts[1].height }
}

/// Relies on unicode_width's UnicodeWidthStr::width: the displayed width in
/// columns, which is zero for the empty text.
#[verifier::external_body]
fn text_width(s: &str) -> (r: usize)
    ensures
        r == display_width(s@),
        s@.len() == 0 ==> r == 0,
{
    s.width()
}

/// Whether a band of `p` percent of `extent`, with its margins, can be laid out.
pub open spec fn centered_fits(p: u16, extent: u16) -> bool {
    p <= 100 && percent_fits(p, extent) && percent_fits(((100 - p) / 2) as u16, extent)
}

/// Whether `centered_rect` can lay out a band of these percentages in `r`.
pub open spec fn can_center_spec(percent_x: u16, percent_y: u16, r: Area) -> bool {
    centered_fits(percent_x, r.width) && centered_fits(percent_y, r.height) && r.on_screen()
}

fn fits_percent(p: u16, extent: u16) -> (r: bool)
    ensures
        r == centered_fits(p, extent),
{
    if p > 100 {
        return false;
    }
    let side: u32 = ((100 - p) / 2) as u32;
    let e: u32 = extent as u32;
    assert(p as u32 * e <= 100 * 65535) by (nonlinear_arith)
        requires p <= 100, e <= 65535;
    assert(side * e <= 100 * 65535) by (nonlinear_arith)
        requires side <= 100, e <= 65535;
    (p as u32) * e <= u16::MAX as u32 && side * e <= u16::MAX as u32
}

/// Whether a band `percent_x` wide and `percent_y` high can be centred in `r`.
pub fn can_center(percent_x: u16, percent_y: u16, r: Area) -> (b: bool)
    ensures
        b == can_center_spec(percent_x, percent_y, r),
{
    fits_percent(percent_x, r.width) && fits_percent(percent_y, r.height)
        && r.width <= u16::MAX - r.x && r.height <= u16::MAX - r.y
}

/// The margin on each side of a centred band of `p` percent.
pub open spec fn side(p: u16) -> int {
    (100 - p) / 2
}

/// The area `percent_x` wide and `percent_y` high in the middle of `r`, as tui
/// lays it out: it lies within `r`, its size is its percentage of `r`, and its
/// offset from each edge is the margin's share, within rounding and what the
/// two equal margins leave over.
pub fn centered_rect(percent_x: u16, percent_y: u16, r: Area) -> (c: Area)
    requires
        can_center_spec(percent_x, percent_y, r),
    ensures
        c.inside(r),
        share_within(c.width as int, percent_x as int, 100 - 2 * side(percent_x), r.width as int),
        share_within(c.x - r.x, side(percent_x), 100 - percent_x - side(percent_x), r.width as int),
        share_within(c.height as int, percent_y as int, 100 - 2 * side(percent_y), r.height as int),
        share_within(c.y - r.y, side(percent_y), 100 - percent_y - side(percent_y), r.height as int),
{
    let band = split_middle(r, true, ((100 - percent_y) / 2, percent_y, (100 - percent_y) / 2));
    split_middle(band, false, ((100 - percent_x) / 2, percent_x, (100 - percent_x) / 2))
}

/// Where the cursor stands in the bordered input box `area`: just after the
/// typed text, inside the border, held at the screen's last column.
pub fn cursor_position(area: Area, input: &String) -> (r: (u16, u16))
    ensures
        r.0 == if area.x + 1 + display_width(input@) <= u16::MAX {
            (area.x + 1 + display_width(input@)) as u16
        } else {
            u16::MAX
        },
        r.1 == if area.y < u16::MAX { (area.y + 1) as u16 } else { u16::MAX },
{
    let w = text_width(input.as_str());
    let room: usize = (u16::MAX - area.x) as usize;
    let x: u16 = if w < room { area.x + 1 + w as u16 } else { u16::MAX };
    let y: u16 = if area.y < u16::MAX { area.y + 1 } else { u16::MAX };
    (x, y)
}

} // verus!
