//! Where the panel unfolds, and when it opens and hides.
//!
//! A click on the tray icon toggles a small undecorated window anchored to
//! the icon, on the taskbar side of the screen.

use crate::text::same;
use vstd::prelude::*;

verus! {

/// Argument passed by the login item: start in the tray, panel hidden.
pub const AUTOSTART_ARG: &'static str = "--autostart";

/// A click arriving right after the panel lost focus is the click that
/// dismissed it; it must not reopen the panel.
pub const REOPEN_GUARD_MS: u64 = 250;

/// The system may hand focus straight back to the previous window when the
/// panel is shown without user input. A blur in the first moments after
/// showing is that, not the user leaving.
pub const BLUR_GRACE_MS: u64 = 400;

/// Whether the login item started the app.
pub open spec fn starts_in_tray(args: Seq<String>) -> bool {
    exists|i: int| 0 <= i < args.len() && (#[trigger] args[i])@ == AUTOSTART_ARG@
}

/// Whether the panel is shown at the start: not where the login item started
/// the app.
pub fn opens_panel(args: &Vec<String>) -> (r: bool)
    ensures
        r == forall|i: int| 0 <= i < args@.len() ==> (#[trigger] args@[i])@ != AUTOSTART_ARG@,
        r == !starts_in_tray(args@),
{
    let mut i: usize = 0;
    while i < args.len()
        invariant
            i <= args@.len(),
            forall|k: int| 0 <= k < i ==> (#[trigger] args@[k])@ != AUTOSTART_ARG@,
        decreases args@.len() - i,
    {
        if same(args[i].as_str(), AUTOSTART_ARG) {
            assert(args@[i as int]@ == AUTOSTART_ARG@);
            return false;
        }
        i += 1;
    }
    true
}

/// What a click on the icon does.
#[derive(Debug, Clone, Copy, PartialEq, Eq, Structural)]
pub enum Toggle {
    Hide,
    Show,
    Nothing,
}

/// When the panel was last shown and hidden, in milliseconds, and whether it
/// got focus since.
#[derive(Debug, Clone, Copy, PartialEq, Eq, Structural)]
pub struct Panel {
    pub hidden_at: u64,
    pub shown_at: u64,
    pub had_focus: bool,
}

/// What is left of `a` above `b`, nothing where there is none.
pub open spec fn above(a: u64, b: u64) -> int {
    if a >= b {
        a - b
    } else {
        0
    }
}

impl Panel {
    pub fn new() -> (r: Self)
        ensures
            r == (Panel { hidden_at: 0, shown_at: 0, had_focus: false }),
    {
        Panel { hidden_at: 0, shown_at: 0, had_focus: false }
    }

    /// The panel is shown.
    pub fn open_at(&mut self, now: u64)
        ensures
            *final(self) == (Panel { shown_at: now, had_focus: false, ..*old(self) }),
    {
        self.had_focus = false;
        self.shown_at = now;
    }

    /// The panel has to go. Tells whether it was there to hide.
    pub fn hide_panel(&mut self, visible: bool, now: u64) -> (r: bool)
        ensures
            r == visible,
            *final(self) == if visible {
                Panel { hidden_at: now, ..*old(self) }
            } else {
                *old(self)
            },
    {
        if visible {
            self.hidden_at = now;
        }
        visible
    }

    /// The panel got focus.
    pub fn focused(&mut self)
        ensures
            *final(self) == (Panel { had_focus: true, ..*old(self) }),
    {
        self.had_focus = true;
    }

    /// Whether losing focus now hides the panel.
    pub open spec fn leaves(self, now: u64) -> bool {
        self.had_focus && above(now, self.shown_at) > BLUR_GRACE_MS
    }

    /// The panel lost focus. Tells whether that hides it.
    pub fn blurred(&self, now: u64) -> (r: bool)
        ensures
            r == self.leaves(now),
    {
        self.had_focus && now > self.shown_at && now - self.shown_at > BLUR_GRACE_MS
    }

    /// What a click on the icon does now.
    pub open spec fn toggled(self, visible: bool, now: u64) -> Toggle {
        if visible {
            Toggle::Hide
        } else if above(now, self.hidden_at) > REOPEN_GUARD_MS {
            Toggle::Show
        } else {
            Toggle::Nothing
        }
    }

    /// A click on the icon.
    pub fn toggle_panel(&self, visible: bool, now: u64) -> (r: Toggle)
        ensures
            r == self.toggled(visible, now),
    {
        if visible {
            Toggle::Hide
        } else if now > self.hidden_at && now - self.hidden_at > REOPEN_GUARD_MS {
            Toggle::Show
        } else {
            Toggle::Nothing
        }
    }
}

/// The click that dismissed the panel does not open it again, and a blur in
/// the first moments does not hide it.
pub proof fn law_dismissing_is_not_reopening(panel: Panel, now: u64, later: u64)
    ensures
        later <= now + REOPEN_GUARD_MS ==> (Panel { hidden_at: now, ..panel }).toggled(false, later)
            == Toggle::Nothing,
        later <= now + BLUR_GRACE_MS ==> !(Panel { shown_at: now, ..panel }).leaves(later),
        !(Panel { shown_at: now, had_focus: false, ..panel }).leaves(later),
{
}

#[derive(Debug, Clone, Copy, PartialEq, Eq, Structural)]
pub struct Area {
    pub x: i32,
    pub y: i32,
    pub w: i32,
    pub h: i32,
}

#[derive(Debug, Clone, Copy, PartialEq, Eq, Structural)]
pub enum Edge {
    Top,
    Bottom,
    Left,
    Right,
}

/// The point that the panel is centered on, in pixels: rounded, and its
/// height rounded down.
#[derive(Debug, Clone, Copy, PartialEq, Eq, Structural)]
pub struct Anchor {
    pub x: i32,
    pub y: i32,
    pub floor_y: i32,
}

/// Half of a length, towards zero.
pub open spec fn half(n: int) -> int {
    if n >= 0 {
        n / 2
    } else {
        -((-n) / 2)
    }
}

fn half_of(n: i32) -> (r: i32)
    ensures
        r == half(n as int),
{
    if n >= 0 {
        n / 2
    } else {
        let below: i32 = -(n + 1);
        let rest: i32 = below % 2;
        -(below / 2 + rest)
    }
}

/// What the taskbar takes of the screen at each edge.
pub open spec fn gap(screen: Area, work: Area, edge: Edge) -> int {
    match edge {
        Edge::Bottom => (screen.y + screen.h) - (work.y + work.h),
        Edge::Top => work.y - screen.y,
        Edge::Left => work.x - screen.x,
        Edge::Right => (screen.x + screen.w) - (work.x + work.w),
    }
}

/// The edge with the largest gap; of equal ones the right, then the left,
/// then the top. Without a gap the taskbar is hidden, and the half of the
/// screen that the icon is in decides.
pub open spec fn taskbar_edge(screen: Area, work: Area, anchor: Anchor) -> Edge {
    let b = gap(screen, work, Edge::Bottom);
    let t = gap(screen, work, Edge::Top);
    let l = gap(screen, work, Edge::Left);
    let r = gap(screen, work, Edge::Right);
    if b <= 0 && t <= 0 && l <= 0 && r <= 0 {
        if anchor.floor_y < screen.y + half(screen.h as int) {
            Edge::Top
        } else {
            Edge::Bottom
        }
    } else if r >= l && r >= t && r >= b {
        Edge::Right
    } else if l >= t && l >= b {
        Edge::Left
    } else if t >= b {
        Edge::Top
    } else {
        Edge::Bottom
    }
}

/// A value kept between two bounds.
pub open spec fn bounded(v: int, low: int, high: int) -> int {
    if v < low {
        low
    } else if v > high {
        high
    } else {
        v
    }
}

/// The last place along one side of the work area at which a panel of
/// `length` still has its margin, or else the side's start.
pub open spec fn last_place(start: int, room: int, length: int, margin: int) -> int {
    if start + room - length - margin >= start {
        start + room - length - margin
    } else {
        start
    }
}

/// The places along one side of the work area between which a panel of
/// `length` can stand: with its margin on both sides, or anywhere inside where
/// there is no room for that, or at the side's start where it is too long.
pub open spec fn bounds(start: int, room: int, length: int, margin: int) -> (int, int) {
    let last = last_place(start, room, length, margin);
    if start + margin <= last {
        (start + margin, last)
    } else if length <= room {
        (start, start + room - length)
    } else {
        (start, start)
    }
}

/// Where the panel goes: against the taskbar, centered on the anchor, kept
/// inside the work area.
pub open spec fn position(
    screen: Area,
    work: Area,
    anchor: Anchor,
    size: (i32, i32),
    margin: i32,
) -> (int, int) {
    let (min_x, max_x) = bounds(work.x as int, work.w as int, size.0 as int, margin as int);
    let (min_y, max_y) = bounds(work.y as int, work.h as int, size.1 as int, margin as int);
    let x = bounded(anchor.x - half(size.0 as int), min_x, max_x);
    let y = bounded(anchor.y - half(size.1 as int), min_y, max_y);
    match taskbar_edge(screen, work, anchor) {
        Edge::Bottom => (x, max_y),
        Edge::Top => (x, min_y),
        Edge::Left => (min_x, y),
        Edge::Right => (max_x, y),
    }
}

/// The pixels of a screen lie within reach of 32 bits.
pub open spec fn in_reach(
    screen: Area,
    work: Area,
    anchor: Anchor,
    size: (i32, i32),
    margin: i32,
) -> bool {
    &&& is_pixel(screen.y + screen.h)
    &&& is_pixel(screen.x + screen.w)
    &&& is_pixel(work.y + work.h)
    &&& is_pixel(work.x + work.w)
    &&& is_pixel(gap(screen, work, Edge::Bottom))
    &&& is_pixel(gap(screen, work, Edge::Top))
    &&& is_pixel(gap(screen, work, Edge::Left))
    &&& is_pixel(gap(screen, work, Edge::Right))
    &&& is_pixel(screen.y + half(screen.h as int))
    &&& is_pixel(work.x + work.w - size.0)
    &&& is_pixel(work.y + work.h - size.1)
    &&& is_pixel(work.x + work.w - size.0 - margin)
    &&& is_pixel(work.y + work.h - size.1 - margin)
    &&& is_pixel(work.x + margin)
    &&& is_pixel(work.y + margin)
    &&& is_pixel(anchor.x - half(size.0 as int))
    &&& is_pixel(anchor.y - half(size.1 as int))
}

pub open spec fn is_pixel(n: int) -> bool {
    i32::MIN <= n <= i32::MAX
}

fn clamp(v: i32, low: i32, high: i32) -> (r: i32)
    ensures
        r == bounded(v as int, low as int, high as int),
{
    if v < low {
        low
    } else if v > high {
        high
    } else {
        v
    }
}

fn bounds_of(start: i32, room: i32, length: i32, margin: i32) -> (r: (i32, i32))
    requires
        is_pixel(start + room),
        is_pixel(start + room - length),
        is_pixel(start + room - length - margin),
        is_pixel(start + margin),
    ensures
        (r.0 as int, r.1 as int) == bounds(
            start as int,
            room as int,
            length as int,
            margin as int,
        ),
{
    let mut last: i32 = start + room - length - margin;
    if last < start {
        last = start;
    }
    if start + margin <= last {
        (start + margin, last)
    } else if length <= room {
        (start, start + room - length)
    } else {
        (start, start)
    }
}

/// Places the panel.
pub fn panel_position(
    screen: Area,
    work: Area,
    anchor: Anchor,
    size: (i32, i32),
    margin: i32,
) -> (r: (i32, i32))
    requires
        in_reach(screen, work, anchor, size, margin),
    ensures
        (r.0 as int, r.1 as int) == position(screen, work, anchor, size, margin),
{
    let b: i32 = (screen.y + screen.h) - (work.y + work.h);
    let t: i32 = work.y - screen.y;
    let l: i32 = work.x - screen.x;
    let r: i32 = (screen.x + screen.w) - (work.x + work.w);
    let edge = if b <= 0 && t <= 0 && l <= 0 && r <= 0 {
        if anchor.floor_y < screen.y + half_of(screen.h) {
            Edge::Top
        } else {
            Edge::Bottom
        }
    } else if r >= l && r >= t && r >= b {
        Edge::Right
    } else if l >= t && l >= b {
        Edge::Left
    } else if t >= b {
        Edge::Top
    } else {
        Edge::Bottom
    };
    let (w, h) = size;
    let (min_x, max_x) = bounds_of(work.x, work.w, w, margin);
    let (min_y, max_y) = bounds_of(work.y, work.h, h, margin);
    let centered_x: i32 = clamp(anchor.x - half_of(w), min_x, max_x);
    let centered_y: i32 = clamp(anchor.y - half_of(h), min_y, max_y);
    match edge {
        Edge::Bottom => (centered_x, max_y),
        Edge::Top => (centered_x, min_y),
        Edge::Left => (min_x, centered_y),
        Edge::Right => (max_x, centered_y),
    }
}

/// A panel that is no larger than the work area never leaves it, wherever the
/// icon is, and keeps its margin where there is room for one on both sides.
pub proof fn law_the_panel_stays_in_the_work_area(
    screen: Area,
    work: Area,
    anchor: Anchor,
    size: (i32, i32),
    margin: i32,
)
    requires
        0 <= margin,
        size.0 <= work.w,
        size.1 <= work.h,
    ensures
        ({
            let (x, y) = position(screen, work, anchor, size, margin);
            &&& work.x <= x && x + size.0 <= work.x + work.w
            &&& work.y <= y && y + size.1 <= work.y + work.h
            &&& size.0 + 2 * margin <= work.w ==> work.x + margin <= x && x + size.0 + margin
                <= work.x + work.w
            &&& size.1 + 2 * margin <= work.h ==> work.y + margin <= y && y + size.1 + margin
                <= work.y + work.h
        }),
{
}

/// The panel stands against the edge that the taskbar takes.
pub proof fn law_the_panel_is_next_to_the_taskbar(
    screen: Area,
    work: Area,
    anchor: Anchor,
    size: (i32, i32),
    margin: i32,
    edge: Edge,
)
    requires
        gap(screen, work, edge) > 0,
        forall|other: Edge| other != edge ==> #[trigger] gap(screen, work, other) <= 0,
        0 <= margin,
        size.0 + 2 * margin <= work.w,
        size.1 + 2 * margin <= work.h,
    ensures
        taskbar_edge(screen, work, anchor) == edge,
        ({
            let (x, y) = position(screen, work, anchor, size, margin);
            match edge {
                Edge::Bottom => y + size.1 + margin == work.y + work.h,
                Edge::Top => y == work.y + margin,
                Edge::Left => x == work.x + margin,
                Edge::Right => x + size.0 + margin == work.x + work.w,
            }
        }),
{
    let b = gap(screen, work, Edge::Bottom);
    let t = gap(screen, work, Edge::Top);
    let l = gap(screen, work, Edge::Left);
    let r = gap(screen, work, Edge::Right);
}

/// The panel opens at the start unless the login item started the app.
pub proof fn law_the_login_item_starts_in_the_tray(args: &Vec<String>, r: bool, i: int)
    requires
        call_ensures(opens_panel, (args,), r),
    ensures
        0 <= i < args@.len() && args@[i]@ == "--autostart"@ ==> !r,
        !r ==> exists|k: int| 0 <= k < args@.len() && (#[trigger] args@[k])@ == "--autostart"@,
{
}

/// A click shortly after the panel was hidden is the one that hid it; a later
/// one shows the panel. A click on a panel that is shown hides it.
pub proof fn law_a_click_opens_a_hidden_panel(
    panel: &mut Panel,
    visible: bool,
    t: u64,
    hid: bool,
    after: &Panel,
    now: u64,
    r: Toggle,
    s: Toggle,
)
    requires
        call_ensures(Panel::hide_panel, (panel, visible, t), hid),
        *after == *final(panel),
        call_ensures(Panel::toggle_panel, (after, false, now), r),
        call_ensures(Panel::toggle_panel, (after, true, now), s),
    ensures
        hid <==> visible,
        visible ==> (r == Toggle::Show <==> now > t + 250),
        visible ==> (r == Toggle::Nothing <==> now <= t + 250),
        s == Toggle::Hide,
        !visible ==> *final(panel) == *old(panel),
        final(panel).shown_at == old(panel).shown_at,
        final(panel).had_focus == old(panel).had_focus,
{
}

/// Losing focus hides the panel only where it had it since it was shown, and was
/// shown for more than a moment.
pub proof fn law_only_a_panel_that_had_focus_is_left(
    panel: &mut Panel,
    t: u64,
    unfocused: &Panel,
    early: bool,
    focusing: &mut Panel,
    after: &Panel,
    now: u64,
    r: bool,
)
    requires
        call_ensures(Panel::open_at, (panel, t), ()),
        *unfocused == *final(panel),
        call_ensures(Panel::blurred, (unfocused, now), early),
        *old(focusing) == *final(panel),
        call_ensures(Panel::focused, (focusing,), ()),
        *after == *final(focusing),
        call_ensures(Panel::blurred, (after, now), r),
    ensures
        !early,
        r <==> now > t + 400,
        final(focusing).hidden_at == old(panel).hidden_at,
{
}

/// A new panel has not been shown.
pub proof fn law_a_new_panel_was_not_shown(panel: Panel)
    requires
        call_ensures(Panel::new, (), panel),
    ensures
        panel.hidden_at == 0 && panel.shown_at == 0 && !panel.had_focus,
{
}

/// Wherever the icon is, a panel that is no larger than the work area is placed
/// inside it, with its margin where there is room for one on both sides.
pub proof fn law_a_placed_panel_is_seen(
    screen: Area,
    work: Area,
    anchor: Anchor,
    size: (i32, i32),
    margin: i32,
    r: (i32, i32),
)
    requires
        call_ensures(panel_position, (screen, work, anchor, size, margin), r),
        0 <= margin,
        0 <= size.0 <= work.w,
        0 <= size.1 <= work.h,
    ensures
        work.x <= r.0 && r.0 + size.0 <= work.x + work.w,
        work.y <= r.1 && r.1 + size.1 <= work.y + work.h,
        size.0 + 2 * margin <= work.w ==> work.x + margin <= r.0 && r.0 + size.0 + margin <= work.x
            + work.w,
        size.1 + 2 * margin <= work.h ==> work.y + margin <= r.1 && r.1 + size.1 + margin <= work.y
            + work.h,
{
    law_the_panel_stays_in_the_work_area(screen, work, anchor, size, margin);
}

/// The panel stands against the edge that the taskbar takes, and along it as
/// near as it can to being centered on the icon. Where the taskbar is hidden it
/// stands at the top or the bottom, whichever half the icon is in.
pub proof fn law_a_panel_is_placed_at_the_icon(
    screen: Area,
    work: Area,
    anchor: Anchor,
    size: (i32, i32),
    margin: i32,
    r: (i32, i32),
)
    requires
        call_ensures(panel_position, (screen, work, anchor, size, margin), r),
        0 <= margin,
        0 <= size.0 && size.0 + 2 * margin <= work.w,
        0 <= size.1 && size.1 + 2 * margin <= work.h,
        0 <= screen.h,
    ensures
        ({
            let bottom = screen.y + screen.h - (work.y + work.h);
            let top = work.y - screen.y;
            let left = work.x - screen.x;
            let right = screen.x + screen.w - (work.x + work.w);
            let hidden = bottom <= 0 && top <= 0 && left <= 0 && right <= 0;
            let at_bottom = r.1 + size.1 + margin == work.y + work.h;
            let at_top = r.1 == work.y + margin;
            let at_left = r.0 == work.x + margin;
            let at_right = r.0 + size.0 + margin == work.x + work.w;
            let free_x = work.x + margin + size.0 / 2 <= anchor.x <= work.x + work.w - margin
                - size.0 + size.0 / 2;
            let free_y = work.y + margin + size.1 / 2 <= anchor.y <= work.y + work.h - margin
                - size.1 + size.1 / 2;
            &&& bottom > 0 && bottom > top && bottom > left && bottom > right ==> at_bottom
            &&& top > 0 && top > bottom && top > left && top > right ==> at_top
            &&& left > 0 && left > bottom && left > top && left > right ==> at_left
            &&& right > 0 && right > bottom && right > top && right > left ==> at_right
            &&& hidden && anchor.floor_y < screen.y + screen.h / 2 ==> at_top
            &&& hidden && anchor.floor_y >= screen.y + screen.h / 2 ==> at_bottom
            &&& (hidden || (bottom > top && bottom > left && bottom > right) || (top > bottom && top
                > left && top > right)) && free_x ==> -1 <= 2 * r.0 + size.0 - 2 * anchor.x <= 1
            &&& !hidden && ((left > bottom && left > top && left > right) || (right > bottom && right
                > top && right > left)) && free_y ==> -1 <= 2 * r.1 + size.1 - 2 * anchor.y <= 1
        }),
{
}

/// A panel without room for its margins still stands inside the work area, as
/// near as it can to being centered on the icon along the taskbar; one that is
/// too large begins where the work area does.
pub proof fn law_a_tight_panel_stays_at_the_icon(
    screen: Area,
    work: Area,
    anchor: Anchor,
    size: (i32, i32),
    margin: i32,
    r: (i32, i32),
)
    requires
        call_ensures(panel_position, (screen, work, anchor, size, margin), r),
        0 <= margin,
        0 <= size.0 && 0 <= size.1,
        screen.y + screen.h - (work.y + work.h) > 0,
        screen.y + screen.h - (work.y + work.h) > work.y - screen.y,
        screen.y + screen.h - (work.y + work.h) > work.x - screen.x,
        screen.y + screen.h - (work.y + work.h) > screen.x + screen.w - (work.x + work.w),
    ensures
        size.0 > work.w ==> r.0 == work.x,
        size.1 > work.h ==> r.1 == work.y,
        size.0 <= work.w < size.0 + 2 * margin ==> {
            let wanted = anchor.x - size.0 / 2;
            &&& wanted <= work.x ==> r.0 == work.x
            &&& wanted >= work.x + work.w - size.0 ==> r.0 == work.x + work.w - size.0
            &&& work.x <= wanted <= work.x + work.w - size.0 ==> r.0 == wanted
        },
        size.1 <= work.h < size.1 + 2 * margin ==> r.1 + size.1 == work.y + work.h,
        size.1 + 2 * margin <= work.h ==> r.1 + size.1 + margin == work.y + work.h,
{
}

} // verus!
