//! Mouse hit-testing on the three main panels, and the decisions a mouse event leads to.

use vstd::prelude::*;

verus! {

/// A rectangle of terminal cells.
#[derive(Debug, Clone, Copy, PartialEq, Eq, Structural)]
pub struct Rect {
    pub x: u16,
    pub y: u16,
    pub width: u16,
    pub height: u16,
}

/// `a + b`, but at most `u16::MAX`.
pub open spec fn sat_add16(a: u16, b: u16) -> u16 {
    if a + b > u16::MAX {
        u16::MAX
    } else {
        (a + b) as u16
    }
}

/// Whether the cell at (`col`, `row`) lies in `r` (its right and bottom edges saturate).
pub open spec fn rect_contains(r: Rect, col: u16, row: u16) -> bool {
    r.x <= col && col < sat_add16(r.x, r.width) && r.y <= row && row < sat_add16(r.y, r.height)
}

impl Rect {
    /// The empty rectangle at the origin.
    pub fn zero() -> (r: Rect)
        ensures
            r == (Rect { x: 0, y: 0, width: 0, height: 0 }),
    {
        Rect { x: 0, y: 0, width: 0, height: 0 }
    }

    /// Whether the cell at (`col`, `row`) lies in this rectangle.
    pub fn contains(&self, col: u16, row: u16) -> (b: bool)
        ensures
            b == rect_contains(*self, col, row),
    {
        col >= self.x && col < self.x.saturating_add(self.width) && row >= self.y
            && row < self.y.saturating_add(self.height)
    }

    /// The number of cells of the rectangle.
    pub fn area(&self) -> (a: u32)
        ensures
            a == self.width * self.height,
    {
        assert(self.width * self.height <= u16::MAX * u16::MAX) by (nonlinear_arith);
        (self.width as u32) * (self.height as u32)
    }
}

/// One of the three main panels.
#[derive(Debug, Clone, Copy, PartialEq, Eq, Structural)]
pub enum Panel {
    FeedList,
    ArticleList,
    ArticleContent,
}

/// Which panel has the focus, or the distraction-free view of the article content.
#[derive(Debug, Clone, Copy, PartialEq, Eq, Structural)]
pub enum AppState {
    FeedSelection,
    ArticleSelection,
    ArticleContent,
    ArticleContentDistractionFree,
}

/// The state that focuses a panel.
pub open spec fn spec_state_for_panel(p: Panel) -> AppState {
    match p {
        Panel::FeedList => AppState::FeedSelection,
        Panel::ArticleList => AppState::ArticleSelection,
        Panel::ArticleContent => AppState::ArticleContent,
    }
}

/// The state that focuses `panel`.
pub fn state_for_panel(panel: Panel) -> (s: AppState)
    ensures
        s == spec_state_for_panel(panel),
{
    match panel {
        Panel::FeedList => AppState::FeedSelection,
        Panel::ArticleList => AppState::ArticleSelection,
        Panel::ArticleContent => AppState::ArticleContent,
    }
}

/// The last rendered areas of the three main panels, for mouse hit-testing.
#[derive(Debug, Clone, Copy, PartialEq, Eq, Structural)]
pub struct PanelAreas {
    pub feed_list: Rect,
    pub articles_list: Rect,
    pub article_content: Rect,
}

/// The panel under the cell (`col`, `row`), checking the feed list, then the article list,
/// then the article content.
pub open spec fn spec_panel_at(a: PanelAreas, col: u16, row: u16) -> Option<Panel> {
    if rect_contains(a.feed_list, col, row) {
        Some(Panel::FeedList)
    } else if rect_contains(a.articles_list, col, row) {
        Some(Panel::ArticleList)
    } else if rect_contains(a.article_content, col, row) {
        Some(Panel::ArticleContent)
    } else {
        None
    }
}

/// The row offset of `row` within the inner area of the article list (below its top border),
/// or `None` outside of it.
pub open spec fn spec_article_row_offset(a: PanelAreas, row: u16) -> Option<u16> {
    let area = a.articles_list;
    let top = area.y + 1;
    let bottom = area.y + (if area.height >= 1 { area.height - 1 } else { 0 });
    if top <= row && row <= bottom {
        Some((row - top) as u16)
    } else {
        None
    }
}

/// Whether (`col`, `row`) is on the vertical border between the article list and the content.
pub open spec fn spec_on_vertical_border(a: PanelAreas, col: u16, row: u16) -> bool {
    let l = a.articles_list;
    col == l.x + l.width && l.y <= row && row < l.y + l.height
}

/// The right edge and the bottom of the article list lie on the screen, so that the border
/// between it and the content can be found.
pub open spec fn border_fits(a: PanelAreas) -> bool {
    let l = a.articles_list;
    &&& l.x + l.width <= u16::MAX
    &&& l.y + l.height <= u16::MAX
}

/// The first and the last inner row of the article list lie on the screen.
pub open spec fn inner_rows_fit(a: PanelAreas) -> bool {
    let l = a.articles_list;
    &&& l.y < u16::MAX
    &&& l.y + (if l.height >= 1 { l.height - 1 } else { 0 }) <= u16::MAX
}

impl PanelAreas {
    /// No panel has been drawn yet.
    pub fn empty() -> (a: PanelAreas)
        ensures
            a.feed_list == (Rect { x: 0, y: 0, width: 0, height: 0 }),
            a.articles_list == (Rect { x: 0, y: 0, width: 0, height: 0 }),
            a.article_content == (Rect { x: 0, y: 0, width: 0, height: 0 }),
    {
        PanelAreas { feed_list: Rect::zero(), articles_list: Rect::zero(), article_content: Rect::zero() }
    }

    /// The panel under the cell (`col`, `row`).
    pub fn panel_at(&self, col: u16, row: u16) -> (p: Option<Panel>)
        ensures
            p == spec_panel_at(*self, col, row),
    {
        if self.feed_list.contains(col, row) {
            Some(Panel::FeedList)
        } else if self.articles_list.contains(col, row) {
            Some(Panel::ArticleList)
        } else if self.article_content.contains(col, row) {
            Some(Panel::ArticleContent)
        } else {
            None
        }
    }

    /// The row offset relative to the inner area of the article list (excluding its border).
    pub fn article_row_offset(&self, row: u16) -> (o: Option<u16>)
        requires
            inner_rows_fit(*self),
        ensures
            o == spec_article_row_offset(*self, row),
    {
        let area = self.articles_list;
        let inner_top = area.y + 1;
        let inner_bottom = area.y + area.height.saturating_sub(1);
        if row >= inner_top && row <= inner_bottom {
            Some(row - inner_top)
        } else {
            None
        }
    }

    /// Whether the position is on the vertical border between the article list and the article
    /// content.
    pub fn is_on_vertical_border(&self, col: u16, row: u16) -> (b: bool)
        requires
            border_fits(*self),
        ensures
            b == spec_on_vertical_border(*self, col, row),
    {
        let border_col = self.articles_list.x + self.articles_list.width;
        let in_row_range = row >= self.articles_list.y && row < self.articles_list.y
            + self.articles_list.height;
        col == border_col && in_row_range
    }
}


/// The kinds of mouse event the panels react to.
#[derive(Debug, Clone, Copy, PartialEq, Eq, Structural)]
pub enum MouseKind {
    LeftDown,
    LeftDrag,
    LeftUp,
    ScrollDown,
    ScrollUp,
    Other,
}

/// What a mouse event asks of the application, in order.
#[derive(Debug, Clone, Copy, PartialEq, Eq, Structural)]
pub enum MouseAction {
    /// Move the focus (the new state is announced).
    SwitchState(AppState),
    /// A click on the article list, at this row of its inner area.
    ArticleClick(u16),
    /// A click on the feed list, at this column and row of the screen.
    FeedClick(u16, u16),
    /// Scroll a panel's viewport down without moving the selection.
    ScrollDown(Panel),
    /// Scroll a panel's viewport up without moving the selection.
    ScrollUp(Panel),
    /// Redraw the screen.
    Redraw,
}

/// What the mouse handling reads of the application.
#[derive(Debug, Clone, Copy, PartialEq, Eq, Structural)]
pub struct MouseContext {
    /// A command line, a confirmation or a modal help popup is open.
    pub modal_active: bool,
    pub state: AppState,
    /// The border between the article list and the content is being dragged.
    pub drag_resize_active: bool,
    /// The width of the article list pinned by dragging, if any.
    pub articles_width_override: Option<u16>,
    pub areas: PanelAreas,
}

/// The application after a mouse event, and the actions it asks for.
pub struct MouseOutcome {
    pub state: AppState,
    pub drag_resize_active: bool,
    pub articles_width_override: Option<u16>,
    pub actions: Vec<MouseAction>,
}

/// The width the article list takes when the border is dragged to column `col`: the distance
/// from the list's left edge, kept at least 3 columns away from either outer edge.
pub open spec fn spec_drag_width(areas: PanelAreas, col: u16) -> u16 {
    let left = areas.articles_list.x;
    let right = areas.article_content.x + areas.article_content.width;
    let total = if right >= left { right - left } else { 0 };
    let wanted = if col >= left { col - left } else { 0 };
    let upper = if total >= 3 { total - 3 } else { 0 };
    (if wanted < 3 {
        3
    } else if wanted > upper {
        upper
    } else {
        wanted
    }) as u16
}

/// The panels leave room for a drag: both edges are on screen and at least 6 columns apart.
pub open spec fn drag_room(areas: PanelAreas) -> bool {
    let left = areas.articles_list.x;
    let right = areas.article_content.x + areas.article_content.width;
    right <= u16::MAX && right >= left + 6
}

/// The outcome of a mouse event of kind `kind` at (`col`, `row`).
pub open spec fn spec_mouse_outcome(ctx: MouseContext, kind: MouseKind, col: u16, row: u16) -> (AppState, bool, Option<u16>, Seq<MouseAction>) {
    let none = (ctx.state, ctx.drag_resize_active, ctx.articles_width_override, Seq::<MouseAction>::empty());
    let df = ctx.state == AppState::ArticleContentDistractionFree;
    if ctx.modal_active {
        none
    } else {
        match kind {
            MouseKind::LeftDown => {
                if !df && spec_on_vertical_border(ctx.areas, col, row) {
                    (ctx.state, true, ctx.articles_width_override, Seq::empty())
                } else {
                    match spec_panel_at(ctx.areas, col, row) {
                        None => none,
                        Some(panel) => {
                            let target = spec_state_for_panel(panel);
                            let switch = !df && ctx.state != target;
                            let a1 = if switch { seq![MouseAction::SwitchState(target)] } else { Seq::empty() };
                            let a2 = match panel {
                                Panel::ArticleList => match spec_article_row_offset(ctx.areas, row) {
                                    Some(o) => seq![MouseAction::ArticleClick(o)],
                                    None => Seq::empty(),
                                },
                                Panel::FeedList => seq![MouseAction::FeedClick(col, row)],
                                Panel::ArticleContent => Seq::empty(),
                            };
                            (
                                if switch { target } else { ctx.state },
                                ctx.drag_resize_active,
                                ctx.articles_width_override,
                                a1 + a2 + seq![MouseAction::Redraw],
                            )
                        },
                    }
                }
            },
            MouseKind::LeftDrag => {
                if ctx.drag_resize_active {
                    let w = spec_drag_width(ctx.areas, col);
                    let redraw = match ctx.articles_width_override {
                        Some(old) => old != w,
                        None => false,
                    };
                    (ctx.state, true, Some(w), if redraw { seq![MouseAction::Redraw] } else { Seq::empty() })
                } else {
                    none
                }
            },
            MouseKind::LeftUp => (ctx.state, false, ctx.articles_width_override, Seq::empty()),
            MouseKind::ScrollDown => match spec_panel_at(ctx.areas, col, row) {
                Some(p) => (ctx.state, ctx.drag_resize_active, ctx.articles_width_override, seq![MouseAction::ScrollDown(p), MouseAction::Redraw]),
                None => none,
            },
            MouseKind::ScrollUp => match spec_panel_at(ctx.areas, col, row) {
                Some(p) => (ctx.state, ctx.drag_resize_active, ctx.articles_width_override, seq![MouseAction::ScrollUp(p), MouseAction::Redraw]),
                None => none,
            },
            MouseKind::Other => none,
        }
    }
}

/// The width the article list takes when the border is dragged to column `col`.
pub fn drag_width(areas: &PanelAreas, col: u16) -> (w: u16)
    requires
        drag_room(*areas),
    ensures
        w == spec_drag_width(*areas, col),
        3 <= w,
{
    let articles_left = areas.articles_list.x;
    let content_right = areas.article_content.x + areas.article_content.width;
    let total_width = content_right.saturating_sub(articles_left);
    let wanted = col.saturating_sub(articles_left);
    let upper = total_width.saturating_sub(3);
    if wanted < 3 {
        3
    } else if wanted > upper {
        upper
    } else {
        wanted
    }
}

/// Decides what a mouse event does: nothing while a modal is open; a left press on the border
/// between the article list and the content starts a drag, elsewhere it focuses the panel
/// under it (not in distraction-free mode) and passes the click on; dragging resizes the
/// article list; releasing ends the drag; the wheel scrolls the panel under the pointer.
pub fn mouse_outcome(ctx: &MouseContext, kind: MouseKind, col: u16, row: u16) -> (o: MouseOutcome)
    requires
        !ctx.modal_active && kind == MouseKind::LeftDown && ctx.state != AppState::ArticleContentDistractionFree
            ==> border_fits(ctx.areas),
        !ctx.modal_active && kind == MouseKind::LeftDown && spec_panel_at(ctx.areas, col, row) == Some(Panel::ArticleList)
            && !(ctx.state != AppState::ArticleContentDistractionFree && spec_on_vertical_border(ctx.areas, col, row))
            ==> inner_rows_fit(ctx.areas),
        !ctx.modal_active && kind == MouseKind::LeftDrag && ctx.drag_resize_active ==> drag_room(ctx.areas),
    ensures
        (o.state, o.drag_resize_active, o.articles_width_override, o.actions@) == spec_mouse_outcome(*ctx, kind, col, row),
{
    let mut actions: Vec<MouseAction> = Vec::new();
    let df = ctx.state == AppState::ArticleContentDistractionFree;
    if ctx.modal_active {
        assert(actions@ =~= Seq::<MouseAction>::empty());
        return MouseOutcome {
            state: ctx.state,
            drag_resize_active: ctx.drag_resize_active,
            articles_width_override: ctx.articles_width_override,
            actions,
        };
    }
    let mut state = ctx.state;
    let mut drag = ctx.drag_resize_active;
    let mut width_override = ctx.articles_width_override;
    match kind {
        MouseKind::LeftDown => {
            if !df && ctx.areas.is_on_vertical_border(col, row) {
                drag = true;
            } else {
                match ctx.areas.panel_at(col, row) {
                    None => {},
                    Some(panel) => {
                        let target = state_for_panel(panel);
                        if !df && ctx.state != target {
                            state = target;
                            actions.push(MouseAction::SwitchState(target));
                        }
                        match panel {
                            Panel::ArticleList => {
                                match ctx.areas.article_row_offset(row) {
                                    Some(o) => actions.push(MouseAction::ArticleClick(o)),
                                    None => {},
                                }
                            },
                            Panel::FeedList => actions.push(MouseAction::FeedClick(col, row)),
                            Panel::ArticleContent => {},
                        }
                        actions.push(MouseAction::Redraw);
                    },
                }
            }
        },
        MouseKind::LeftDrag => {
            if ctx.drag_resize_active {
                let w = drag_width(&ctx.areas, col);
                let old = width_override;
                width_override = Some(w);
                match old {
                    Some(old_width) => {
                        if old_width != w {
                            actions.push(MouseAction::Redraw);
                        }
                    },
                    None => {},
                }
            }
        },
        MouseKind::LeftUp => {
            drag = false;
        },
        MouseKind::ScrollDown => {
            match ctx.areas.panel_at(col, row) {
                Some(p) => {
                    actions.push(MouseAction::ScrollDown(p));
                    actions.push(MouseAction::Redraw);
                },
                None => {},
            }
        },
        MouseKind::ScrollUp => {
            match ctx.areas.panel_at(col, row) {
                Some(p) => {
                    actions.push(MouseAction::ScrollUp(p));
                    actions.push(MouseAction::Redraw);
                },
                None => {},
            }
        },
        MouseKind::Other => {},
    }
    let o = MouseOutcome { state, drag_resize_active: drag, articles_width_override: width_override, actions };
    assert(o.actions@ =~= spec_mouse_outcome(*ctx, kind, col, row).3);
    o
}

} // verus!
