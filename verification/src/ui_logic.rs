//! Decisions of the main view and of the message loop: how the panels share the width, what
//! the status bar shows, when to redraw and clear, and which events change the model.

use vstd::prelude::*;

use crate::app_logic::TooltipFlavor;
use crate::dimension::{Dimension, LayoutConstraint};
use crate::mouse::AppState;
use crate::style::{spec_add_modifier, spec_remove_modifier, SpanView, StyledSpan, TextStyle, MODIFIER_REVERSED};
use crate::unicode::push_char;

verus! {

/// The configured widths of the three panels, each used when its panel has the focus.
#[derive(Debug, Clone, Copy)]
pub struct PanelWidths {
    pub feed_list: Dimension,
    pub article_list: Dimension,
    pub article_content: Dimension,
}

/// The fill weight of a dimension: the length or percentage, but at least 1.
pub open spec fn fill_weight(d: Dimension) -> u16 {
    match d {
        Dimension::Length(l) => if l >= 1 { l } else { 1 },
        Dimension::Percentage(p) => if p >= 1 { p } else { 1 },
    }
}

/// The constraint that gives a panel its configured dimension.
pub open spec fn own_constraint(d: Dimension) -> LayoutConstraint {
    match d {
        Dimension::Length(l) => LayoutConstraint::Length(l),
        Dimension::Percentage(p) => LayoutConstraint::Percentage(p),
    }
}

/// How the three panels share the width: the focused panel takes its configured width and the
/// other two share what is left in proportion to their own configured widths; a dragged border
/// pins the article list's width and leaves the rest to the content. In distraction-free mode
/// the content takes everything (`None`).
pub open spec fn spec_panel_constraints(state: AppState, w: PanelWidths, override_width: Option<u16>) -> Option<(LayoutConstraint, LayoutConstraint, LayoutConstraint)> {
    if state == AppState::ArticleContentDistractionFree {
        None
    } else {
        let (f, a, c) = match state {
            AppState::FeedSelection => (
                own_constraint(w.feed_list),
                LayoutConstraint::Fill(fill_weight(w.article_list)),
                LayoutConstraint::Fill(fill_weight(w.article_content)),
            ),
            AppState::ArticleSelection => (
                LayoutConstraint::Fill(fill_weight(w.feed_list)),
                own_constraint(w.article_list),
                LayoutConstraint::Fill(fill_weight(w.article_content)),
            ),
            _ => (
                LayoutConstraint::Fill(fill_weight(w.feed_list)),
                LayoutConstraint::Fill(fill_weight(w.article_list)),
                own_constraint(w.article_content),
            ),
        };
        Some(match override_width {
            Some(o) => (f, LayoutConstraint::Length(o), LayoutConstraint::Min(0)),
            None => (f, a, c),
        })
    }
}

/// How the three panels share the width (`None`: the content takes it all).
pub fn panel_constraints(state: AppState, w: PanelWidths, override_width: Option<u16>) -> (r: Option<(LayoutConstraint, LayoutConstraint, LayoutConstraint)>)
    ensures
        r == spec_panel_constraints(state, w, override_width),
{
    if state == AppState::ArticleContentDistractionFree {
        return None;
    }
    let (f, a, c) = match state {
        AppState::FeedSelection => (
            w.feed_list.as_constraint(),
            LayoutConstraint::Fill(w.article_list.as_fill_weight()),
            LayoutConstraint::Fill(w.article_content.as_fill_weight()),
        ),
        AppState::ArticleSelection => (
            LayoutConstraint::Fill(w.feed_list.as_fill_weight()),
            w.article_list.as_constraint(),
            LayoutConstraint::Fill(w.article_content.as_fill_weight()),
        ),
        _ => (
            LayoutConstraint::Fill(w.feed_list.as_fill_weight()),
            LayoutConstraint::Fill(w.article_list.as_fill_weight()),
            w.article_content.as_constraint(),
        ),
    };
    Some(match override_width {
        Some(o) => (f, LayoutConstraint::Length(o), LayoutConstraint::Min(0)),
        None => (f, a, c),
    })
}

/// What sits in the status cell of the status bar.
pub enum StatusCell {
    /// The offline icon (with a space after it).
    Offline(StyledSpan),
    /// The spinner of a running operation, in this style.
    Spinner(TextStyle),
    /// Nothing.
    Idle(StyledSpan),
}

/// What the status bar shows.
pub struct StatusBarPlan {
    pub left: StyledSpan,
    pub right: StyledSpan,
    pub status: StatusCell,
}

/// Whether the status bar is shown: always, except in distraction-free mode, where only a
/// warning or an error brings it up.
pub open spec fn spec_shows_status_bar(state: AppState, flavor: TooltipFlavor) -> bool {
    state != AppState::ArticleContentDistractionFree || flavor == TooltipFlavor::Warning || flavor == TooltipFlavor::Error
}

/// The style of an edge of the status bar drawn with `icon`: a blank edge is filled in reverse.
pub open spec fn status_edge_style(style: TextStyle, icon: char) -> TextStyle {
    if icon != ' ' { spec_remove_modifier(style, MODIFIER_REVERSED) } else { spec_add_modifier(style, MODIFIER_REVERSED) }
}

/// The icons of the status bar.
#[derive(Clone, Copy, Debug)]
pub struct StatusIcons {
    pub left: char,
    pub right: char,
    pub offline: char,
}

/// A span of the single character `c`.
fn char_span(c: char, style: TextStyle) -> (s: StyledSpan)
    ensures
        s@ == (SpanView { text: seq![c], style }),
{
    let mut t = String::new();
    push_char(&mut t, c);
    StyledSpan::styled(t, style)
}

/// What the status bar shows, if it is shown at all; `style` is that of the tooltip line.
pub fn status_bar_plan(
    state: AppState,
    flavor: TooltipFlavor,
    is_offline: bool,
    async_running: bool,
    icons: StatusIcons,
    style: TextStyle,
) -> (plan: Option<StatusBarPlan>)
    ensures
        plan is Some <==> spec_shows_status_bar(state, flavor),
        plan matches Some(p) ==> {
            &&& p.left@ == (SpanView { text: seq![icons.left], style: status_edge_style(style, icons.left) })
            &&& p.right@ == (SpanView { text: seq![icons.right], style: status_edge_style(style, icons.right) })
            &&& match p.status {
                StatusCell::Offline(s) => is_offline && s@ == (SpanView { text: seq![icons.offline, ' '], style }),
                StatusCell::Spinner(st) => !is_offline && async_running && st == style,
                StatusCell::Idle(s) => !is_offline && !async_running && s@ == (SpanView { text: seq![' '], style }),
            }
        },
{
    let shown = state != AppState::ArticleContentDistractionFree || flavor == TooltipFlavor::Warning
        || flavor == TooltipFlavor::Error;
    if !shown {
        return None;
    }
    let status = if is_offline {
        let mut t = String::new();
        push_char(&mut t, icons.offline);
        push_char(&mut t, ' ');
        assert(t@ =~= seq![icons.offline, ' ']);
        StatusCell::Offline(StyledSpan::styled(t, style))
    } else if async_running {
        StatusCell::Spinner(style)
    } else {
        StatusCell::Idle(char_span(' ', style))
    };
    let left_style = if icons.left != ' ' { style.not_reversed() } else { style.reversed() };
    let right_style = if icons.right != ' ' { style.not_reversed() } else { style.reversed() };
    Some(StatusBarPlan { left: char_span(icons.left, left_style), right: char_span(icons.right, right_style), status })
}

/// The period of the render clock, in milliseconds, for `fps` frames a second.
pub fn frame_millis(fps: u64) -> (ms: u64)
    requires
        fps > 0,
    ensures
        ms == 1000u64 / fps,
{
    1000 / fps
}

/// What the message loop keeps between its steps.
#[derive(Debug, Clone, Copy, PartialEq, Eq, Structural)]
pub struct LoopState {
    /// The period of the render clock.
    pub frame_millis: u64,
    /// Whether a redraw is due at the next frame.
    pub redraw: bool,
    /// Whether the terminal is to be cleared at the next clear tick.
    pub clear: bool,
}

/// What happens in the message loop.
#[derive(Debug, Clone, Copy, PartialEq, Eq, Structural)]
pub enum LoopEvent {
    /// A new round starts, with the configured frame rate.
    Round { fps: u64 },
    /// The render clock ticked.
    RenderTick,
    /// The clear clock ticked.
    ClearTick,
    /// A message arrived; whether it is the command to redraw, and the one to clear.
    Message { is_redraw: bool, is_clear: bool },
}

/// What the message loop asks to be done.
#[derive(Debug, Clone, Copy, PartialEq, Eq, Structural)]
pub enum LoopAction {
    /// Restart the render clock with this period.
    RestartRenderClock(u64),
    /// Send the tick event.
    SendTick,
    /// Draw the application.
    Draw,
    /// Clear the terminal.
    ClearTerminal,
}

/// The loop state and actions that follow `event`: a changed frame rate restarts the render
/// clock; each frame sends a tick and draws when a redraw is due; clearing is debounced to the
/// clear clock and is followed by a redraw; messages note that a redraw or a clear is asked for.
pub open spec fn spec_loop_step(s: LoopState, event: LoopEvent) -> (LoopState, Seq<LoopAction>) {
    match event {
        LoopEvent::Round { fps } => {
            let ms = 1000u64 / fps;
            if ms != s.frame_millis {
                (LoopState { frame_millis: ms, ..s }, seq![LoopAction::RestartRenderClock(ms)])
            } else {
                (s, Seq::empty())
            }
        },
        LoopEvent::RenderTick => if s.redraw {
            (LoopState { redraw: false, ..s }, seq![LoopAction::SendTick, LoopAction::Draw])
        } else {
            (s, seq![LoopAction::SendTick])
        },
        LoopEvent::ClearTick => if s.clear {
            (LoopState { clear: false, redraw: true, ..s }, seq![LoopAction::ClearTerminal])
        } else {
            (s, Seq::empty())
        },
        LoopEvent::Message { is_redraw, is_clear } => (
            LoopState { redraw: s.redraw || is_redraw, clear: s.clear || is_clear, ..s },
            Seq::empty(),
        ),
    }
}

/// The state the message loop starts in, for `fps` frames a second.
pub fn loop_start(fps: u64) -> (s: LoopState)
    requires
        fps > 0,
    ensures
        s == (LoopState { frame_millis: 1000u64 / fps, redraw: false, clear: false }),
{
    LoopState { frame_millis: frame_millis(fps), redraw: false, clear: false }
}

/// Decides one step of the message loop.
pub fn loop_step(s: LoopState, event: LoopEvent) -> (r: (LoopState, Vec<LoopAction>))
    requires
        event matches LoopEvent::Round { fps } ==> fps > 0,
    ensures
        r.0 == spec_loop_step(s, event).0,
        r.1@ == spec_loop_step(s, event).1,
{
    let mut next = s;
    let mut actions: Vec<LoopAction> = Vec::new();
    match event {
        LoopEvent::Round { fps } => {
            let ms = frame_millis(fps);
            if ms != s.frame_millis {
                next.frame_millis = ms;
                actions.push(LoopAction::RestartRenderClock(ms));
            }
        },
        LoopEvent::RenderTick => {
            actions.push(LoopAction::SendTick);
            if s.redraw {
                actions.push(LoopAction::Draw);
                next.redraw = false;
            }
        },
        LoopEvent::ClearTick => {
            if s.clear {
                actions.push(LoopAction::ClearTerminal);
                next.clear = false;
                next.redraw = true;
            }
        },
        LoopEvent::Message { is_redraw, is_clear } => {
            next.redraw = s.redraw || is_redraw;
            next.clear = s.clear || is_clear;
        },
    }
    assert(actions@ =~= spec_loop_step(s, event).1);
    (next, actions)
}

/// Whether the next batch command may be taken: no batch command waits for an asynchronous
/// operation and no message is queued.
pub fn can_process_batch(waiting_for_async: bool, queue_empty: bool) -> (b: bool)
    ensures
        b == (!waiting_for_async && queue_empty),
{
    !waiting_for_async && queue_empty
}

/// The events that tell the views that the model changed, as far as that decision reads them.
#[derive(Debug, Clone, Copy, PartialEq, Eq, Structural)]
pub enum EventKind {
    SyncFinished,
    FeedAddFinished,
    FeedFetchFinished,
    PipeArticleFinished,
    RenameFeedFinished,
    CategoryRenameFinished,
    ArticleFatFetchFinished,
    ArticleExtractFinished,
    ArticlesMarkFinished,
    ArticleTagFinished,
    ArticleUntagFinished,
    TagAddFinished,
    TagRemoveFinished,
    TagEditFinished,
    OperationFailed,
    SetOfflineFinished,
    SetAllReadFinished,
    FeedSetReadFinished,
    CategorySetReadFinished,
    TagSetReadFinished,
    ArticlesSetReadFinished,
    ImportOpmlFinished,
    /// Any other event.
    Other,
}

/// Whether an event of kind `k` changed the model: every kind named here does, the others do
/// not.
pub fn caused_model_update(k: EventKind) -> (b: bool)
    ensures
        b == (k != EventKind::Other),
{
    match k {
        EventKind::Other => false,
        _ => true,
    }
}

/// The message when the sync interval is zero.
pub open spec fn sync_interval_message() -> Seq<char> {
    "sync_every_minutes must at least be 1"@
}

/// Checks the configured sync interval: when there is one it must be at least a minute.
pub fn validate_sync_interval(sync_every_minutes: Option<u64>) -> (r: Result<(), String>)
    ensures
        r is Err <==> sync_every_minutes == Some(0u64),
        r matches Err(m) ==> m@ == sync_interval_message(),
{
    match sync_every_minutes {
        Some(0) => Err("sync_every_minutes must at least be 1".to_owned()),
        _ => Ok(()),
    }
}

} // verus!
