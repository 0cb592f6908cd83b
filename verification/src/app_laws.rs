//! What the decisions of the application promise across messages and frames.

use vstd::prelude::*;

use crate::app_logic::{spec_app_step, AppInput, AppModel, ActionView};
use crate::mouse::{spec_mouse_outcome, AppState, MouseContext, MouseKind};
use crate::ui_logic::{spec_loop_step, LoopAction, LoopEvent, LoopState};

verus! {

/// Once the application stops running, no message starts it again.
pub proof fn law_stopped_application_stays_stopped(m: AppModel, input: AppInput)
    requires
        !m.is_running,
    ensures
        !spec_app_step(m, input).0.is_running,
{
}

/// Quitting stops the application.
pub proof fn law_quit_stops(m: AppModel)
    ensures
        !spec_app_step(m, AppInput::Quit).0.is_running,
{
}

/// Whether the application is offline changes only when the service reports it.
pub proof fn law_offline_changes_only_when_reported(m: AppModel, input: AppInput)
    requires
        !(input is OfflineSet),
    ensures
        spec_app_step(m, input).0.is_offline == m.is_offline,
{
}

/// Toggling the distraction-free view twice from the article content, or from the view itself,
/// comes back to where it started.
pub proof fn law_distraction_free_toggle_twice(m: AppModel)
    requires
        m.state == AppState::ArticleContent || m.state == AppState::ArticleContentDistractionFree,
    ensures
        spec_app_step(spec_app_step(m, AppInput::ToggleDistractionFree).0, AppInput::ToggleDistractionFree).0.state == m.state,
{
}

/// Every focus change is announced, and the announced state is the state the application is
/// in afterwards.
pub proof fn law_focus_changes_are_announced(m: AppModel, input: AppInput)
    requires
        spec_app_step(m, input).0.state != m.state,
    ensures
        spec_app_step(m, input).1.len() > 0,
        spec_app_step(m, input).1[0] == ActionView::AnnounceState(spec_app_step(m, input).0.state),
{
}

/// In the distraction-free view, no mouse event moves the focus.
pub proof fn law_distraction_free_mouse_keeps_focus(ctx: MouseContext, kind: MouseKind, col: u16, row: u16)
    requires
        ctx.state == AppState::ArticleContentDistractionFree,
    ensures
        spec_mouse_outcome(ctx, kind, col, row).0 == AppState::ArticleContentDistractionFree,
{
}

/// A redraw asked for by a message is drawn at the next frame, and only once.
pub proof fn law_requested_redraw_is_drawn(s: LoopState, is_clear: bool)
    ensures
        ({
            let after_message = spec_loop_step(s, LoopEvent::Message { is_redraw: true, is_clear }).0;
            let frame = spec_loop_step(after_message, LoopEvent::RenderTick);
            &&& frame.1 == seq![LoopAction::SendTick, LoopAction::Draw]
            &&& !frame.0.redraw
            &&& spec_loop_step(frame.0, LoopEvent::RenderTick).1 == seq![LoopAction::SendTick]
        }),
{
    let after_message = spec_loop_step(s, LoopEvent::Message { is_redraw: true, is_clear }).0;
    let frame = spec_loop_step(after_message, LoopEvent::RenderTick);
    assert(frame.1 =~= seq![LoopAction::SendTick, LoopAction::Draw]);
}

/// A clear asked for by a message happens at the next clear tick and is followed by a redraw.
pub proof fn law_requested_clear_is_done_and_redrawn(s: LoopState, is_redraw: bool)
    ensures
        ({
            let after_message = spec_loop_step(s, LoopEvent::Message { is_redraw, is_clear: true }).0;
            let tick = spec_loop_step(after_message, LoopEvent::ClearTick);
            &&& tick.1 == seq![LoopAction::ClearTerminal]
            &&& !tick.0.clear
            &&& tick.0.redraw
        }),
{
}

} // verus!
