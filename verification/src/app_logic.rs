//! The decisions of the application on each message: what the state becomes and what is to be
//! done. The caller performs the actions and reports back what came of them.

use vstd::prelude::*;

use crate::mouse::{spec_state_for_panel, state_for_panel, AppState, Panel};
use crate::unicode::{push_char, push_str};
use crate::article_cells::{decimal, push_decimal};

verus! {

/// How a tooltip is shown.
#[derive(Debug, Clone, Copy, PartialEq, Eq, Structural)]
pub enum TooltipFlavor {
    Info,
    Warning,
    Error,
}

/// The operation whose failure started a recovery.
#[derive(Debug, Clone, Copy, PartialEq, Eq, Structural)]
pub enum StartingOperation {
    Sync,
    SetAllRead,
    Logout,
    /// An operation that takes parameters, which cannot be repeated on its own.
    Other,
}

/// How an asynchronous operation failed.
pub enum Failure {
    /// The service rejected the credentials, or the session is no longer logged in.
    AuthExpired(StartingOperation),
    /// A thumbnail could not be fetched.
    Thumbnail,
    /// Any other failure, with its message.
    Other(String),
}

/// Why the connection was lost.
#[derive(Debug, Clone, Copy, PartialEq, Eq, Structural)]
pub enum ConnectionLostReason {
    NoInternet,
    NotReachable,
}

/// A message as the application itself reads it, with the results of the work it asked for.
pub enum AppInput {
    /// Logging out was asked for, with this confirmation.
    Logout(String),
    Quit,
    ImportOpml(String),
    ExportOpml(String),
    Undo,
    /// The undo asked for was done: what was undone, if anything, and whether an asynchronous
    /// operation was still running.
    UndoFinished { undone: Option<String>, async_running: bool },
    ChangeTheme(Option<String>),
    LogoutFinished,
    /// A new tooltip was published.
    TooltipChanged,
    Resized,
    /// A tick of the render clock, and whether an asynchronous operation is running.
    Tick { async_running: bool },
    ImportOpmlFinished,
    OperationFailed(Failure),
    /// The login that followed an expired session succeeded or not.
    ReloginFinished { succeeded: bool, starting: StartingOperation },
    PanelFocus(Panel),
    /// Focus moves to this state (the next or previous panel).
    FocusState(AppState),
    ReloadConfig,
    ConfigFileChanged,
    /// A new configuration is in effect, with these settings.
    ConfigReloaded { auto_reload_config: bool, notify_after_sync: bool },
    /// The connection came back; whether the service is still offline.
    ConnectionAvailable { offline: bool },
    ConnectionLost(ConnectionLostReason),
    OfflineSet(bool),
    ToggleDistractionFree,
    /// A sync finished, with the number of new articles of each feed.
    SyncFinished { new_counts: Vec<i64> },
    /// Any message the application itself does not handle.
    Unhandled,
}

/// Something the application asks to be done.
pub enum AppAction {
    Tooltip(String, TooltipFlavor),
    Logout,
    ImportOpml(String),
    ExportOpml(String),
    PerformUndo,
    ChangeTheme(Option<String>),
    /// Send the command to quit.
    SendQuit,
    /// Send the command to redraw.
    SendRedraw,
    /// Keep the tooltip that was published.
    StoreTooltip,
    AdvanceThrobber,
    AbortBatch,
    Relogin,
    Retry(StartingOperation),
    /// Announce that the state changed to this one.
    AnnounceState(AppState),
    ReloadConfig,
    /// Keep the configuration that was reloaded.
    StoreConfig,
    RebuildClient,
    SetOffline(bool),
    /// Show the batch popup and run the commands configured for after a sync.
    RunAfterSyncCommands,
    /// Produce the statistics of the sync for a notification.
    GenerateSyncStats,
}

/// The abstract value of an action.
pub enum ActionView {
    Tooltip(Seq<char>, TooltipFlavor),
    Logout,
    ImportOpml(Seq<char>),
    ExportOpml(Seq<char>),
    PerformUndo,
    ChangeTheme(Option<Seq<char>>),
    SendQuit,
    SendRedraw,
    StoreTooltip,
    AdvanceThrobber,
    AbortBatch,
    Relogin,
    Retry(StartingOperation),
    AnnounceState(AppState),
    ReloadConfig,
    StoreConfig,
    RebuildClient,
    SetOffline(bool),
    RunAfterSyncCommands,
    GenerateSyncStats,
}

impl AppAction {
    /// The abstract value of this action.
    pub open spec fn view(&self) -> ActionView {
        match self {
            AppAction::Tooltip(s, f) => ActionView::Tooltip(s@, *f),
            AppAction::Logout => ActionView::Logout,
            AppAction::ImportOpml(p) => ActionView::ImportOpml(p@),
            AppAction::ExportOpml(p) => ActionView::ExportOpml(p@),
            AppAction::PerformUndo => ActionView::PerformUndo,
            AppAction::ChangeTheme(t) => ActionView::ChangeTheme(
                match t {
                    Some(n) => Some(n@),
                    None => None,
                },
            ),
            AppAction::SendQuit => ActionView::SendQuit,
            AppAction::SendRedraw => ActionView::SendRedraw,
            AppAction::StoreTooltip => ActionView::StoreTooltip,
            AppAction::AdvanceThrobber => ActionView::AdvanceThrobber,
            AppAction::AbortBatch => ActionView::AbortBatch,
            AppAction::Relogin => ActionView::Relogin,
            AppAction::Retry(o) => ActionView::Retry(*o),
            AppAction::AnnounceState(s) => ActionView::AnnounceState(*s),
            AppAction::ReloadConfig => ActionView::ReloadConfig,
            AppAction::StoreConfig => ActionView::StoreConfig,
            AppAction::RebuildClient => ActionView::RebuildClient,
            AppAction::SetOffline(b) => ActionView::SetOffline(*b),
            AppAction::RunAfterSyncCommands => ActionView::RunAfterSyncCommands,
            AppAction::GenerateSyncStats => ActionView::GenerateSyncStats,
        }
    }
}

/// The abstract values of a list of actions.
pub open spec fn actions_view(actions: Seq<AppAction>) -> Seq<ActionView> {
    actions.map_values(|a: AppAction| a.view())
}

/// What the application itself keeps between messages.
#[derive(Debug, Clone, Copy, PartialEq, Eq, Structural)]
pub struct AppModel {
    pub state: AppState,
    pub is_running: bool,
    pub is_offline: bool,
    pub auto_reload_config: bool,
    pub notify_after_sync: bool,
}

/// The sum of the first `n` of `counts`, added up from the left.
pub open spec fn prefix_sum(counts: Seq<i64>, n: nat) -> int
    decreases n,
{
    if n == 0 || n > counts.len() {
        0
    } else {
        prefix_sum(counts, (n - 1) as nat) + counts[n - 1]
    }
}

/// Whether adding up `counts` from the left stays within `i64`.
pub open spec fn sum_fits(counts: Seq<i64>) -> bool {
    forall|n: nat| n <= counts.len() ==> i64::MIN <= #[trigger] prefix_sum(counts, n) <= i64::MAX
}

/// The decimal form of `n`, with a minus sign when it is negative.
pub open spec fn int_text(n: int) -> Seq<char> {
    if n < 0 { seq!['-'] + decimal((-n) as nat) } else { decimal(n as nat) }
}

/// The text of the tooltip that announces how many articles a sync brought.
pub open spec fn synced_text(n: int) -> Seq<char> {
    int_text(n) + " new articles synced"@
}

/// The state after toggling the distraction-free view.
pub open spec fn toggled_distraction_free(s: AppState) -> AppState {
    if s == AppState::ArticleContentDistractionFree {
        AppState::ArticleContent
    } else {
        AppState::ArticleContentDistractionFree
    }
}

/// What is done when the session expired and the login that followed ended.
pub open spec fn relogin_outcome(succeeded: bool, starting: StartingOperation) -> Seq<ActionView> {
    if succeeded {
        if starting != StartingOperation::Other {
            seq![
                ActionView::Retry(starting),
                ActionView::Tooltip("Session expired, re-logged in and retrying..."@, TooltipFlavor::Info),
            ]
        } else {
            seq![ActionView::Tooltip("Session expired and refreshed. Please try again."@, TooltipFlavor::Warning)]
        }
    } else {
        seq![ActionView::Tooltip("Session expired and re-login failed. Please restart the app."@, TooltipFlavor::Error)]
    }
}

/// The model and the actions that follow the input `input` in the model `m`, before the
/// closing redraw.
pub open spec fn spec_step_core(m: AppModel, input: AppInput) -> (AppModel, Seq<ActionView>) {
    match input {
        AppInput::Logout(c) => (m, if c@ != "NOW"@ {
            seq![ActionView::Tooltip("not logging out, expected parameter `NOW` for confirmation"@, TooltipFlavor::Warning)]
        } else {
            seq![ActionView::Logout]
        }),
        AppInput::Quit => (AppModel { is_running: false, ..m }, Seq::empty()),
        AppInput::ImportOpml(p) => (m, seq![ActionView::ImportOpml(p@)]),
        AppInput::ExportOpml(p) => (m, seq![ActionView::ExportOpml(p@)]),
        AppInput::Undo => (m, seq![ActionView::PerformUndo]),
        AppInput::UndoFinished { undone, async_running } => (m, match undone {
            Some(d) => seq![ActionView::Tooltip(d@, TooltipFlavor::Info)],
            None => seq![ActionView::Tooltip(
                if async_running { "nothing to undo yet (wait for async operation to finish)"@ } else { "nothing to undo"@ },
                TooltipFlavor::Warning,
            )],
        }),
        AppInput::ChangeTheme(t) => (m, seq![ActionView::ChangeTheme(match t { Some(n) => Some(n@), None => None })]),
        AppInput::LogoutFinished => (m, seq![ActionView::SendQuit]),
        AppInput::TooltipChanged => (m, seq![ActionView::StoreTooltip]),
        AppInput::Resized => (m, seq![ActionView::SendRedraw]),
        AppInput::Tick { async_running } => (m, if async_running { seq![ActionView::AdvanceThrobber] } else { Seq::empty() }),
        AppInput::ImportOpmlFinished => (m, seq![ActionView::Tooltip("OPML imported --- you should sync now"@, TooltipFlavor::Info)]),
        AppInput::OperationFailed(f) => (m, match f {
            Failure::AuthExpired(_) => seq![ActionView::AbortBatch, ActionView::Relogin],
            Failure::Thumbnail => seq![ActionView::AbortBatch],
            Failure::Other(msg) => seq![ActionView::AbortBatch, ActionView::Tooltip(msg@, TooltipFlavor::Error)],
        }),
        AppInput::ReloginFinished { succeeded, starting } => (m, relogin_outcome(succeeded, starting)),
        AppInput::PanelFocus(p) => (AppModel { state: spec_state_for_panel(p), ..m }, seq![ActionView::AnnounceState(spec_state_for_panel(p))]),
        AppInput::FocusState(s) => (AppModel { state: s, ..m }, seq![ActionView::AnnounceState(s)]),
        AppInput::ReloadConfig => (m, seq![ActionView::ReloadConfig]),
        AppInput::ConfigFileChanged => (m, if m.auto_reload_config { seq![ActionView::ReloadConfig] } else { Seq::empty() }),
        AppInput::ConfigReloaded { auto_reload_config, notify_after_sync } => (
            AppModel { auto_reload_config, notify_after_sync, ..m },
            seq![ActionView::StoreConfig],
        ),
        AppInput::ConnectionAvailable { offline } => (m, if offline {
            seq![
                ActionView::Tooltip("Trying to get online..."@, TooltipFlavor::Info),
                ActionView::RebuildClient,
                ActionView::SetOffline(false),
            ]
        } else {
            Seq::empty()
        }),
        AppInput::ConnectionLost(reason) => (m, if m.is_offline {
            Seq::empty()
        } else {
            seq![
                ActionView::Tooltip(
                    match reason {
                        ConnectionLostReason::NoInternet => "Connection to internet lost, going offline"@,
                        ConnectionLostReason::NotReachable => "Service is not reachable anymore, going offline"@,
                    },
                    TooltipFlavor::Warning,
                ),
                ActionView::SetOffline(true),
            ]
        }),
        AppInput::OfflineSet(offline) => (AppModel { is_offline: offline, ..m }, if offline {
            Seq::empty()
        } else {
            seq![ActionView::Tooltip("Online again"@, TooltipFlavor::Info)]
        }),
        AppInput::ToggleDistractionFree => (
            AppModel { state: toggled_distraction_free(m.state), ..m },
            seq![ActionView::AnnounceState(toggled_distraction_free(m.state))],
        ),
        AppInput::SyncFinished { new_counts } => {
            let n = prefix_sum(new_counts@, new_counts@.len());
            (m, seq![ActionView::RunAfterSyncCommands, ActionView::Tooltip(synced_text(n), TooltipFlavor::Info)]
                + if m.notify_after_sync && n != 0 { seq![ActionView::GenerateSyncStats] } else { Seq::empty() })
        },
        AppInput::Unhandled => (m, Seq::empty()),
    }
}

/// Whether the input leads to a redraw once it is handled: every input the application handles
/// does, except a tick while nothing runs, and a change of the configuration file that is not
/// to be reloaded; the first halves of the two-step inputs (undo, an expired session) wait for
/// the second.
pub open spec fn spec_redraws(m: AppModel, input: AppInput) -> bool {
    match input {
        AppInput::Tick { async_running } => async_running,
        AppInput::ConfigFileChanged => m.auto_reload_config,
        AppInput::Undo => false,
        AppInput::OperationFailed(Failure::AuthExpired(_)) => false,
        AppInput::Unhandled => false,
        _ => true,
    }
}

/// The model and the actions that follow the input `input` in the model `m`.
pub open spec fn spec_app_step(m: AppModel, input: AppInput) -> (AppModel, Seq<ActionView>) {
    let (next, actions) = spec_step_core(m, input);
    (next, if spec_redraws(m, input) { actions.push(ActionView::SendRedraw) } else { actions })
}

/// A string of the characters of the literal `s`.
fn text(s: &str) -> (r: String)
    ensures
        r@ == s@,
{
    s.to_owned()
}

/// Whether `s` is the confirmation `NOW`.
fn is_now(s: &str) -> (b: bool)
    ensures
        b == (s@ == "NOW"@),
{
    proof {
        reveal_strlit("NOW");
    }
    let mut it = s.chars();
    let a = it.next();
    let b = it.next();
    let c = it.next();
    let d = it.next();
    let r = a == Some('N') && b == Some('O') && c == Some('W') && d.is_none();
    proof {
        if r {
            assert(s@ =~= "NOW"@);
        }
    }
    r
}

/// The tooltip that announces how many articles a sync brought: the counts of new articles are
/// added up from the left.
pub fn synced_tooltip(new_counts: &[i64]) -> (r: (String, i64))
    requires
        sum_fits(new_counts@),
    ensures
        r.1 == prefix_sum(new_counts@, new_counts@.len()),
        r.0@ == synced_text(r.1 as int),
{
    let mut total: i64 = 0;
    let mut i: usize = 0;
    while i < new_counts.len()
        invariant
            i <= new_counts.len(),
            sum_fits(new_counts@),
            total == prefix_sum(new_counts@, i as nat),
        decreases new_counts.len() - i,
    {
        assert(i64::MIN <= prefix_sum(new_counts@, (i + 1) as nat) <= i64::MAX);
        total = total + new_counts[i];
        i = i + 1;
    }
    let mut s = String::new();
    if total < 0 {
        push_char(&mut s, '-');
        let magnitude: u64 = (0i128 - total as i128) as u64;
        push_decimal(&mut s, magnitude);
    } else {
        push_decimal(&mut s, total as u64);
    }
    assert(s@ == int_text(total as int));
    push_str(&mut s, " new articles synced");
    (s, total)
}

/// Decides what follows the input `input` in the model `m`: the next model, and the actions to
/// perform in order, ending with a redraw where one is due.
pub fn app_step(m: AppModel, input: AppInput) -> (r: (AppModel, Vec<AppAction>))
    requires
        input matches AppInput::SyncFinished { new_counts } ==> sum_fits(new_counts@),
    ensures
        r.0 == spec_app_step(m, input).0,
        actions_view(r.1@) == spec_app_step(m, input).1,
{
    proof {
        reveal_strlit("not logging out, expected parameter `NOW` for confirmation");
        reveal_strlit("nothing to undo yet (wait for async operation to finish)");
        reveal_strlit("nothing to undo");
        reveal_strlit("OPML imported --- you should sync now");
        reveal_strlit("Session expired, re-logged in and retrying...");
        reveal_strlit("Session expired and refreshed. Please try again.");
        reveal_strlit("Session expired and re-login failed. Please restart the app.");
        reveal_strlit("Trying to get online...");
        reveal_strlit("Connection to internet lost, going offline");
        reveal_strlit("Service is not reachable anymore, going offline");
        reveal_strlit("Online again");
    }
    let ghost input_copy = input;
    let redraws = match &input {
        AppInput::Tick { async_running } => *async_running,
        AppInput::ConfigFileChanged => m.auto_reload_config,
        AppInput::Undo => false,
        AppInput::OperationFailed(Failure::AuthExpired(_)) => false,
        AppInput::Unhandled => false,
        _ => true,
    };
    assert(redraws == spec_redraws(m, input_copy));
    let mut next = m;
    let mut actions: Vec<AppAction> = Vec::new();
    match input {
        AppInput::Logout(c) => {
            if !is_now(c.as_str()) {
                actions.push(AppAction::Tooltip(
                    text("not logging out, expected parameter `NOW` for confirmation"),
                    TooltipFlavor::Warning,
                ));
            } else {
                actions.push(AppAction::Logout);
            }
        },
        AppInput::Quit => {
            next.is_running = false;
        },
        AppInput::ImportOpml(p) => {
            actions.push(AppAction::ImportOpml(p));
        },
        AppInput::ExportOpml(p) => {
            actions.push(AppAction::ExportOpml(p));
        },
        AppInput::Undo => {
            actions.push(AppAction::PerformUndo);
        },
        AppInput::UndoFinished { undone, async_running } => {
            match undone {
                Some(d) => {
                    actions.push(AppAction::Tooltip(d, TooltipFlavor::Info));
                },
                None => {
                    let msg = if async_running {
                        text("nothing to undo yet (wait for async operation to finish)")
                    } else {
                        text("nothing to undo")
                    };
                    actions.push(AppAction::Tooltip(msg, TooltipFlavor::Warning));
                },
            }
        },
        AppInput::ChangeTheme(t) => {
            actions.push(AppAction::ChangeTheme(t));
        },
        AppInput::LogoutFinished => {
            actions.push(AppAction::SendQuit);
        },
        AppInput::TooltipChanged => {
            actions.push(AppAction::StoreTooltip);
        },
        AppInput::Resized => {
            actions.push(AppAction::SendRedraw);
        },
        AppInput::Tick { async_running } => {
            if async_running {
                actions.push(AppAction::AdvanceThrobber);
            }
        },
        AppInput::ImportOpmlFinished => {
            actions.push(AppAction::Tooltip(text("OPML imported --- you should sync now"), TooltipFlavor::Info));
        },
        AppInput::OperationFailed(f) => {
            actions.push(AppAction::AbortBatch);
            match f {
                Failure::AuthExpired(_) => {
                    actions.push(AppAction::Relogin);
                },
                Failure::Thumbnail => {},
                Failure::Other(msg) => {
                    actions.push(AppAction::Tooltip(msg, TooltipFlavor::Error));
                },
            }
        },
        AppInput::ReloginFinished { succeeded, starting } => {
            if succeeded {
                if starting != StartingOperation::Other {
                    actions.push(AppAction::Retry(starting));
                    actions.push(AppAction::Tooltip(
                        text("Session expired, re-logged in and retrying..."),
                        TooltipFlavor::Info,
                    ));
                } else {
                    actions.push(AppAction::Tooltip(
                        text("Session expired and refreshed. Please try again."),
                        TooltipFlavor::Warning,
                    ));
                }
            } else {
                actions.push(AppAction::Tooltip(
                    text("Session expired and re-login failed. Please restart the app."),
                    TooltipFlavor::Error,
                ));
            }
        },
        AppInput::PanelFocus(p) => {
            let s = state_for_panel(p);
            next.state = s;
            actions.push(AppAction::AnnounceState(s));
        },
        AppInput::FocusState(s) => {
            next.state = s;
            actions.push(AppAction::AnnounceState(s));
        },
        AppInput::ReloadConfig => {
            actions.push(AppAction::ReloadConfig);
        },
        AppInput::ConfigFileChanged => {
            if m.auto_reload_config {
                actions.push(AppAction::ReloadConfig);
            }
        },
        AppInput::ConfigReloaded { auto_reload_config, notify_after_sync } => {
            next.auto_reload_config = auto_reload_config;
            next.notify_after_sync = notify_after_sync;
            actions.push(AppAction::StoreConfig);
        },
        AppInput::ConnectionAvailable { offline } => {
            if offline {
                actions.push(AppAction::Tooltip(text("Trying to get online..."), TooltipFlavor::Info));
                actions.push(AppAction::RebuildClient);
                actions.push(AppAction::SetOffline(false));
            }
        },
        AppInput::ConnectionLost(reason) => {
            if !m.is_offline {
                let msg = match reason {
                    ConnectionLostReason::NoInternet => text("Connection to internet lost, going offline"),
                    ConnectionLostReason::NotReachable => text("Service is not reachable anymore, going offline"),
                };
                actions.push(AppAction::Tooltip(msg, TooltipFlavor::Warning));
                actions.push(AppAction::SetOffline(true));
            }
        },
        AppInput::OfflineSet(offline) => {
            next.is_offline = offline;
            if !offline {
                actions.push(AppAction::Tooltip(text("Online again"), TooltipFlavor::Info));
            }
        },
        AppInput::ToggleDistractionFree => {
            let s = if m.state == AppState::ArticleContentDistractionFree {
                AppState::ArticleContent
            } else {
                AppState::ArticleContentDistractionFree
            };
            next.state = s;
            actions.push(AppAction::AnnounceState(s));
        },
        AppInput::SyncFinished { new_counts } => {
            actions.push(AppAction::RunAfterSyncCommands);
            let (msg, total) = synced_tooltip(new_counts.as_slice());
            actions.push(AppAction::Tooltip(msg, TooltipFlavor::Info));
            if m.notify_after_sync && total != 0 {
                actions.push(AppAction::GenerateSyncStats);
            }
        },
        AppInput::Unhandled => {},
    }
    let ghost core = actions_view(actions@);
    assert(core =~= spec_step_core(m, input_copy).1);
    if redraws {
        actions.push(AppAction::SendRedraw);
        assert(actions_view(actions@) =~= core.push(ActionView::SendRedraw));
    }
    (next, actions)
}

} // verus!
