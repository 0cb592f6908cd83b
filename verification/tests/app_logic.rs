use eilmeldung::app_logic::{
    app_step, synced_tooltip, AppAction, AppInput, AppModel, ConnectionLostReason, Failure,
    StartingOperation, TooltipFlavor,
};
use eilmeldung::mouse::{AppState, Panel};
use eilmeldung::utils::ShellEnv;

fn no_env() -> ShellEnv {
    ShellEnv { vars: Vec::new(), home: None }
}

use eilmeldung::notify::{notify_plan, replace_str, split_once_newline, NotifyPlan};

fn model() -> AppModel {
    AppModel {
        state: AppState::FeedSelection,
        is_running: true,
        is_offline: false,
        auto_reload_config: false,
        notify_after_sync: true,
    }
}

fn tooltip(actions: &[AppAction]) -> Option<(String, TooltipFlavor)> {
    actions.iter().find_map(|a| match a {
        AppAction::Tooltip(m, f) => Some((m.clone(), *f)),
        _ => None,
    })
}

fn ends_with_redraw(actions: &[AppAction]) -> bool {
    matches!(actions.last(), Some(AppAction::SendRedraw))
}

#[test]
fn logging_out_needs_the_confirmation() {
    let (_, actions) = app_step(model(), AppInput::Logout("now".to_owned()));
    assert_eq!(
        Some(("not logging out, expected parameter `NOW` for confirmation".to_owned(), TooltipFlavor::Warning)),
        tooltip(&actions)
    );
    let (_, actions) = app_step(model(), AppInput::Logout("NOW".to_owned()));
    assert!(matches!(actions[0], AppAction::Logout));
    assert!(ends_with_redraw(&actions));
}

#[test]
fn quitting_stops_the_application() {
    let (m, _) = app_step(model(), AppInput::Quit);
    assert!(!m.is_running);
    let (m, _) = app_step(m, AppInput::Resized);
    assert!(!m.is_running);
}

#[test]
fn distraction_free_mode_toggles() {
    let (m, actions) = app_step(model(), AppInput::ToggleDistractionFree);
    assert_eq!(AppState::ArticleContentDistractionFree, m.state);
    assert!(matches!(actions[0], AppAction::AnnounceState(AppState::ArticleContentDistractionFree)));
    let (m, _) = app_step(m, AppInput::ToggleDistractionFree);
    assert_eq!(AppState::ArticleContent, m.state);
}

#[test]
fn an_idle_tick_does_not_redraw() {
    let (_, actions) = app_step(model(), AppInput::Tick { async_running: false });
    assert!(actions.is_empty());
    let (_, actions) = app_step(model(), AppInput::Tick { async_running: true });
    assert!(matches!(actions[0], AppAction::AdvanceThrobber));
    assert!(ends_with_redraw(&actions));
}

#[test]
fn an_expired_session_logs_in_again_and_retries() {
    let (_, actions) = app_step(model(), AppInput::OperationFailed(Failure::AuthExpired(StartingOperation::Sync)));
    assert!(matches!(actions[0], AppAction::AbortBatch));
    assert!(matches!(actions[1], AppAction::Relogin));
    assert_eq!(2, actions.len());
    let (_, actions) = app_step(model(), AppInput::ReloginFinished { succeeded: true, starting: StartingOperation::Sync });
    assert!(matches!(actions[0], AppAction::Retry(StartingOperation::Sync)));
    assert_eq!(
        Some(("Session expired, re-logged in and retrying...".to_owned(), TooltipFlavor::Info)),
        tooltip(&actions)
    );
    let (_, actions) = app_step(model(), AppInput::ReloginFinished { succeeded: true, starting: StartingOperation::Other });
    assert_eq!(TooltipFlavor::Warning, tooltip(&actions).unwrap().1);
    let (_, actions) = app_step(model(), AppInput::ReloginFinished { succeeded: false, starting: StartingOperation::Sync });
    assert_eq!(
        Some(("Session expired and re-login failed. Please restart the app.".to_owned(), TooltipFlavor::Error)),
        tooltip(&actions)
    );
}

#[test]
fn thumbnail_failures_are_silent() {
    let (_, actions) = app_step(model(), AppInput::OperationFailed(Failure::Thumbnail));
    assert_eq!(None, tooltip(&actions));
    let (_, actions) = app_step(model(), AppInput::OperationFailed(Failure::Other("boom".to_owned())));
    assert_eq!(Some(("boom".to_owned(), TooltipFlavor::Error)), tooltip(&actions));
}

#[test]
fn losing_the_connection_goes_offline_once() {
    let (_, actions) = app_step(model(), AppInput::ConnectionLost(ConnectionLostReason::NotReachable));
    assert_eq!(
        Some(("Service is not reachable anymore, going offline".to_owned(), TooltipFlavor::Warning)),
        tooltip(&actions)
    );
    assert!(matches!(actions[1], AppAction::SetOffline(true)));
    let (m, _) = app_step(model(), AppInput::OfflineSet(true));
    assert!(m.is_offline);
    let (_, actions) = app_step(m, AppInput::ConnectionLost(ConnectionLostReason::NoInternet));
    assert_eq!(None, tooltip(&actions));
    let (_, actions) = app_step(m, AppInput::ConnectionAvailable { offline: true });
    assert_eq!(Some(("Trying to get online...".to_owned(), TooltipFlavor::Info)), tooltip(&actions));
}

#[test]
fn a_config_change_reloads_only_when_wanted() {
    let (_, actions) = app_step(model(), AppInput::ConfigFileChanged);
    assert!(actions.is_empty());
    let mut m = model();
    m.auto_reload_config = true;
    let (_, actions) = app_step(m, AppInput::ConfigFileChanged);
    assert!(matches!(actions[0], AppAction::ReloadConfig));
}

#[test]
fn focusing_a_panel_announces_the_state() {
    let (m, actions) = app_step(model(), AppInput::PanelFocus(Panel::ArticleList));
    assert_eq!(AppState::ArticleSelection, m.state);
    assert!(matches!(actions[0], AppAction::AnnounceState(AppState::ArticleSelection)));
}

#[test]
fn undo_reports_what_was_undone() {
    let (_, actions) = app_step(model(), AppInput::Undo);
    assert_eq!(1, actions.len());
    let (_, actions) = app_step(model(), AppInput::UndoFinished { undone: None, async_running: true });
    assert_eq!(
        Some(("nothing to undo yet (wait for async operation to finish)".to_owned(), TooltipFlavor::Warning)),
        tooltip(&actions)
    );
}

#[test]
fn a_sync_announces_its_articles_and_notifies() {
    let (_, actions) = app_step(model(), AppInput::SyncFinished { new_counts: vec![2, 3] });
    assert!(matches!(actions[0], AppAction::RunAfterSyncCommands));
    assert_eq!(Some(("5 new articles synced".to_owned(), TooltipFlavor::Info)), tooltip(&actions));
    assert!(matches!(actions[2], AppAction::GenerateSyncStats));
    let (_, actions) = app_step(model(), AppInput::SyncFinished { new_counts: vec![] });
    assert!(!actions.iter().any(|a| matches!(a, AppAction::GenerateSyncStats)));
    assert_eq!(("-4 new articles synced".to_owned(), -4), synced_tooltip(&[1, -5]));
}

#[test]
fn strings_are_replaced_from_the_left() {
    assert_eq!("x-y-", replace_str("a-b-", "a", "x").replace("b", "y"));
    assert_eq!("bbb", replace_str("aaa", "a", "b"));
    assert_eq!("b", replace_str("aa", "aa", "b"));
    assert_eq!("ba", replace_str("aaa", "aa", "b"));
    assert_eq!(
        Some(("head".to_owned(), "rest\nmore".to_owned())),
        split_once_newline("head\nrest\nmore")
    );
    assert_eq!(None, split_once_newline("no break"));
}

#[test]
fn the_sync_notification() {
    match notify_plan("3 new\nin 2 feeds", None, &no_env()) {
        NotifyPlan::Desktop { summary, body } => {
            assert_eq!("3 new", summary);
            assert_eq!("in 2 feeds", body);
        }
        _ => panic!("expected a desktop notification"),
    }
    match notify_plan("3 new\nmore", Some("notify-send {summary} {body}"), &no_env()) {
        NotifyPlan::Command { program, args } => {
            assert_eq!("notify-send", program);
            assert_eq!(vec!["3", "new", "more"], args);
        }
        _ => panic!("expected a command"),
    }
    match notify_plan("no line break", None, &no_env()) {
        NotifyPlan::ErrorTooltip(m) => assert_eq!("invalid format of sync stats", m),
        _ => panic!("expected an error"),
    }
    match notify_plan("a\nb", Some("say \"{summary}"), &no_env()) {
        NotifyPlan::ErrorTooltip(m) => assert_eq!("invalid notify after sync cmd: say \"a", m),
        _ => panic!("expected an error"),
    }
}
