use browser_panel::panel::{
    BrowserView, BrowserViewAction, FramePlan, WebCommand, DEFAULT_URL,
};

#[test]
fn new_panel_is_hidden_without_web_view() {
    let view = BrowserView::new();
    assert_eq!(view.current_url(), DEFAULT_URL);
    assert_eq!(view.current_url(), "https://www.warp.dev");
    assert!(!view.web_view_exists());
    assert!(!view.panel_visible());
    assert!(view.needs_web_view());
}

#[test]
fn blank_navigation_is_ignored() {
    let mut view = BrowserView::new();
    assert_eq!(view.navigate("   \t"), None);
    assert_eq!(view.current_url(), DEFAULT_URL);
    let out = view.handle_action(BrowserViewAction::Navigate, "");
    assert_eq!(out.navigate_to, None);
    assert!(out.commands.is_empty());
    assert!(!out.notify);
}

#[test]
fn navigation_resolves_and_records_the_address() {
    let mut view = BrowserView::new();
    assert_eq!(view.navigate(" youtube.com "), Some("https://youtube.com".to_string()));
    assert_eq!(view.current_url(), "https://youtube.com");
    let out = view.handle_action(BrowserViewAction::Navigate, "rust async runtime");
    assert_eq!(
        out.navigate_to.as_deref(),
        Some("https://www.google.com/search?q=rust%20async%20runtime")
    );
    assert!(out.notify);
    assert_eq!(view.current_url(), "https://www.google.com/search?q=rust%20async%20runtime");
}

#[test]
fn loading_waits_for_a_web_view() {
    let mut view = BrowserView::new();
    let url = view.navigate("example.com").unwrap();
    assert!(view.load_commands(&url).is_empty());
    let first = view.web_view_created();
    assert_eq!(
        first,
        vec![WebCommand::SetHidden(true), WebCommand::LoadUrl("https://example.com".to_string())]
    );
    assert!(view.web_view_exists());
    assert!(!view.needs_web_view());
    assert_eq!(
        view.load_commands(&url),
        vec![WebCommand::LoadUrl("https://example.com".to_string())]
    );
}

#[test]
fn hiding_the_panel_hides_the_web_view() {
    let mut view = BrowserView::new();
    assert!(view.set_panel_visible(false).is_empty());
    assert!(view.set_panel_visible(true).is_empty());
    assert!(view.panel_visible());
    view.web_view_created();
    assert!(view.set_panel_visible(true).is_empty());
    assert_eq!(view.set_panel_visible(false), vec![WebCommand::SetHidden(true)]);
    assert!(!view.panel_visible());
}

#[test]
fn frame_plans_follow_visibility_and_layout() {
    let mut view = BrowserView::new();
    assert_eq!(view.frame_plan(true, true), FramePlan::Hide);
    view.set_panel_visible(true);
    assert_eq!(view.frame_plan(false, true), FramePlan::Skip);
    assert_eq!(view.frame_plan(true, false), FramePlan::EnsureHidden);
    assert_eq!(view.frame_plan(true, true), FramePlan::EnsureShown);
    assert!(view.frame_commands(FramePlan::EnsureShown).is_empty());
    view.web_view_created();
    assert_eq!(
        view.frame_commands(FramePlan::EnsureShown),
        vec![WebCommand::ApplyFrame, WebCommand::SetHidden(false)]
    );
    assert_eq!(view.frame_commands(FramePlan::EnsureHidden), vec![WebCommand::SetHidden(true)]);
    assert_eq!(view.frame_commands(FramePlan::Hide), vec![WebCommand::SetHidden(true)]);
    assert!(view.frame_commands(FramePlan::Skip).is_empty());
}

#[test]
fn history_buttons_need_a_web_view() {
    let mut view = BrowserView::new();
    assert!(!view.can_go_back(true));
    assert!(!view.can_go_forward(true));
    view.web_view_created();
    assert!(view.can_go_back(true));
    assert!(!view.can_go_back(false));
    assert!(view.can_go_forward(true));
    assert!(!view.can_go_forward(false));
}

#[test]
fn history_actions_go_to_the_web_view() {
    let mut view = BrowserView::new();
    for action in [BrowserViewAction::Back, BrowserViewAction::Forward, BrowserViewAction::Reload] {
        let out = view.handle_action(action, "ignored.com");
        assert!(out.commands.is_empty());
        assert!(out.notify);
        assert_eq!(out.navigate_to, None);
    }
    view.web_view_created();
    let expected = [WebCommand::GoBack, WebCommand::GoForward, WebCommand::Reload];
    for (action, cmd) in [BrowserViewAction::Back, BrowserViewAction::Forward, BrowserViewAction::Reload]
        .into_iter()
        .zip(expected)
    {
        let out = view.handle_action(action, "ignored.com");
        assert_eq!(out.commands, vec![cmd]);
        assert!(out.notify);
    }
    assert_eq!(view.current_url(), DEFAULT_URL);
}

#[test]
fn default_page_is_kept_by_the_omnibox() {
    assert_eq!(browser_panel::omnibox::resolve_omnibox_input(DEFAULT_URL), DEFAULT_URL);
}
