//! The browser panel's decisions: which address it shows, when the native
//! web view is created, and what it is told to do. The native view and the
//! UI stay outside; they carry out the commands given here and report back.

use vstd::prelude::*;
use crate::omnibox::{resolve_omnibox_input, resolved};
use crate::text::{chars_of, trim_chars, trimmed};

verus! {

broadcast use vstd::string::group_string_axioms;

/// The page that a new panel opens on.
pub const DEFAULT_URL: &'static str = "https://www.warp.dev";

/// What the panel's buttons ask for.
#[derive(Clone, Copy, Debug, PartialEq, Eq, Structural)]
pub enum BrowserViewAction {
    Navigate,
    Back,
    Forward,
    Reload,
}

/// An instruction for the native web view.
#[derive(Clone, Debug, PartialEq, Eq)]
pub enum WebCommand {
    /// Load the given address.
    LoadUrl(String),
    /// Hide (`true`) or show (`false`) the web view.
    SetHidden(bool),
    /// Move the web view over the panel's content area.
    ApplyFrame,
    GoBack,
    GoForward,
    Reload,
}

/// What the panel does about its web view when it is laid out.
#[derive(Clone, Copy, Debug, PartialEq, Eq, Structural)]
pub enum FramePlan {
    /// The panel is not visible: hide the web view if there is one.
    Hide,
    /// No window to place the web view in: leave everything as it is.
    Skip,
    /// The content area has not been laid out yet: make sure a web view
    /// exists, and keep it hidden.
    EnsureHidden,
    /// Make sure a web view exists, move it over the content area and show it.
    EnsureShown,
}

/// What the panel does in answer to an action.
#[derive(Debug)]
pub struct ActionOutcome {
    /// An address to load, once a web view exists.
    pub navigate_to: Option<String>,
    /// Commands for the web view.
    pub commands: Vec<WebCommand>,
    /// Whether the panel must be drawn again.
    pub notify: bool,
}

/// The state of a browser panel: its current address, whether its native
/// web view has been created, and whether the panel is on screen.
pub struct BrowserView {
    current_url: String,
    web_view_exists: bool,
    panel_visible: bool,
}

/// The abstract state of a `BrowserView`.
pub struct BrowserModel {
    pub current_url: Seq<char>,
    pub web_view_exists: bool,
    pub panel_visible: bool,
}

impl View for BrowserView {
    type V = BrowserModel;

    closed spec fn view(&self) -> BrowserModel {
        BrowserModel {
            current_url: self.current_url@,
            web_view_exists: self.web_view_exists,
            panel_visible: self.panel_visible,
        }
    }
}

/// `cmd` tells the web view to load `url`.
pub open spec fn is_load_of(cmd: WebCommand, url: Seq<char>) -> bool {
    cmd matches WebCommand::LoadUrl(u) && u@ == url
}

/// `cmds` is the single command to load `url` if a web view exists, and
/// nothing otherwise.
pub open spec fn loads_if_present(cmds: Seq<WebCommand>, exists: bool, url: Seq<char>) -> bool {
    if exists {
        cmds.len() == 1 && is_load_of(cmds[0], url)
    } else {
        cmds.len() == 0
    }
}

/// The plan for laying out the web view.
pub open spec fn spec_frame_plan(panel_visible: bool, window_known: bool, panel_rect_known: bool) -> FramePlan {
    if !panel_visible {
        FramePlan::Hide
    } else if !window_known {
        FramePlan::Skip
    } else if !panel_rect_known {
        FramePlan::EnsureHidden
    } else {
        FramePlan::EnsureShown
    }
}

/// The commands that carry out `plan` once the web view has been made sure of.
pub open spec fn spec_frame_commands(plan: FramePlan, exists: bool) -> Seq<WebCommand> {
    if !exists {
        Seq::empty()
    } else {
        match plan {
            FramePlan::Hide => seq![WebCommand::SetHidden(true)],
            FramePlan::Skip => Seq::empty(),
            FramePlan::EnsureHidden => seq![WebCommand::SetHidden(true)],
            FramePlan::EnsureShown => seq![WebCommand::ApplyFrame, WebCommand::SetHidden(false)],
        }
    }
}

/// The command that carries out a history or reload action.
pub open spec fn history_command(action: BrowserViewAction) -> WebCommand {
    match action {
        BrowserViewAction::Back => WebCommand::GoBack,
        BrowserViewAction::Forward => WebCommand::GoForward,
        _ => WebCommand::Reload,
    }
}

/// The web view is shown on layout exactly when it exists, the panel is
/// on screen, and both the window and the panel's content area are known;
/// a panel off screen never shows it, and hides it if it exists.
pub proof fn lemma_shown_only_when_laid_out(
    panel_visible: bool,
    window_known: bool,
    panel_rect_known: bool,
    exists: bool,
)
    ensures
        spec_frame_commands(spec_frame_plan(panel_visible, window_known, panel_rect_known), exists).contains(
            WebCommand::SetHidden(false),
        ) <==> (panel_visible && window_known && panel_rect_known && exists),
        !panel_visible && exists ==> spec_frame_commands(
            spec_frame_plan(panel_visible, window_known, panel_rect_known),
            exists,
        ) == seq![WebCommand::SetHidden(true)],
{
    let cmds = spec_frame_commands(spec_frame_plan(panel_visible, window_known, panel_rect_known), exists);
    if panel_visible && window_known && panel_rect_known && exists {
        assert(cmds[1] == WebCommand::SetHidden(false));
    } else if cmds.len() > 0 {
        assert(!cmds.contains(WebCommand::SetHidden(false))) by {
            if cmds.len() == 1 {
                assert(cmds[0] == WebCommand::SetHidden(true));
            }
        }
    }
}

/// A panel that is not on screen only ever hides its web view: whatever
/// is known of the window and the content area, its plan is `Hide`, and a
/// plan that creates a web view is given only to a visible panel in a
/// known window.
pub proof fn lemma_hidden_panel_only_hides(panel_visible: bool, window_known: bool, panel_rect_known: bool)
    ensures
        !panel_visible ==> spec_frame_plan(panel_visible, window_known, panel_rect_known)
            == FramePlan::Hide,
        spec_frame_plan(panel_visible, window_known, panel_rect_known) == FramePlan::EnsureHidden
            || spec_frame_plan(panel_visible, window_known, panel_rect_known) == FramePlan::EnsureShown
            ==> panel_visible && window_known,
{
}

/// Laying out never shows the web view without placing it first, never
/// places it without showing it, and does nothing while the window of a
/// visible panel is unknown.
pub proof fn lemma_shown_after_placed(
    panel_visible: bool,
    window_known: bool,
    panel_rect_known: bool,
    exists: bool,
)
    ensures
        ({
            let cmds = spec_frame_commands(
                spec_frame_plan(panel_visible, window_known, panel_rect_known),
                exists,
            );
            &&& cmds.contains(WebCommand::SetHidden(false)) ==> cmds.len() == 2 && cmds[0]
                == WebCommand::ApplyFrame && cmds[1] == WebCommand::SetHidden(false)
            &&& cmds.contains(WebCommand::ApplyFrame) ==> cmds.contains(WebCommand::SetHidden(false))
            &&& panel_visible && !window_known ==> cmds.len() == 0
        }),
{
    let cmds = spec_frame_commands(spec_frame_plan(panel_visible, window_known, panel_rect_known), exists);
    lemma_shown_only_when_laid_out(panel_visible, window_known, panel_rect_known, exists);
    if panel_visible && window_known && panel_rect_known && exists {
        assert(cmds[1] == WebCommand::SetHidden(false));
    } else if cmds.len() > 0 {
        assert(cmds.len() == 1 && cmds[0] == WebCommand::SetHidden(true));
        assert(!cmds.contains(WebCommand::ApplyFrame)) by {
            if cmds.contains(WebCommand::ApplyFrame) {
                let k = choose|k: int| 0 <= k < cmds.len() && cmds[k] == WebCommand::ApplyFrame;
                assert(k == 0);
            }
        }
    }
}

/// Back, forward and reload each reach the web view as the command of
/// the same name.
pub proof fn lemma_history_commands_match_actions()
    ensures
        history_command(BrowserViewAction::Back) == WebCommand::GoBack,
        history_command(BrowserViewAction::Forward) == WebCommand::GoForward,
        history_command(BrowserViewAction::Reload) == WebCommand::Reload,
{
}

impl BrowserView {
    /// A hidden panel without a web view, opened on `DEFAULT_URL`.
    pub fn new() -> (view: BrowserView)
        ensures
            view@.current_url == DEFAULT_URL@,
            !view@.web_view_exists,
            !view@.panel_visible,
    {
        BrowserView { current_url: DEFAULT_URL.to_owned(), web_view_exists: false, panel_visible: false }
    }

    /// The address the panel shows.
    pub fn current_url(&self) -> (url: &str)
        ensures
            url@ == self@.current_url,
    {
        self.current_url.as_str()
    }

    /// Whether the native web view has been created.
    pub fn web_view_exists(&self) -> (b: bool)
        ensures
            b == self@.web_view_exists,
    {
        self.web_view_exists
    }

    /// Whether the panel is on screen.
    pub fn panel_visible(&self) -> (b: bool)
        ensures
            b == self@.panel_visible,
    {
        self.panel_visible
    }

    /// The first half of a navigation: reads what the user typed into the
    /// address bar. Blank text is ignored and changes nothing; other text
    /// becomes the current address, which is returned to be loaded.
    pub fn navigate(&mut self, editor_text: &str) -> (url: Option<String>)
        ensures
            trimmed(editor_text@).len() == 0 ==> url is None && final(self)@ == old(self)@,
            trimmed(editor_text@).len() != 0 ==> {
                &&& url matches Some(u)
                &&& u@ == resolved(editor_text@)
                &&& final(self)@.current_url == resolved(editor_text@)
                &&& final(self)@.web_view_exists == old(self)@.web_view_exists
                &&& final(self)@.panel_visible == old(self)@.panel_visible
            },
    {
        let raw = chars_of(editor_text);
        let t = trim_chars(&raw);
        if t.len() == 0 {
            return None;
        }
        let url = resolve_omnibox_input(editor_text);
        self.current_url = url.clone();
        Some(url)
    }

    /// Whether a web view still has to be created before anything can be
    /// loaded or shown.
    pub fn needs_web_view(&self) -> (b: bool)
        ensures
            b == !self@.web_view_exists,
    {
        !self.web_view_exists
    }

    /// Records that the native web view has just been created, and returns
    /// what it is told first: to stay hidden, and to load the current
    /// address.
    pub fn web_view_created(&mut self) -> (cmds: Vec<WebCommand>)
        requires
            !old(self)@.web_view_exists,
        ensures
            final(self)@.web_view_exists,
            final(self)@.current_url == old(self)@.current_url,
            final(self)@.panel_visible == old(self)@.panel_visible,
            cmds@.len() == 2,
            cmds@[0] == WebCommand::SetHidden(true),
            is_load_of(cmds@[1], old(self)@.current_url),
    {
        self.web_view_exists = true;
        let mut cmds: Vec<WebCommand> = Vec::new();
        cmds.push(WebCommand::SetHidden(true));
        cmds.push(WebCommand::LoadUrl(self.current_url.clone()));
        cmds
    }

    /// The second half of a navigation: load `url` in the web view, if
    /// there is one.
    pub fn load_commands(&self, url: &str) -> (cmds: Vec<WebCommand>)
        ensures
            loads_if_present(cmds@, self@.web_view_exists, url@),
    {
        let mut cmds: Vec<WebCommand> = Vec::new();
        if self.web_view_exists {
            cmds.push(WebCommand::LoadUrl(url.to_owned()));
        }
        cmds
    }

    /// Records whether the panel is on screen. A panel that is taken off
    /// screen hides its web view, which the UI does not draw over.
    pub fn set_panel_visible(&mut self, visible: bool) -> (cmds: Vec<WebCommand>)
        ensures
            final(self)@.panel_visible == visible,
            final(self)@.current_url == old(self)@.current_url,
            final(self)@.web_view_exists == old(self)@.web_view_exists,
            cmds@ == (if !visible && old(self)@.web_view_exists {
                seq![WebCommand::SetHidden(true)]
            } else {
                Seq::empty()
            }),
    {
        self.panel_visible = visible;
        let mut cmds: Vec<WebCommand> = Vec::new();
        if !visible && self.web_view_exists {
            cmds.push(WebCommand::SetHidden(true));
        }
        proof {
            if !(!visible && self.web_view_exists) {
                assert(cmds@ == Seq::<WebCommand>::empty());
            }
        }
        cmds
    }

    /// What to do with the web view when the panel is laid out, given
    /// whether the window and the panel's content area could be found.
    pub fn frame_plan(&self, window_known: bool, panel_rect_known: bool) -> (plan: FramePlan)
        ensures
            plan == spec_frame_plan(self@.panel_visible, window_known, panel_rect_known),
    {
        if !self.panel_visible {
            FramePlan::Hide
        } else if !window_known {
            FramePlan::Skip
        } else if !panel_rect_known {
            FramePlan::EnsureHidden
        } else {
            FramePlan::EnsureShown
        }
    }

    /// The commands that carry out `plan` with the web view as it now is.
    pub fn frame_commands(&self, plan: FramePlan) -> (cmds: Vec<WebCommand>)
        ensures
            cmds@ == spec_frame_commands(plan, self@.web_view_exists),
    {
        let mut cmds: Vec<WebCommand> = Vec::new();
        if self.web_view_exists {
            match plan {
                FramePlan::Hide => cmds.push(WebCommand::SetHidden(true)),
                FramePlan::Skip => {},
                FramePlan::EnsureHidden => cmds.push(WebCommand::SetHidden(true)),
                FramePlan::EnsureShown => {
                    cmds.push(WebCommand::ApplyFrame);
                    cmds.push(WebCommand::SetHidden(false));
                },
            }
        }
        proof {
            if !self.web_view_exists || plan == FramePlan::Skip {
                assert(cmds@ == Seq::<WebCommand>::empty());
            }
        }
        cmds
    }

    /// Whether the back button is enabled, given whether the web view
    /// reports history to go back to.
    pub fn can_go_back(&self, web_view_can_go_back: bool) -> (b: bool)
        ensures
            b == (self@.web_view_exists && web_view_can_go_back),
    {
        self.web_view_exists && web_view_can_go_back
    }

    /// Whether the forward button is enabled, given whether the web view
    /// reports history to go forward to.
    pub fn can_go_forward(&self, web_view_can_go_forward: bool) -> (b: bool)
        ensures
            b == (self@.web_view_exists && web_view_can_go_forward),
    {
        self.web_view_exists && web_view_can_go_forward
    }

    /// Answers one of the panel's actions. `Navigate` reads the address
    /// bar's text as `navigate` does; the history and reload actions go to
    /// the web view if there is one. Every action but an ignored
    /// navigation has the panel drawn again.
    pub fn handle_action(&mut self, action: BrowserViewAction, editor_text: &str) -> (out: ActionOutcome)
        ensures
            action == BrowserViewAction::Navigate ==> {
                &&& out.commands@.len() == 0
                &&& if trimmed(editor_text@).len() == 0 {
                    &&& out.navigate_to is None
                    &&& !out.notify
                    &&& final(self)@ == old(self)@
                } else {
                    &&& out.navigate_to matches Some(u)
                    &&& u@ == resolved(editor_text@)
                    &&& out.notify
                    &&& final(self)@.current_url == resolved(editor_text@)
                    &&& final(self)@.web_view_exists == old(self)@.web_view_exists
                    &&& final(self)@.panel_visible == old(self)@.panel_visible
                }
            },
            action != BrowserViewAction::Navigate ==> {
                &&& final(self)@ == old(self)@
                &&& out.navigate_to is None
                &&& out.notify
                &&& out.commands@ == (if old(self)@.web_view_exists {
                    seq![history_command(action)]
                } else {
                    Seq::empty()
                })
            },
    {
        let mut commands: Vec<WebCommand> = Vec::new();
        match action {
            BrowserViewAction::Navigate => {
                let navigate_to = self.navigate(editor_text);
                let notify = navigate_to.is_some();
                return ActionOutcome { navigate_to, commands, notify };
            },
            BrowserViewAction::Back => {
                if self.web_view_exists {
                    commands.push(WebCommand::GoBack);
                }
            },
            BrowserViewAction::Forward => {
                if self.web_view_exists {
                    commands.push(WebCommand::GoForward);
                }
            },
            BrowserViewAction::Reload => {
                if self.web_view_exists {
                    commands.push(WebCommand::Reload);
                }
            },
        }
        proof {
            if !self.web_view_exists {
                assert(commands@ == Seq::<WebCommand>::empty());
            }
        }
        ActionOutcome { navigate_to: None, commands, notify: true }
    }
}

} // verus!
