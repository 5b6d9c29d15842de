//! Keyboard shortcut bindings and the actions they trigger.

use vstd::prelude::*;

verus! {

/// Keyboard shortcut bindings.
#[derive(Debug, Clone)]
pub struct KeyBindings {
    pub new_tab: String,
    pub close_tab: String,
    pub next_tab: String,
    pub prev_tab: String,
    pub open_settings: String,
    pub save_session: String,
    pub find_in_session: String,
    pub ai_command_query: String,
    /// Split active pane horizontally (side by side).
    pub split_horizontal: String,
    /// Split active pane vertically (top/bottom).
    pub split_vertical: String,
    /// Close / unsplit active pane (keep the other side).
    pub close_pane: String,
    /// Reload all Lua plugins without restarting.
    pub reload_plugins: String,
    /// Focus the next tab group.
    pub focus_next_group: String,
    /// Focus the previous tab group.
    pub focus_prev_group: String,
    /// Move the active tab to the next group.
    pub move_tab_to_next_group: String,
    /// Move the active tab to the previous group.
    pub move_tab_to_prev_group: String,
}

impl Default for KeyBindings {
    fn default() -> (r: Self)
        ensures
            r.new_tab@ == "Ctrl+T"@,
            r.close_tab@ == "Ctrl+W"@,
            r.next_tab@ == "Ctrl+Tab"@,
            r.prev_tab@ == "Ctrl+Shift+Tab"@,
            r.open_settings@ == "Ctrl+,"@,
            r.save_session@ == "Ctrl+S"@,
            r.find_in_session@ == "Ctrl+F"@,
            r.ai_command_query@ == "Ctrl+/"@,
            r.split_horizontal@ == "Ctrl+Shift+D"@,
            r.split_vertical@ == "Ctrl+Shift+E"@,
            r.close_pane@ == "Ctrl+Shift+W"@,
            r.reload_plugins@ == "Ctrl+Shift+P"@,
            r.focus_next_group@ == "Ctrl+Alt+Right"@,
            r.focus_prev_group@ == "Ctrl+Alt+Left"@,
            r.move_tab_to_next_group@ == "Ctrl+Alt+Shift+Right"@,
            r.move_tab_to_prev_group@ == "Ctrl+Alt+Shift+Left"@,
    {
        KeyBindings {
            new_tab: "Ctrl+T".to_owned(),
            close_tab: "Ctrl+W".to_owned(),
            next_tab: "Ctrl+Tab".to_owned(),
            prev_tab: "Ctrl+Shift+Tab".to_owned(),
            open_settings: "Ctrl+,".to_owned(),
            save_session: "Ctrl+S".to_owned(),
            find_in_session: "Ctrl+F".to_owned(),
            ai_command_query: "Ctrl+/".to_owned(),
            split_horizontal: "Ctrl+Shift+D".to_owned(),
            split_vertical: "Ctrl+Shift+E".to_owned(),
            close_pane: "Ctrl+Shift+W".to_owned(),
            reload_plugins: "Ctrl+Shift+P".to_owned(),
            focus_next_group: "Ctrl+Alt+Right".to_owned(),
            focus_prev_group: "Ctrl+Alt+Left".to_owned(),
            move_tab_to_next_group: "Ctrl+Alt+Shift+Right".to_owned(),
            move_tab_to_prev_group: "Ctrl+Alt+Shift+Left".to_owned(),
        }
    }
}

/// Actions that can be bound to shortcuts.
#[derive(Debug, Clone, Copy, PartialEq, Eq, Hash, Structural)]
pub enum ShortcutAction {
    NewTab,
    CloseTab,
    NextTab,
    PrevTab,
    OpenSettings,
    SaveSession,
    FindInSession,
    AiCommandQuery,
    SplitHorizontal,
    SplitVertical,
    ClosePane,
    ReloadPlugins,
    FocusNextGroup,
    FocusPrevGroup,
    MoveTabNextGroup,
    MoveTabPrevGroup,
}

/// Every action, in the order the settings list them.
pub open spec fn all_actions() -> Seq<ShortcutAction> {
    seq![
        ShortcutAction::NewTab,
        ShortcutAction::CloseTab,
        ShortcutAction::NextTab,
        ShortcutAction::PrevTab,
        ShortcutAction::OpenSettings,
        ShortcutAction::SaveSession,
        ShortcutAction::FindInSession,
        ShortcutAction::AiCommandQuery,
        ShortcutAction::SplitHorizontal,
        ShortcutAction::SplitVertical,
        ShortcutAction::ClosePane,
        ShortcutAction::ReloadPlugins,
        ShortcutAction::FocusNextGroup,
        ShortcutAction::FocusPrevGroup,
        ShortcutAction::MoveTabNextGroup,
        ShortcutAction::MoveTabPrevGroup,
    ]
}

/// The name an action is shown under.
pub open spec fn action_name(a: ShortcutAction) -> Seq<char> {
    match a {
        ShortcutAction::NewTab => "New Terminal"@,
        ShortcutAction::CloseTab => "Close Terminal"@,
        ShortcutAction::NextTab => "Next Tab"@,
        ShortcutAction::PrevTab => "Previous Tab"@,
        ShortcutAction::OpenSettings => "Open Settings"@,
        ShortcutAction::SaveSession => "Save Session"@,
        ShortcutAction::FindInSession => "Find in Session"@,
        ShortcutAction::AiCommandQuery => "AI Command Query"@,
        ShortcutAction::SplitHorizontal => "Split Horizontal"@,
        ShortcutAction::SplitVertical => "Split Vertical"@,
        ShortcutAction::ClosePane => "Close Pane"@,
        ShortcutAction::ReloadPlugins => "Reload Plugins"@,
        ShortcutAction::FocusNextGroup => "Focus Next Group"@,
        ShortcutAction::FocusPrevGroup => "Focus Previous Group"@,
        ShortcutAction::MoveTabNextGroup => "Move Tab to Next Group"@,
        ShortcutAction::MoveTabPrevGroup => "Move Tab to Previous Group"@,
    }
}

impl ShortcutAction {
    pub fn all() -> (r: &'static [ShortcutAction])
        ensures
            r@ == all_actions(),
    {
        let r: &'static [ShortcutAction] = &[
            ShortcutAction::NewTab,
            ShortcutAction::CloseTab,
            ShortcutAction::NextTab,
            ShortcutAction::PrevTab,
            ShortcutAction::OpenSettings,
            ShortcutAction::SaveSession,
            ShortcutAction::FindInSession,
            ShortcutAction::AiCommandQuery,
            ShortcutAction::SplitHorizontal,
            ShortcutAction::SplitVertical,
            ShortcutAction::ClosePane,
            ShortcutAction::ReloadPlugins,
            ShortcutAction::FocusNextGroup,
            ShortcutAction::FocusPrevGroup,
            ShortcutAction::MoveTabNextGroup,
            ShortcutAction::MoveTabPrevGroup,
        ];
        assert(r@ =~= all_actions());
        r
    }

    pub fn display_name(&self) -> (r: &'static str)
        ensures
            r@ == action_name(*self),
    {
        match self {
            ShortcutAction::NewTab => "New Terminal",
            ShortcutAction::CloseTab => "Close Terminal",
            ShortcutAction::NextTab => "Next Tab",
            ShortcutAction::PrevTab => "Previous Tab",
            ShortcutAction::OpenSettings => "Open Settings",
            ShortcutAction::SaveSession => "Save Session",
            ShortcutAction::FindInSession => "Find in Session",
            ShortcutAction::AiCommandQuery => "AI Command Query",
            ShortcutAction::SplitHorizontal => "Split Horizontal",
            ShortcutAction::SplitVertical => "Split Vertical",
            ShortcutAction::ClosePane => "Close Pane",
            ShortcutAction::ReloadPlugins => "Reload Plugins",
            ShortcutAction::FocusNextGroup => "Focus Next Group",
            ShortcutAction::FocusPrevGroup => "Focus Previous Group",
            ShortcutAction::MoveTabNextGroup => "Move Tab to Next Group",
            ShortcutAction::MoveTabPrevGroup => "Move Tab to Previous Group",
        }
    }
}

/// The action list names every action exactly once.
pub proof fn lemma_all_actions_complete(a: ShortcutAction)
    ensures
        all_actions().contains(a),
        forall|i: int, j: int|
            0 <= i < j < all_actions().len() ==> all_actions()[i] != all_actions()[j],
{
    let s = all_actions();
    match a {
        ShortcutAction::NewTab => assert(s[0] == a),
        ShortcutAction::CloseTab => assert(s[1] == a),
        ShortcutAction::NextTab => assert(s[2] == a),
        ShortcutAction::PrevTab => assert(s[3] == a),
        ShortcutAction::OpenSettings => assert(s[4] == a),
        ShortcutAction::SaveSession => assert(s[5] == a),
        ShortcutAction::FindInSession => assert(s[6] == a),
        ShortcutAction::AiCommandQuery => assert(s[7] == a),
        ShortcutAction::SplitHorizontal => assert(s[8] == a),
        ShortcutAction::SplitVertical => assert(s[9] == a),
        ShortcutAction::ClosePane => assert(s[10] == a),
        ShortcutAction::ReloadPlugins => assert(s[11] == a),
        ShortcutAction::FocusNextGroup => assert(s[12] == a),
        ShortcutAction::FocusPrevGroup => assert(s[13] == a),
        ShortcutAction::MoveTabNextGroup => assert(s[14] == a),
        ShortcutAction::MoveTabPrevGroup => assert(s[15] == a),
    }
}

} // verus!
