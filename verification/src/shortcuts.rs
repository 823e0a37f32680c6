//! The global keyboard shortcuts of the main window: which command a frame's
//! key presses ask for, in the order the window checks them.
use vstd::prelude::*;

verus! {

/// The keys pressed during one frame, with the modifiers held.
#[derive(Clone, Copy, Debug, PartialEq, Eq, Structural)]
pub struct ShortcutKeys {
    pub ctrl: bool,
    pub alt: bool,
    pub shift: bool,
    pub tab: bool,
    pub t: bool,
    pub w: bool,
    pub n: bool,
    pub r: bool,
    pub f5: bool,
    pub f1: bool,
    pub d: bool,
    pub f2: bool,
    pub enter: bool,
}

/// What the window state says about the shortcuts that depend on it.
#[derive(Clone, Copy, Debug, PartialEq, Eq, Structural)]
pub struct ShortcutContext {
    /// A modal window, popup or error tooltip has the keyboard.
    pub blocked: bool,
    /// A rename is already in progress.
    pub renaming: bool,
    /// The focused view's address bar is being edited.
    pub editing_address: bool,
}

/// The windows and popups that take the keyboard from the main window.
#[derive(Clone, Copy, Debug, PartialEq, Eq, Structural)]
pub struct ShortcutBlockers {
    pub theme_customizer_open: bool,
    pub settings_open: bool,
    pub about_open: bool,
    pub tag_picker_open: bool,
    pub tag_delete_confirmation_open: bool,
    pub rename_error_shown: bool,
    pub sidebar_popup_open: bool,
    pub primary_view_popup_open: bool,
    pub split_view_popup_open: bool,
    pub topbar_menu_open: bool,
    pub file_explorer_hidden: bool,
}

/// Shortcuts are off while any of these is open or shown, and while the file
/// explorer is hidden.
pub open spec fn blocks_shortcuts(b: ShortcutBlockers) -> bool {
    ||| b.theme_customizer_open
    ||| b.settings_open
    ||| b.about_open
    ||| b.tag_picker_open
    ||| b.tag_delete_confirmation_open
    ||| b.rename_error_shown
    ||| b.sidebar_popup_open
    ||| b.primary_view_popup_open
    ||| b.split_view_popup_open
    ||| b.topbar_menu_open
    ||| b.file_explorer_hidden
}

/// Each open window or popup, the shown rename error and the hidden file
/// explorer block the global shortcuts on their own, whatever else is open;
/// with none of them, the shortcuts are on.
pub proof fn lemma_each_blocker_blocks(b: ShortcutBlockers)
    ensures
        b.theme_customizer_open ==> blocks_shortcuts(b),
        b.settings_open ==> blocks_shortcuts(b),
        b.about_open ==> blocks_shortcuts(b),
        b.tag_picker_open ==> blocks_shortcuts(b),
        b.tag_delete_confirmation_open ==> blocks_shortcuts(b),
        b.rename_error_shown ==> blocks_shortcuts(b),
        b.sidebar_popup_open ==> blocks_shortcuts(b),
        b.primary_view_popup_open ==> blocks_shortcuts(b),
        b.split_view_popup_open ==> blocks_shortcuts(b),
        b.topbar_menu_open ==> blocks_shortcuts(b),
        b.file_explorer_hidden ==> blocks_shortcuts(b),
        b == (ShortcutBlockers {
            theme_customizer_open: false,
            settings_open: false,
            about_open: false,
            tag_picker_open: false,
            tag_delete_confirmation_open: false,
            rename_error_shown: false,
            sidebar_popup_open: false,
            primary_view_popup_open: false,
            split_view_popup_open: false,
            topbar_menu_open: false,
            file_explorer_hidden: false,
        }) ==> !blocks_shortcuts(b),
{
}

/// Whether the global shortcuts are off (`blocks_shortcuts`): they are while
/// the About window, the settings, the theme customizer, the tag picker or
/// the tag-delete confirmation is open, a rename error or a popup or menu is
/// shown, or the file explorer is hidden.
pub fn shortcuts_blocked(b: ShortcutBlockers) -> (r: bool)
    ensures
        r == blocks_shortcuts(b),
        b.about_open ==> r,
        b.settings_open ==> r,
        b.theme_customizer_open ==> r,
        b.tag_picker_open ==> r,
        b.tag_delete_confirmation_open ==> r,
        b.rename_error_shown ==> r,
        b.sidebar_popup_open ==> r,
        b.primary_view_popup_open ==> r,
        b.split_view_popup_open ==> r,
        b.topbar_menu_open ==> r,
        b.file_explorer_hidden ==> r,
{
    b.theme_customizer_open || b.settings_open || b.about_open || b.tag_picker_open
        || b.tag_delete_confirmation_open || b.rename_error_shown || b.sidebar_popup_open
        || b.primary_view_popup_open || b.split_view_popup_open || b.topbar_menu_open
        || b.file_explorer_hidden
}

/// A command that a shortcut asks the main window to run.
#[derive(Clone, Copy, Debug, PartialEq, Eq, Structural)]
pub enum ShortcutCommand {
    PreviousTab,
    NextTab,
    NewTab,
    CloseActiveTab,
    NewFolder,
    Reload,
    ToggleFullscreen,
    EditAddress,
    RenameSelection,
    SelectionProperties,
}

/// The commands of one frame. The first shortcut that matches, in the
/// window's order, ends the dispatch; full screen (F1) is the exception and
/// lets the checks that follow it run too.
pub open spec fn shortcut_commands(k: ShortcutKeys, c: ShortcutContext) -> Seq<ShortcutCommand> {
    if c.blocked {
        seq![]
    } else if k.ctrl && k.shift && k.tab {
        seq![ShortcutCommand::PreviousTab]
    } else if k.ctrl && k.tab {
        seq![ShortcutCommand::NextTab]
    } else if k.ctrl && k.t {
        seq![ShortcutCommand::NewTab]
    } else if k.ctrl && k.w {
        seq![ShortcutCommand::CloseActiveTab]
    } else if k.ctrl && k.shift && k.n {
        seq![ShortcutCommand::NewFolder]
    } else if (k.ctrl && k.r) || k.f5 {
        seq![ShortcutCommand::Reload]
    } else {
        let head: Seq<ShortcutCommand> = if k.f1 {
            seq![ShortcutCommand::ToggleFullscreen]
        } else {
            seq![]
        };
        head + after_fullscreen(k, c)
    }
}

/// The checks that follow the full-screen key.
pub open spec fn after_fullscreen(k: ShortcutKeys, c: ShortcutContext) -> Seq<ShortcutCommand> {
    if k.alt && k.d {
        seq![ShortcutCommand::EditAddress]
    } else if k.f2 {
        if !c.renaming && !c.editing_address {
            seq![ShortcutCommand::RenameSelection]
        } else {
            seq![]
        }
    } else if k.alt && k.enter && !c.editing_address {
        seq![ShortcutCommand::SelectionProperties]
    } else {
        seq![]
    }
}

/// The commands that a frame's key presses ask for, in the order they run.
pub fn dispatch_shortcuts(k: ShortcutKeys, c: ShortcutContext) -> (cmds: Vec<ShortcutCommand>)
    ensures
        cmds@ == shortcut_commands(k, c),
{
    let mut cmds: Vec<ShortcutCommand> = Vec::new();
    if c.blocked {
        return cmds;
    }
    if k.ctrl && k.shift && k.tab {
        cmds.push(ShortcutCommand::PreviousTab);
        return cmds;
    }
    if k.ctrl && k.tab {
        cmds.push(ShortcutCommand::NextTab);
        return cmds;
    }
    if k.ctrl && k.t {
        cmds.push(ShortcutCommand::NewTab);
        return cmds;
    }
    if k.ctrl && k.w {
        cmds.push(ShortcutCommand::CloseActiveTab);
        return cmds;
    }
    if k.ctrl && k.shift && k.n {
        cmds.push(ShortcutCommand::NewFolder);
        return cmds;
    }
    if (k.ctrl && k.r) || k.f5 {
        cmds.push(ShortcutCommand::Reload);
        return cmds;
    }
    if k.f1 {
        cmds.push(ShortcutCommand::ToggleFullscreen);
    }
    let ghost head = cmds@;
    if k.alt && k.d {
        cmds.push(ShortcutCommand::EditAddress);
    } else if k.f2 {
        if !c.renaming && !c.editing_address {
            cmds.push(ShortcutCommand::RenameSelection);
        }
    } else if k.alt && k.enter && !c.editing_address {
        cmds.push(ShortcutCommand::SelectionProperties);
    }
    assert(cmds@ =~= head + after_fullscreen(k, c));
    cmds
}

/// Blocked frames run no command, and a frame never runs more than two.
pub proof fn lemma_shortcut_commands_bounded(k: ShortcutKeys, c: ShortcutContext)
    ensures
        c.blocked ==> shortcut_commands(k, c).len() == 0,
        shortcut_commands(k, c).len() <= 2,
{
}

/// With Ctrl held, Tab steps to the next tab and Shift+Tab to the previous
/// one, whatever else is pressed.
pub proof fn lemma_tab_cycling(k: ShortcutKeys, c: ShortcutContext)
    requires
        !c.blocked,
        k.ctrl,
        k.tab,
    ensures
        k.shift ==> shortcut_commands(k, c) == seq![ShortcutCommand::PreviousTab],
        !k.shift ==> shortcut_commands(k, c) == seq![ShortcutCommand::NextTab],
{
}

} // verus!
