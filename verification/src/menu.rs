//! The main menu's pages: the text each page shows, which panel is visible, and
//! the gallery selection kept valid against the discovery database, and what the
//! buttons of the main and pause menus do when pressed.

use vstd::prelude::*;

use crate::discovery::{entry_models, list_of, DiscoveryEntry, DiscoveryKind, EntryModel, UiDiscoveryDb};
use crate::settings::SettingKey;

verus! {

#[derive(Debug, Clone, Copy, PartialEq, Eq, Structural)]
pub enum MainMenuPage {
    Home,
    Credits,
    DiscoveredItems,
    PhoneList,
    Settings,
}

/// The heading of a page.
pub open spec fn page_heading(page: MainMenuPage) -> Seq<char> {
    match page {
        MainMenuPage::Home => "SYSTEM STATUS"@,
        MainMenuPage::Credits => "CREDITS"@,
        MainMenuPage::DiscoveredItems => "DISCOVERED ITEMS"@,
        MainMenuPage::PhoneList => "PHONE LIST"@,
        MainMenuPage::Settings => "SETTINGS"@,
    }
}

/// The lines of text a page shows under its heading.
pub open spec fn page_lines(page: MainMenuPage) -> Seq<Seq<char>> {
    match page {
        MainMenuPage::Home => seq![
            "terminal online"@,
            ""@,
            "new game: available"@,
            "continue: waiting for save state"@,
            ""@,
            "open credits or gallery on left"@,
        ],
        MainMenuPage::Credits => seq![
            "creative direction: doomy & guilhhotina"@,
            "engineering: rust + bevy 0.18"@,
            ""@,
            "font: press start 2p (ofl)"@,
            "font: vt323 (ofl)"@,
            ""@,
        ],
        MainMenuPage::DiscoveredItems => seq![
            "gallery mode online"@,
            "click on an item"@,
            ""@,
            "left panel = list"@,
            "right panel = details"@,
            ""@,
            ""@,
            ""@,
        ],
        MainMenuPage::PhoneList => seq![
            "contact gallery online"@,
            "click on a contact"@,
            ""@,
            "left panel = list"@,
            "right panel = details"@,
            ""@,
            ""@,
            ""@,
        ],
        MainMenuPage::Settings => seq![
            "runtime controls online"@,
            "audio, voice and ui tuning"@,
            ""@,
            "left button = decrease/toggle"@,
            "right button = increase/toggle"@,
            ""@,
        ],
    }
}

/// The views of a list of `&str`.
pub open spec fn line_views(v: Seq<&str>) -> Seq<Seq<char>> {
    v.map_values(|s: &str| s@)
}

/// The heading and the lines of text of a page.
pub fn main_menu_page_content(page: MainMenuPage) -> (r: (&'static str, Vec<&'static str>))
    ensures
        r.0@ == page_heading(page),
        line_views(r.1@) == page_lines(page),
{
    let r = match page {
        MainMenuPage::Home => (
            "SYSTEM STATUS",
            vec![
                "terminal online",
                "",
                "new game: available",
                "continue: waiting for save state",
                "",
                "open credits or gallery on left",
            ],
        ),
        MainMenuPage::Credits => (
            "CREDITS",
            vec![
                "creative direction: doomy & guilhhotina",
                "engineering: rust + bevy 0.18",
                "",
                "font: press start 2p (ofl)",
                "font: vt323 (ofl)",
                "",
            ],
        ),
        MainMenuPage::DiscoveredItems => (
            "DISCOVERED ITEMS",
            vec![
                "gallery mode online",
                "click on an item",
                "",
                "left panel = list",
                "right panel = details",
                "",
                "",
                "",
            ],
        ),
        MainMenuPage::PhoneList => (
            "PHONE LIST",
            vec![
                "contact gallery online",
                "click on a contact",
                "",
                "left panel = list",
                "right panel = details",
                "",
                "",
                "",
            ],
        ),
        MainMenuPage::Settings => (
            "SETTINGS",
            vec![
                "runtime controls online",
                "audio, voice and ui tuning",
                "",
                "left button = decrease/toggle",
                "right button = increase/toggle",
                "",
            ],
        ),
    };
    assert(line_views(r.1@) =~= page_lines(page));
    r
}

/// The text of line `index` of a page: empty past its last line.
pub fn page_line(page: MainMenuPage, index: usize) -> (r: &'static str)
    ensures
        r@ == if index < page_lines(page).len() {
            page_lines(page)[index as int]
        } else {
            ""@
        },
{
    let (_, lines) = main_menu_page_content(page);
    if index < lines.len() {
        assert(line_views(lines@)[index as int] == lines@[index as int]@);
        lines[index]
    } else {
        ""
    }
}

/// Which panel a page shows: the terminal, the gallery or the settings (exactly one).
#[derive(Debug, Clone, Copy, PartialEq, Eq, Structural)]
pub struct PagePanels {
    pub terminal: bool,
    pub gallery: bool,
    pub settings: bool,
}

/// The panel of a page: the gallery for the item and contact lists, the settings
/// for the settings page, the terminal otherwise.
pub open spec fn panels_spec(page: MainMenuPage) -> PagePanels {
    let gallery = page == MainMenuPage::DiscoveredItems || page == MainMenuPage::PhoneList;
    let settings = page == MainMenuPage::Settings;
    PagePanels { terminal: !gallery && !settings, gallery, settings }
}

/// The panel a page shows (see `panels_spec`).
pub fn page_panels(page: MainMenuPage) -> (r: PagePanels)
    ensures
        r == panels_spec(page),
{
    let gallery = page == MainMenuPage::DiscoveredItems || page == MainMenuPage::PhoneList;
    let settings = page == MainMenuPage::Settings;
    PagePanels { terminal: !gallery && !settings, gallery, settings }
}

/// The page shown in the main menu and the gallery entries selected on it.
#[derive(Debug, Clone, Copy, PartialEq, Eq, Structural)]
pub struct MainMenuState {
    pub page: MainMenuPage,
    pub selected_item: Option<usize>,
    pub selected_npc: Option<usize>,
}

/// A selection kept within a list of `len` entries: none when the list is empty,
/// the first entry when there was none or it fell off the end.
pub open spec fn valid_selection(sel: Option<usize>, len: nat) -> Option<usize> {
    if len == 0 {
        None
    } else {
        match sel {
            Some(i) => if i < len {
                Some(i)
            } else {
                Some(0)
            },
            None => Some(0),
        }
    }
}

fn keep_valid(sel: Option<usize>, len: usize) -> (r: Option<usize>)
    ensures
        r == valid_selection(sel, len as nat),
{
    if len == 0 {
        None
    } else {
        match sel {
            Some(i) => if i < len {
                Some(i)
            } else {
                Some(0)
            },
            None => Some(0),
        }
    }
}

impl MainMenuState {
    /// The menu on the home page with nothing selected.
    pub fn new() -> (r: Self)
        ensures
            r == (MainMenuState { page: MainMenuPage::Home, selected_item: None, selected_npc: None }),
    {
        MainMenuState { page: MainMenuPage::Home, selected_item: None, selected_npc: None }
    }

    /// Keeps the selection of the gallery page being shown within its list: the
    /// item list on the item page, the contact list on the phone page.
    pub fn ensure_selection(&mut self, items_len: usize, npcs_len: usize)
        ensures
            final(self).page == old(self).page,
            final(self).selected_item == if old(self).page == MainMenuPage::DiscoveredItems {
                valid_selection(old(self).selected_item, items_len as nat)
            } else {
                old(self).selected_item
            },
            final(self).selected_npc == if old(self).page == MainMenuPage::PhoneList {
                valid_selection(old(self).selected_npc, npcs_len as nat)
            } else {
                old(self).selected_npc
            },
    {
        if self.page == MainMenuPage::DiscoveredItems {
            self.selected_item = keep_valid(self.selected_item, items_len);
        }
        if self.page == MainMenuPage::PhoneList {
            self.selected_npc = keep_valid(self.selected_npc, npcs_len);
        }
    }

    /// The entry whose details the gallery shows: the selected contact on the
    /// phone page, the selected item on any other page.
    pub fn selected_entry<'a>(&self, db: &'a UiDiscoveryDb) -> (r: Option<&'a DiscoveryEntry>)
        ensures
            ({
                let (kind, sel) = if self.page == MainMenuPage::PhoneList {
                    (DiscoveryKind::Npc, self.selected_npc)
                } else {
                    (DiscoveryKind::Item, self.selected_item)
                };
                match sel {
                    Some(i) => if i < list_of(db@, kind).len() {
                        r matches Some(e) && e@ == list_of(db@, kind)[i as int]
                    } else {
                        r is None
                    },
                    None => r is None,
                }
            }),
    {
        let (kind, sel) = if self.page == MainMenuPage::PhoneList {
            (DiscoveryKind::Npc, self.selected_npc)
        } else {
            (DiscoveryKind::Item, self.selected_item)
        };
        let list = db.entries(kind);
        match sel {
            Some(i) => if i < list.len() {
                assert(entry_models(list@)[i as int] == list@[i as int]@);
                Some(&list[i])
            } else {
                None
            },
            None => None,
        }
    }
}

/// The page shown in the pause menu.
#[derive(Debug, Clone, Copy, PartialEq, Eq, Structural)]
pub enum PauseMenuPage {
    Status,
    Settings,
}

/// An action that waits for the player to confirm it.
#[derive(Debug, Clone, Copy, PartialEq, Eq, Structural)]
pub enum ConfirmAction {
    BackToMainMenu,
    QuitGame,
}

/// What a menu button does when pressed.
#[derive(Debug, Clone, Copy, PartialEq, Eq, Structural)]
pub enum ButtonAction {
    SelectPage(MainMenuPage),
    SelectDiscovery(DiscoveryKind, usize),
    AdjustSetting(SettingKey, i32),
    Play,
    Continue,
    Resume,
    BackToMainMenu,
    QuitGame,
    ConfirmProceed,
    ConfirmCancel,
}

/// A request the menus send to the game.
#[derive(Debug, Clone, Copy, PartialEq, Eq, Structural)]
pub enum UiMenuAction {
    Play,
    Continue,
    Resume,
    BackToMainMenu,
    QuitGame,
}

/// What pressing a menu button asks of the game: a request, or a step of a setting.
#[derive(Debug, Clone, Copy, PartialEq, Eq, Structural)]
pub enum MenuAction {
    Send(UiMenuAction),
    AdjustSetting(SettingKey, i32),
}

/// The main menu, the pause page, the action waiting for confirmation and the
/// request after pressing a button whose action is `action`, with `items_len` and
/// `npcs_len` the lengths of the item and contact lists.
/// - A disabled button does nothing.
/// - Choosing a page shows it; the item or contact list gets its first entry
///   selected when nothing was and the list is not empty; the pause menu shows its
///   settings for the settings page and its status for any other.
/// - Choosing a gallery entry shows its list with that entry selected.
/// - Play, continue and resume are sent at once; a setting step is handed on.
/// - Going back to the main menu and quitting wait for confirmation: proceeding
///   sends the waiting action and clears it, cancelling clears it.
pub open spec fn press_menu_button_spec(
    state: MainMenuState,
    pause: PauseMenuPage,
    pending: Option<ConfirmAction>,
    action: ButtonAction,
    disabled: bool,
    items_len: nat,
    npcs_len: nat,
) -> (MainMenuState, PauseMenuPage, Option<ConfirmAction>, Option<MenuAction>) {
    if disabled {
        (state, pause, pending, None)
    } else {
    match action {
        ButtonAction::SelectPage(page) => (
            MainMenuState {
                page,
                selected_item: if page == MainMenuPage::DiscoveredItems && state.selected_item is None
                    && items_len > 0 {
                    Some(0)
                } else {
                    state.selected_item
                },
                selected_npc: if page == MainMenuPage::PhoneList && state.selected_npc is None
                    && npcs_len > 0 {
                    Some(0)
                } else {
                    state.selected_npc
                },
            },
            if page == MainMenuPage::Settings {
                PauseMenuPage::Settings
            } else {
                PauseMenuPage::Status
            },
            pending,
            None,
        ),
        ButtonAction::SelectDiscovery(kind, index) => (
            match kind {
                DiscoveryKind::Item => MainMenuState {
                    page: MainMenuPage::DiscoveredItems,
                    selected_item: Some(index),
                    ..state
                },
                DiscoveryKind::Npc => MainMenuState {
                    page: MainMenuPage::PhoneList,
                    selected_npc: Some(index),
                    ..state
                },
            },
            pause,
            pending,
            None,
        ),
        ButtonAction::AdjustSetting(key, step) => (
            state,
            pause,
            pending,
            Some(MenuAction::AdjustSetting(key, step)),
        ),
        ButtonAction::Play => (state, pause, pending, Some(MenuAction::Send(UiMenuAction::Play))),
        ButtonAction::Continue => (
            state,
            pause,
            pending,
            Some(MenuAction::Send(UiMenuAction::Continue)),
        ),
        ButtonAction::Resume => (state, pause, pending, Some(MenuAction::Send(UiMenuAction::Resume))),
        ButtonAction::BackToMainMenu => (state, pause, Some(ConfirmAction::BackToMainMenu), None),
        ButtonAction::QuitGame => (state, pause, Some(ConfirmAction::QuitGame), None),
        ButtonAction::ConfirmProceed => (
            state,
            pause,
            None,
            match pending {
                Some(ConfirmAction::BackToMainMenu) => Some(
                    MenuAction::Send(UiMenuAction::BackToMainMenu),
                ),
                Some(ConfirmAction::QuitGame) => Some(MenuAction::Send(UiMenuAction::QuitGame)),
                None => None,
            },
        ),
        ButtonAction::ConfirmCancel => (state, pause, None, None),
    }
    }
}

/// Presses a menu button (see `press_menu_button_spec`).
pub fn press_menu_button(
    state: MainMenuState,
    pause: PauseMenuPage,
    pending: Option<ConfirmAction>,
    action: ButtonAction,
    disabled: bool,
    items_len: usize,
    npcs_len: usize,
) -> (r: (MainMenuState, PauseMenuPage, Option<ConfirmAction>, Option<MenuAction>))
    ensures
        r == press_menu_button_spec(
            state,
            pause,
            pending,
            action,
            disabled,
            items_len as nat,
            npcs_len as nat,
        ),
        disabled ==> r == (state, pause, pending, None::<MenuAction>),
{
    if disabled {
        return (state, pause, pending, None);
    }
    match action {
        ButtonAction::SelectPage(page) => {
            let selected_item = if page == MainMenuPage::DiscoveredItems && state.selected_item.is_none()
                && items_len > 0 {
                Some(0)
            } else {
                state.selected_item
            };
            let selected_npc = if page == MainMenuPage::PhoneList && state.selected_npc.is_none()
                && npcs_len > 0 {
                Some(0)
            } else {
                state.selected_npc
            };
            let pause_page = if page == MainMenuPage::Settings {
                PauseMenuPage::Settings
            } else {
                PauseMenuPage::Status
            };
            (MainMenuState { page, selected_item, selected_npc }, pause_page, pending, None)
        },
        ButtonAction::SelectDiscovery(kind, index) => {
            let next = match kind {
                DiscoveryKind::Item => MainMenuState {
                    page: MainMenuPage::DiscoveredItems,
                    selected_item: Some(index),
                    selected_npc: state.selected_npc,
                },
                DiscoveryKind::Npc => MainMenuState {
                    page: MainMenuPage::PhoneList,
                    selected_item: state.selected_item,
                    selected_npc: Some(index),
                },
            };
            (next, pause, pending, None)
        },
        ButtonAction::AdjustSetting(key, step) => (
            state,
            pause,
            pending,
            Some(MenuAction::AdjustSetting(key, step)),
        ),
        ButtonAction::Play => (state, pause, pending, Some(MenuAction::Send(UiMenuAction::Play))),
        ButtonAction::Continue => (
            state,
            pause,
            pending,
            Some(MenuAction::Send(UiMenuAction::Continue)),
        ),
        ButtonAction::Resume => (state, pause, pending, Some(MenuAction::Send(UiMenuAction::Resume))),
        ButtonAction::BackToMainMenu => (state, pause, Some(ConfirmAction::BackToMainMenu), None),
        ButtonAction::QuitGame => (state, pause, Some(ConfirmAction::QuitGame), None),
        ButtonAction::ConfirmProceed => {
            let sent = match pending {
                Some(ConfirmAction::BackToMainMenu) => Some(
                    MenuAction::Send(UiMenuAction::BackToMainMenu),
                ),
                Some(ConfirmAction::QuitGame) => Some(MenuAction::Send(UiMenuAction::QuitGame)),
                None => None,
            };
            (state, pause, None, sent)
        },
        ButtonAction::ConfirmCancel => (state, pause, None, None),
    }
}

/// The buttons of the main menu's left column, from the top: label, action and
/// whether the button is disabled. Continuing is not available yet.
pub open spec fn main_menu_button_list() -> Seq<(Seq<char>, ButtonAction, bool)> {
    seq![
        ("START"@, ButtonAction::Play, false),
        ("CONTINUE"@, ButtonAction::Continue, true),
        ("CREDITS"@, ButtonAction::SelectPage(MainMenuPage::Credits), false),
        ("DISCOVERED ITEMS"@, ButtonAction::SelectPage(MainMenuPage::DiscoveredItems), false),
        ("PHONE LIST"@, ButtonAction::SelectPage(MainMenuPage::PhoneList), false),
        ("SETTINGS"@, ButtonAction::SelectPage(MainMenuPage::Settings), false),
        ("HOME"@, ButtonAction::SelectPage(MainMenuPage::Home), false),
        ("QUIT"@, ButtonAction::QuitGame, false),
    ]
}

/// The views of a list of buttons.
pub open spec fn button_views(v: Seq<(&str, ButtonAction, bool)>) -> Seq<(Seq<char>, ButtonAction, bool)> {
    v.map_values(|b: (&str, ButtonAction, bool)| (b.0@, b.1, b.2))
}

/// The buttons of the main menu's left column (see `main_menu_button_list`).
pub fn main_menu_buttons() -> (r: Vec<(&'static str, ButtonAction, bool)>)
    ensures
        button_views(r@) == main_menu_button_list(),
{
    let r = vec![
        ("START", ButtonAction::Play, false),
        ("CONTINUE", ButtonAction::Continue, true),
        ("CREDITS", ButtonAction::SelectPage(MainMenuPage::Credits), false),
        ("DISCOVERED ITEMS", ButtonAction::SelectPage(MainMenuPage::DiscoveredItems), false),
        ("PHONE LIST", ButtonAction::SelectPage(MainMenuPage::PhoneList), false),
        ("SETTINGS", ButtonAction::SelectPage(MainMenuPage::Settings), false),
        ("HOME", ButtonAction::SelectPage(MainMenuPage::Home), false),
        ("QUIT", ButtonAction::QuitGame, false),
    ];
    assert(button_views(r@) =~= main_menu_button_list());
    r
}

/// A disabled button changes nothing and sends nothing; so the main menu's
/// continue button, which is disabled, never asks the game to continue.
pub proof fn law_disabled_button_is_inert(
    state: MainMenuState,
    pause: PauseMenuPage,
    pending: Option<ConfirmAction>,
    action: ButtonAction,
    items_len: nat,
    npcs_len: nat,
)
    ensures
        press_menu_button_spec(state, pause, pending, action, true, items_len, npcs_len) == (
            state,
            pause,
            pending,
            None::<MenuAction>,
        ),
        forall|i: int|
            0 <= i < main_menu_button_list().len() && (#[trigger] main_menu_button_list()[i]).1
                == ButtonAction::Continue ==> press_menu_button_spec(
                state,
                pause,
                pending,
                main_menu_button_list()[i].1,
                main_menu_button_list()[i].2,
                items_len,
                npcs_len,
            ).3 is None,
{
    assert forall|i: int|
        0 <= i < main_menu_button_list().len() && (#[trigger] main_menu_button_list()[i]).1
            == ButtonAction::Continue implies main_menu_button_list()[i].2 by {
    }
}

/// A confirmed request is sent once: asking to go back to the main menu or to quit
/// and then proceeding sends that request and leaves nothing waiting; cancelling in
/// between sends nothing, and proceeding with nothing waiting sends nothing.
pub proof fn law_confirm_flow(
    state: MainMenuState,
    pause: PauseMenuPage,
    pending: Option<ConfirmAction>,
    ask: ButtonAction,
    items_len: nat,
    npcs_len: nat,
)
    requires
        ask == ButtonAction::BackToMainMenu || ask == ButtonAction::QuitGame,
    ensures
        ({
            let a = press_menu_button_spec(state, pause, pending, ask, false, items_len, npcs_len);
            let p = press_menu_button_spec(
                a.0,
                a.1,
                a.2,
                ButtonAction::ConfirmProceed,
                false,
                items_len,
                npcs_len,
            );
            let c = press_menu_button_spec(
                a.0,
                a.1,
                a.2,
                ButtonAction::ConfirmCancel,
                false,
                items_len,
                npcs_len,
            );
            let cp = press_menu_button_spec(
                c.0,
                c.1,
                c.2,
                ButtonAction::ConfirmProceed,
                false,
                items_len,
                npcs_len,
            );
            &&& p.2 is None
            &&& p.3 == Some(
                MenuAction::Send(
                    if ask == ButtonAction::BackToMainMenu {
                        UiMenuAction::BackToMainMenu
                    } else {
                        UiMenuAction::QuitGame
                    },
                ),
            )
            &&& p.0 == state && p.1 == pause
            &&& cp.3 is None && cp.2 is None
        }),
{
}

/// Keeping the selection valid leaves it within its list, and a valid selection
/// as it is.
pub proof fn law_selection_stays_valid(sel: Option<usize>, len: nat)
    ensures
        valid_selection(sel, len) matches Some(i) ==> i < len,
        len > 0 ==> valid_selection(sel, len) is Some,
        valid_selection(valid_selection(sel, len), len) == valid_selection(sel, len),
        (sel matches Some(i) && i < len) ==> valid_selection(sel, len) == sel,
{
}

} // verus!
