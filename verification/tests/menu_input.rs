use feverish::discovery::{DiscoveryEntry, DiscoveryKind};
use feverish::inventory::{inventory_open_selection, inventory_release, ReleaseAction};
use feverish::menu::{
    main_menu_buttons, press_menu_button, ButtonAction, ConfirmAction, MainMenuPage, MainMenuState, MenuAction, PauseMenuPage,
    UiMenuAction,
};
use feverish::settings::SettingKey;

fn items(ids: &[&str]) -> Vec<DiscoveryEntry> {
    ids.iter().map(|id| DiscoveryEntry::new(id, id)).collect()
}

#[test]
fn select_page_picks_first_gallery_entry() {
    let state = MainMenuState::new();
    let (next, pause, pending, action) =
        press_menu_button(state, PauseMenuPage::Status, None, ButtonAction::SelectPage(MainMenuPage::DiscoveredItems), false, 3, 0);
    assert_eq!(next.page, MainMenuPage::DiscoveredItems);
    assert_eq!(next.selected_item, Some(0));
    assert_eq!(next.selected_npc, None);
    assert_eq!(pause, PauseMenuPage::Status);
    assert_eq!(pending, None);
    assert_eq!(action, None);

    let (next, _, _, _) =
        press_menu_button(state, PauseMenuPage::Status, None, ButtonAction::SelectPage(MainMenuPage::PhoneList), false, 3, 0);
    assert_eq!(next.page, MainMenuPage::PhoneList);
    assert_eq!(next.selected_npc, None);

    let kept = MainMenuState { page: MainMenuPage::Home, selected_item: Some(2), selected_npc: None };
    let (next, _, _, _) =
        press_menu_button(kept, PauseMenuPage::Status, None, ButtonAction::SelectPage(MainMenuPage::DiscoveredItems), false, 3, 1);
    assert_eq!(next.selected_item, Some(2));
}

#[test]
fn select_page_maps_pause_page() {
    let state = MainMenuState::new();
    let (_, pause, _, _) =
        press_menu_button(state, PauseMenuPage::Status, None, ButtonAction::SelectPage(MainMenuPage::Settings), false, 0, 0);
    assert_eq!(pause, PauseMenuPage::Settings);
    let (_, pause, _, _) =
        press_menu_button(state, PauseMenuPage::Settings, None, ButtonAction::SelectPage(MainMenuPage::Credits), false, 0, 0);
    assert_eq!(pause, PauseMenuPage::Status);
}

#[test]
fn select_discovery_entry() {
    let state = MainMenuState::new();
    let (next, _, _, _) =
        press_menu_button(state, PauseMenuPage::Status, None, ButtonAction::SelectDiscovery(DiscoveryKind::Npc, 4), false, 0, 0);
    assert_eq!(next, MainMenuState { page: MainMenuPage::PhoneList, selected_item: None, selected_npc: Some(4) });
    let (next, _, _, _) =
        press_menu_button(next, PauseMenuPage::Status, None, ButtonAction::SelectDiscovery(DiscoveryKind::Item, 1), false, 0, 0);
    assert_eq!(next, MainMenuState { page: MainMenuPage::DiscoveredItems, selected_item: Some(1), selected_npc: Some(4) });
}

#[test]
fn direct_actions_are_sent() {
    let state = MainMenuState::new();
    for (button, sent) in [
        (ButtonAction::Play, UiMenuAction::Play),
        (ButtonAction::Continue, UiMenuAction::Continue),
        (ButtonAction::Resume, UiMenuAction::Resume),
    ] {
        let (next, _, pending, action) = press_menu_button(state, PauseMenuPage::Status, None, button, false, 0, 0);
        assert_eq!(next, state);
        assert_eq!(pending, None);
        assert_eq!(action, Some(MenuAction::Send(sent)));
    }
    let (_, _, _, action) =
        press_menu_button(state, PauseMenuPage::Status, None, ButtonAction::AdjustSetting(SettingKey::UiScale, -1), false, 0, 0);
    assert_eq!(action, Some(MenuAction::AdjustSetting(SettingKey::UiScale, -1)));
}

#[test]
fn confirm_flow() {
    let state = MainMenuState::new();
    let (s, p, pending, action) = press_menu_button(state, PauseMenuPage::Status, None, ButtonAction::QuitGame, false, 0, 0);
    assert_eq!(pending, Some(ConfirmAction::QuitGame));
    assert_eq!(action, None);
    let (_, _, pending2, action) = press_menu_button(s, p, pending, ButtonAction::ConfirmProceed, false, 0, 0);
    assert_eq!(pending2, None);
    assert_eq!(action, Some(MenuAction::Send(UiMenuAction::QuitGame)));

    let (s, p, pending, _) = press_menu_button(state, PauseMenuPage::Status, None, ButtonAction::BackToMainMenu, false, 0, 0);
    assert_eq!(pending, Some(ConfirmAction::BackToMainMenu));
    let (s, p, pending, action) = press_menu_button(s, p, pending, ButtonAction::ConfirmCancel, false, 0, 0);
    assert_eq!(pending, None);
    assert_eq!(action, None);
    let (_, _, _, action) = press_menu_button(s, p, pending, ButtonAction::ConfirmProceed, false, 0, 0);
    assert_eq!(action, None);
}

#[test]
fn open_selection_clamps_and_marks_unseen() {
    let list = items(&["a", "b", "c"]);
    assert_eq!(inventory_open_selection(7, &list), (2, Some("c".to_string())));
    assert_eq!(inventory_open_selection(1, &list), (1, Some("b".to_string())));
    let mut seen = items(&["a", "b"]);
    seen[1].seen = true;
    assert_eq!(inventory_open_selection(5, &seen), (1, None));
    assert_eq!(inventory_open_selection(3, &[]), (0, None));
}

#[test]
fn release_drops_moves_and_selects() {
    let list = items(&["a", "b", "c"]);
    assert_eq!(inventory_release(2, &list, Some(2), None, true, true), (1, ReleaseAction::Drop { id: "c".to_string() }));
    assert_eq!(inventory_release(0, &list, Some(1), None, true, true), (0, ReleaseAction::Drop { id: "b".to_string() }));
    assert_eq!(
        inventory_release(0, &list, Some(0), Some(2), true, false),
        (2, ReleaseAction::Move { id: "a".to_string(), to_index: 2 })
    );
    assert_eq!(
        inventory_release(2, &list, Some(1), Some(1), true, false),
        (1, ReleaseAction::MarkSeen { id: "b".to_string(), reopen: false })
    );
    assert_eq!(inventory_release(2, &list, Some(1), None, true, false), (2, ReleaseAction::Nothing));
    assert_eq!(
        inventory_release(0, &list, Some(2), Some(2), false, false),
        (2, ReleaseAction::MarkSeen { id: "c".to_string(), reopen: true })
    );
    assert_eq!(inventory_release(0, &list, Some(2), Some(1), false, false), (0, ReleaseAction::Nothing));
    assert_eq!(inventory_release(1, &list, None, Some(1), true, true), (1, ReleaseAction::Nothing));
    assert_eq!(inventory_release(1, &list, Some(9), Some(1), true, true), (1, ReleaseAction::Nothing));
}

#[test]
fn disabled_button_does_nothing() {
    let state = MainMenuState { page: MainMenuPage::Credits, selected_item: Some(1), selected_npc: None };
    for button in [
        ButtonAction::Continue,
        ButtonAction::Play,
        ButtonAction::SelectPage(MainMenuPage::Settings),
        ButtonAction::ConfirmProceed,
    ] {
        let r = press_menu_button(state, PauseMenuPage::Status, Some(ConfirmAction::QuitGame), button, true, 2, 2);
        assert_eq!(r, (state, PauseMenuPage::Status, Some(ConfirmAction::QuitGame), None));
    }
}

#[test]
fn main_menu_continue_is_disabled() {
    let buttons = main_menu_buttons();
    let labels: Vec<&str> = buttons.iter().map(|b| b.0).collect();
    assert_eq!(
        labels,
        vec!["START", "CONTINUE", "CREDITS", "DISCOVERED ITEMS", "PHONE LIST", "SETTINGS", "HOME", "QUIT"]
    );
    for (label, action, disabled) in buttons {
        assert_eq!(disabled, label == "CONTINUE");
        let (_, _, _, sent) =
            press_menu_button(MainMenuState::new(), PauseMenuPage::Status, None, action, disabled, 0, 0);
        if label == "CONTINUE" {
            assert_eq!(sent, None);
        }
        if label == "START" {
            assert_eq!(sent, Some(MenuAction::Send(UiMenuAction::Play)));
        }
    }
}
