use feverish::inventory::{inventory_key, InventoryAction, InventoryKey};
use feverish::discovery::{default_item_meta_path, pickup_commands, DiscoveryEntry, DiscoveryKind, ItemMeta, UiDiscoveryCommand, UiDiscoveryDb, DiscoveryInteractionAction};
use feverish::ending::{next_debug_ending, UiEndingCatalog, UiEndingPayload};
use feverish::menu::{main_menu_page_content, page_line, page_panels, MainMenuPage, MainMenuState, PagePanels};
use feverish::panel::{inventory_entries, node_entries, PanelAction, PanelKey, PanelSession, UiDialogueMode};
use feverish::script::{RatNodeBuilder, RatOptionBuilder};

#[test]
fn menu_pages() {
    let (heading, lines) = main_menu_page_content(MainMenuPage::Home);
    assert_eq!(heading, "SYSTEM STATUS");
    assert_eq!(lines.len(), 6);
    assert_eq!(lines[2], "new game: available");
    let (heading, lines) = main_menu_page_content(MainMenuPage::PhoneList);
    assert_eq!(heading, "PHONE LIST");
    assert_eq!(lines.len(), 8);
    assert_eq!(page_line(MainMenuPage::Credits, 1), "engineering: rust + bevy 0.18");
    assert_eq!(page_line(MainMenuPage::Credits, 40), "");
    assert_eq!(page_panels(MainMenuPage::Settings), PagePanels { terminal: false, gallery: false, settings: true });
    assert_eq!(page_panels(MainMenuPage::DiscoveredItems), PagePanels { terminal: false, gallery: true, settings: false });
    assert_eq!(page_panels(MainMenuPage::Credits), PagePanels { terminal: true, gallery: false, settings: false });
}

#[test]
fn gallery_selection() {
    let mut state = MainMenuState::new();
    state.page = MainMenuPage::DiscoveredItems;
    state.ensure_selection(0, 3);
    assert_eq!(state.selected_item, None);
    state.ensure_selection(2, 3);
    assert_eq!(state.selected_item, Some(0));
    state.selected_item = Some(5);
    state.ensure_selection(2, 3);
    assert_eq!(state.selected_item, Some(0));
    state.selected_item = Some(1);
    state.ensure_selection(2, 3);
    assert_eq!(state.selected_item, Some(1));
    assert_eq!(state.selected_npc, None);

    let mut db = UiDiscoveryDb::default();
    db.upsert(DiscoveryKind::Item, DiscoveryEntry::new("a", "A"));
    db.upsert(DiscoveryKind::Item, DiscoveryEntry::new("b", "B"));
    assert_eq!(state.selected_entry(&db).unwrap().id, "b");
    state.page = MainMenuPage::PhoneList;
    state.ensure_selection(2, 1);
    assert_eq!(state.selected_entry(&db).unwrap().id, "D.");
    state.selected_npc = Some(9);
    assert!(state.selected_entry(&db).is_none());
}

#[test]
fn item_pickup() {
    assert_eq!(default_item_meta_path("lamp"), "items/lamp.item.meta");
    let meta = ItemMeta {
        id: "lamp".to_string(),
        name: "Oil Lamp".to_string(),
        subtitle: "brass".to_string(),
        description: "still warm".to_string(),
    };
    let (upsert, record) = pickup_commands(&meta, "models/lamp.glb");
    match upsert {
        UiDiscoveryCommand::Upsert { kind, entry } => {
            assert_eq!(kind, DiscoveryKind::Item);
            assert_eq!(entry.id, "lamp");
            assert_eq!(entry.title, "Oil Lamp");
            assert_eq!(entry.subtitle, "brass");
            assert_eq!(entry.description, "still warm");
            assert_eq!(entry.model_path.as_deref(), Some("models/lamp.glb#Scene0"));
            assert!(!entry.seen);
        }
        other => panic!("unexpected {:?}", other),
    }
    match record {
        UiDiscoveryCommand::RecordInteraction { interaction } => {
            assert_eq!(interaction.id, "lamp");
            assert_eq!(interaction.action, DiscoveryInteractionAction::Collected);
            assert_eq!(interaction.note.as_deref(), Some("inventory.pickup"));
        }
        other => panic!("unexpected {:?}", other),
    }
}

#[test]
fn debug_ending_cycle() {
    let mut catalog = UiEndingCatalog::new();
    let mut index = 0usize;
    assert_eq!(next_debug_ending(&catalog, &mut index), None);
    assert_eq!(index, 0);
    catalog.upsert(UiEndingPayload::new("one"));
    catalog.upsert(UiEndingPayload::new("two"));
    assert_eq!(next_debug_ending(&catalog, &mut index).as_deref(), Some("one"));
    assert_eq!(next_debug_ending(&catalog, &mut index).as_deref(), Some("two"));
    assert_eq!(next_debug_ending(&catalog, &mut index).as_deref(), Some("one"));
    assert_eq!(index, 3);
    let mut top = usize::MAX;
    next_debug_ending(&catalog, &mut top);
    assert_eq!(top, 0);
}

fn standard_session(revealed: usize) -> PanelSession {
    let node = RatNodeBuilder::new("n")
        .option(RatOptionBuilder::new("one"))
        .option(RatOptionBuilder::new("two"))
        .build();
    PanelSession {
        mode: UiDialogueMode::Standard,
        options: node_entries(&node, true),
        selected: 0,
        revealed,
        text_len: 10,
    }
}

#[test]
fn panel_keys_while_typing() {
    let mut s = standard_session(3);
    assert_eq!(s.key(PanelKey::Next), PanelAction::Nothing);
    assert_eq!(s.selected, 0);
    assert_eq!(s.key(PanelKey::Confirm), PanelAction::RevealedAll);
    assert_eq!(s.revealed, 10);
    assert_eq!(s.key(PanelKey::Close), PanelAction::CloseConversation);
}

#[test]
fn panel_keys_choose() {
    let mut s = standard_session(10);
    assert_eq!(s.key(PanelKey::Previous), PanelAction::Moved);
    assert_eq!(s.selected, 2);
    assert_eq!(s.key(PanelKey::Next), PanelAction::Moved);
    assert_eq!(s.selected, 0);
    assert_eq!(s.key(PanelKey::Next), PanelAction::Moved);
    assert_eq!(s.key(PanelKey::Confirm), PanelAction::Choose(1));
    assert_eq!(s.key(PanelKey::Drop), PanelAction::Nothing);
    assert_eq!(s.advance(), PanelAction::Choose(1));
    assert_eq!(s.click(), PanelAction::Nothing);

    let mut empty = PanelSession { mode: UiDialogueMode::Standard, options: vec![], selected: 0, revealed: 4, text_len: 4 };
    assert_eq!(empty.key(PanelKey::Confirm), PanelAction::Advance);
    assert_eq!(empty.click(), PanelAction::Advance);
    assert_eq!(empty.advance(), PanelAction::Advance);
    let mut typing = PanelSession { mode: UiDialogueMode::Standard, options: vec![], selected: 0, revealed: 1, text_len: 4 };
    assert_eq!(typing.click(), PanelAction::RevealedAll);
    assert_eq!(typing.revealed, 4);
}

#[test]
fn panel_inventory_keys() {
    let items = vec![DiscoveryEntry::new("key", "Old Key"), DiscoveryEntry::new("lamp", "Lamp")];
    let mut s = PanelSession {
        mode: UiDialogueMode::Inventory,
        options: inventory_entries(&items),
        selected: 1,
        revealed: 0,
        text_len: 0,
    };
    assert_eq!(s.key(PanelKey::Confirm), PanelAction::Choose(1));
    assert_eq!(s.key(PanelKey::Drop), PanelAction::Dropped("lamp".to_string()));
    assert_eq!(s.options.len(), 2);
    assert_eq!(s.selected, 0);
    assert_eq!(s.key(PanelKey::Next), PanelAction::Moved);
    assert_eq!(s.selected, 1);
    // "back" is selected: dropping does nothing, confirming chooses it
    assert_eq!(s.key(PanelKey::Drop), PanelAction::Nothing);
    assert_eq!(s.key(PanelKey::Confirm), PanelAction::Choose(1));
}

fn five_items() -> Vec<DiscoveryEntry> {
    ["a", "b", "c", "d", "e"].iter().map(|id| DiscoveryEntry::new(id, id)).collect()
}

#[test]
fn inventory_grid_moves() {
    let items = five_items();
    assert_eq!(inventory_key(0, &items, InventoryKey::Left), (0, InventoryAction::Nothing));
    assert_eq!(inventory_key(0, &items, InventoryKey::Right), (1, InventoryAction::Reopen));
    assert_eq!(inventory_key(1, &items, InventoryKey::Down), (4, InventoryAction::Reopen));
    assert_eq!(inventory_key(3, &items, InventoryKey::Down), (4, InventoryAction::Reopen));
    assert_eq!(inventory_key(4, &items, InventoryKey::Down), (4, InventoryAction::Nothing));
    assert_eq!(inventory_key(4, &items, InventoryKey::Up), (1, InventoryAction::Reopen));
    assert_eq!(inventory_key(2, &items, InventoryKey::Up), (0, InventoryAction::Reopen));
    assert_eq!(inventory_key(9, &items, InventoryKey::Right), (4, InventoryAction::Nothing));
    assert_eq!(inventory_key(2, &items, InventoryKey::Close), (2, InventoryAction::Close));
    assert_eq!(inventory_key(2, &[], InventoryKey::Right), (2, InventoryAction::Nothing));
}

#[test]
fn inventory_drop_and_move() {
    let items = five_items();
    assert_eq!(inventory_key(2, &items, InventoryKey::Drop), (2, InventoryAction::Drop { id: "c".to_string() }));
    assert_eq!(inventory_key(4, &items, InventoryKey::Drop), (3, InventoryAction::Drop { id: "e".to_string() }));
    assert_eq!(
        inventory_key(2, &items, InventoryKey::MoveBack),
        (1, InventoryAction::Move { id: "c".to_string(), to_index: 1 })
    );
    assert_eq!(inventory_key(0, &items, InventoryKey::MoveBack), (0, InventoryAction::Nothing));
    assert_eq!(
        inventory_key(2, &items, InventoryKey::MoveForward),
        (3, InventoryAction::Move { id: "c".to_string(), to_index: 3 })
    );
    assert_eq!(inventory_key(4, &items, InventoryKey::MoveForward), (4, InventoryAction::Nothing));
    let one = vec![DiscoveryEntry::new("x", "X")];
    assert_eq!(inventory_key(0, &one, InventoryKey::Drop), (0, InventoryAction::Drop { id: "x".to_string() }));
}
