use feverish::discovery::DiscoveryEntry;
use feverish::panel::{
    cycle_selection, drop_selected_item, estimated_wrapped_lines, has_quick_actions,
    inventory_entries, node_entries, prompt_text, quick_action_label, selected_item_option_index,
    slot_label_with_ellipsis, slot_text, UiDialogueMode,
};
use feverish::script::{RatNodeBuilder, RatOptionBuilder};

#[test]
fn wrapped_line_estimates() {
    assert_eq!(estimated_wrapped_lines("", 10), 1);
    assert_eq!(estimated_wrapped_lines("hello world", 11), 1);
    assert_eq!(estimated_wrapped_lines("hello world", 5), 2);
    assert_eq!(estimated_wrapped_lines("a\nb", 10), 2);
    assert_eq!(estimated_wrapped_lines("\n", 5), 2);
    assert_eq!(estimated_wrapped_lines("abcdefghij", 3), 4);
    assert_eq!(estimated_wrapped_lines("abcdef", 3), 2);
    assert_eq!(estimated_wrapped_lines("ab", 0), 2);
    assert_eq!(estimated_wrapped_lines("  lots   of   space  ", 20), 1);
    assert_eq!(estimated_wrapped_lines("x abcdefg", 3), 4);
}

#[test]
fn slot_labels_get_an_ellipsis() {
    assert_eq!(slot_label_with_ellipsis("short", 20, 2), "short");
    assert_eq!(slot_label_with_ellipsis("aaaa bbbb cccc", 5, 1), "aaaa…");
    assert_eq!(slot_label_with_ellipsis("abcdef", 3, 1), "ab…");
    assert_eq!(slot_label_with_ellipsis("   ", 0, 0), "…");
    let long = "x".repeat(140);
    let cut = slot_label_with_ellipsis(&long, 200, 1);
    assert_eq!(cut, format!("{}…", "x".repeat(132)));
}

#[test]
fn quick_actions() {
    assert_eq!(quick_action_label("  Show Item... "), Some("show item"));
    assert_eq!(quick_action_label("I should go."), Some("leave"));
    assert_eq!(quick_action_label("LEAVE now"), Some("leave"));
    assert_eq!(quick_action_label("who are you?"), None);
}

fn greeting() -> feverish::script::RatNode {
    RatNodeBuilder::new("greeting")
        .option(RatOptionBuilder::new("who are you?"))
        .option(RatOptionBuilder::new("i should go."))
        .build()
}

#[test]
fn panel_entries() {
    let entries = node_entries(&greeting(), false);
    assert_eq!(entries.len(), 3);
    assert_eq!(entries[0].text, "who are you?");
    assert!(entries[0].enabled);
    assert_eq!(entries[2].text, "Show item...");
    assert!(!entries[2].enabled);
    assert!(has_quick_actions(&entries));
    assert!(!has_quick_actions(&entries[..1]));

    let items = vec![DiscoveryEntry::new("key", "Old Key").seen(true), DiscoveryEntry::new("lamp", "Lamp")];
    let inv = inventory_entries(&items);
    assert_eq!(inv.len(), 3);
    assert_eq!(inv[0].text, "Old Key");
    assert_eq!(inv[0].item_id.as_deref(), Some("key"));
    assert!(inv[0].seen);
    assert_eq!(inv[0].preview.as_ref().unwrap().title, "Old Key");
    assert_eq!(inv[2].text, "back");
    assert_eq!(inv[2].item_id, None);
}

#[test]
fn slot_text_and_prompts() {
    let entries = node_entries(&greeting(), true);
    assert_eq!(slot_text(0, &entries, UiDialogueMode::Standard), "1 / 3  who are you?");
    assert_eq!(slot_text(5, &entries, UiDialogueMode::Standard), "no choices");
    let items = vec![DiscoveryEntry::new("key", "Old Key").seen(true)];
    let inv = inventory_entries(&items);
    assert_eq!(slot_text(0, &inv, UiDialogueMode::Inventory), "1 / 2  Old Key [shown]");
    assert_eq!(slot_text(0, &inv, UiDialogueMode::Standard), "1 / 2  Old Key");

    assert_eq!(prompt_text(UiDialogueMode::Inventory, true, &inv), "a/d: browse | enter: show | q: drop");
    assert_eq!(prompt_text(UiDialogueMode::Standard, true, &entries), "e/enter/click: skip");
    assert_eq!(prompt_text(UiDialogueMode::Standard, false, &[]), "e/enter/click: continue");
    assert_eq!(
        prompt_text(UiDialogueMode::Standard, false, &entries),
        "a/d or arrows: switch | enter: choose | click: quick action"
    );
    assert_eq!(prompt_text(UiDialogueMode::Standard, false, &entries[..1]), "e/enter/click: continue");
    assert_eq!(
        prompt_text(UiDialogueMode::Standard, false, &entries[1..2]),
        "enter: choose | click: quick action"
    );
    assert_eq!(prompt_text(UiDialogueMode::Standard, false, &inv), "a/d or arrows: switch | enter: choose");
}

#[test]
fn cycling_wraps_around() {
    assert_eq!(cycle_selection(0, 3, -1), 2);
    assert_eq!(cycle_selection(2, 3, 1), 0);
    assert_eq!(cycle_selection(1, 3, 1), 2);
    assert_eq!(cycle_selection(1, 1, 5), 1);
    assert_eq!(cycle_selection(0, 4, -5), 3);
}

#[test]
fn dropping_items() {
    let items = vec![DiscoveryEntry::new("key", "Old Key"), DiscoveryEntry::new("lamp", "Lamp")];
    let mut inv = inventory_entries(&items);
    assert_eq!(selected_item_option_index(&inv, 1), Some(1));
    assert_eq!(selected_item_option_index(&inv, 2), None);
    assert!(drop_selected_item(&mut inv, 2).is_none());
    assert_eq!(inv.len(), 3);

    let (id, sel) = drop_selected_item(&mut inv, 1).unwrap();
    assert_eq!(id, "lamp");
    assert_eq!(sel, 0);
    assert_eq!(inv.len(), 2);
    assert_eq!(inv[1].text, "back");

    let (id, sel) = drop_selected_item(&mut inv, 0).unwrap();
    assert_eq!(id, "key");
    assert_eq!(inv.len(), 1);
    assert_eq!(inv[0].text, "back");
    assert_eq!(sel, 0);
}

#[test]
fn slot_label_fits_and_keeps_a_prefix() {
    let labels = ["the quick brown fox jumps over the lazy dog", "abcdefghij", "a b c d e f g h", "word    another"];
    for label in labels {
        for (cap, lines) in [(4usize, 1usize), (6, 2), (10, 1), (3, 3)] {
            let shown = slot_label_with_ellipsis(label, cap, lines);
            if shown != label {
                assert!(shown.ends_with('…'));
                let before = &shown[..shown.len() - '…'.len_utf8()];
                assert!(label.starts_with(before));
                assert!(estimated_wrapped_lines(&shown, cap) <= lines);
            }
        }
    }
}
