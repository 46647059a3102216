use feverish::discovery::{DiscoveryEntry, DiscoveryKind, UiDiscoveryCommand, UiDiscoveryDb};
use feverish::ending::{
    default_endings, hold_bar_text, EndingAction, UiEndingCatalog, UiEndingCommand, UiEndingPayload,
};
use feverish::settings::SettingKey;

#[test]
fn discovery_db_starts_with_mr_d() {
    let db = UiDiscoveryDb::default();
    assert_eq!(db.revision(), 1);
    assert!(db.entries(DiscoveryKind::Item).is_empty());
    let npcs = db.entries(DiscoveryKind::Npc);
    assert_eq!(npcs.len(), 1);
    assert_eq!(npcs[0].id, "D.");
    assert_eq!(npcs[0].title, "Mr. D.");
    assert_eq!(npcs[0].subtitle, "room 400");
    assert!(npcs[0].seen);
}

#[test]
fn discovery_upsert_remove_seen() {
    let mut db = UiDiscoveryDb::default();
    db.upsert(DiscoveryKind::Item, DiscoveryEntry::new("key", "Old Key"));
    db.upsert(DiscoveryKind::Item, DiscoveryEntry::new("lamp", "Lamp"));
    assert_eq!(db.revision(), 3);
    db.upsert(DiscoveryKind::Item, DiscoveryEntry::new("key", "Rusty Key").description("bent"));
    let items = db.entries(DiscoveryKind::Item);
    assert_eq!(items.len(), 2);
    assert_eq!(items[0].id, "key");
    assert_eq!(items[0].title, "Rusty Key");
    assert_eq!(items[0].description, "bent");
    assert_eq!(db.revision(), 4);

    assert!(db.set_seen(DiscoveryKind::Item, "key", true));
    assert!(db.entries(DiscoveryKind::Item)[0].seen);
    assert_eq!(db.revision(), 5);
    // no change of the flag: the revision stays
    assert!(db.set_seen(DiscoveryKind::Item, "key", true));
    assert_eq!(db.revision(), 5);
    assert!(!db.set_seen(DiscoveryKind::Item, "ghost", true));

    assert!(db.remove(DiscoveryKind::Item, "key"));
    assert_eq!(db.revision(), 6);
    assert!(!db.remove(DiscoveryKind::Item, "key"));
    assert_eq!(db.revision(), 6);
    assert_eq!(db.entries(DiscoveryKind::Item).len(), 1);
    assert_eq!(db.entries(DiscoveryKind::Npc).len(), 1);
}

#[test]
fn discovery_commands() {
    let mut db = UiDiscoveryDb::default();
    db.apply(UiDiscoveryCommand::Upsert { kind: DiscoveryKind::Item, entry: DiscoveryEntry::new("a", "A") });
    db.apply(UiDiscoveryCommand::SetSeen { kind: DiscoveryKind::Item, id: "a".to_string(), seen: true });
    assert!(db.entries(DiscoveryKind::Item)[0].seen);
    let r = db.revision();
    db.apply(UiDiscoveryCommand::DropItem { id: "a".to_string() });
    assert_eq!(db.revision(), r);
    assert_eq!(db.entries(DiscoveryKind::Item).len(), 1);
    db.apply(UiDiscoveryCommand::ClearKind { kind: DiscoveryKind::Npc });
    assert!(db.entries(DiscoveryKind::Npc).is_empty());
    assert_eq!(db.revision(), r + 1);
    db.apply(UiDiscoveryCommand::Remove { kind: DiscoveryKind::Item, id: "a".to_string() });
    assert!(db.entries(DiscoveryKind::Item).is_empty());
}

#[test]
fn discovery_entry_builders() {
    let e = DiscoveryEntry::new("id", "Title")
        .subtitle("sub")
        .description("desc")
        .image_path("img.png")
        .model_path("m.glb")
        .seen(true);
    assert_eq!(e.subtitle, "sub");
    assert_eq!(e.description, "desc");
    assert_eq!(e.image_path.as_deref(), Some("img.png"));
    assert_eq!(e.model_path.as_deref(), Some("m.glb"));
    assert!(e.seen);
    let d = DiscoveryEntry::default();
    assert_eq!(d.id, "");
    assert!(!d.seen);
}

#[test]
fn ending_payload_defaults_and_builders() {
    let p = UiEndingPayload::new("x");
    assert_eq!(p.id, "x");
    assert_eq!(p.title, "END // UNKNOWN");
    assert_eq!(p.subtitle, "archive pending");
    assert_eq!(p.narrative, "No narrative provided.");
    assert_eq!(p.status_lines, vec!["timeline integrity: [reconstructing]".to_string()]);
    let p = p.title("T").subtitle("S").narrative("N").status_lines(&["one", "two"]);
    assert_eq!(p.title, "T");
    assert_eq!(p.subtitle, "S");
    assert_eq!(p.narrative, "N");
    assert_eq!(p.status_lines, vec!["one".to_string(), "two".to_string()]);
}

#[test]
fn ending_catalog_keeps_first_order() {
    let mut c = UiEndingCatalog::default();
    c.upsert(UiEndingPayload::new("b"));
    c.upsert(UiEndingPayload::new("a"));
    c.upsert(UiEndingPayload::new("b").title("B again"));
    assert_eq!(c.debug_ids(), vec!["b".to_string(), "a".to_string()]);
    assert_eq!(c.get("b").unwrap().title, "B again");
    c.remove("b");
    assert!(c.get("b").is_none());
    assert_eq!(c.debug_ids(), vec!["a".to_string()]);
    c.remove("missing");
    assert_eq!(c.debug_ids(), vec!["a".to_string()]);
}

#[test]
fn ending_defaults_fill_only_empty_catalogs() {
    let d = default_endings();
    assert_eq!(d.len(), 1);
    assert_eq!(d[0].id, "collapse");
    assert_eq!(d[0].title, "END | SIGNAL COLLAPSE");
    assert_eq!(d[0].subtitle, "your mind broke before sunrise");
    assert_eq!(d[0].narrative, "You never had the chance to get out of there.");
    assert_eq!(d[0].status_lines, vec!["timeline integrity: fragmented".to_string()]);

    let mut c = UiEndingCatalog::new();
    c.populate_defaults();
    assert_eq!(c.debug_ids(), vec!["collapse".to_string()]);

    let mut other = UiEndingCatalog::new();
    other.upsert(UiEndingPayload::new("mine"));
    other.populate_defaults();
    assert_eq!(other.debug_ids(), vec!["mine".to_string()]);
}

#[test]
fn ending_commands() {
    let mut c = UiEndingCatalog::new();
    assert!(matches!(c.apply(UiEndingCommand::Upsert(UiEndingPayload::new("e"))), EndingAction::Nothing));
    match c.apply(UiEndingCommand::Show { id: "e".to_string() }) {
        EndingAction::Open(p) => assert_eq!(p.id, "e"),
        other => panic!("unexpected {:?}", other),
    }
    assert!(matches!(c.apply(UiEndingCommand::Show { id: "nope".to_string() }), EndingAction::Nothing));
    match c.apply(UiEndingCommand::ShowPayload(UiEndingPayload::new("adhoc"))) {
        EndingAction::Open(p) => assert_eq!(p.id, "adhoc"),
        other => panic!("unexpected {:?}", other),
    }
    assert!(c.get("adhoc").is_none());
    assert!(matches!(c.apply(UiEndingCommand::Close), EndingAction::Close));
    c.apply(UiEndingCommand::Remove { id: "e".to_string() });
    assert!(c.debug_ids().is_empty());
}

#[test]
fn hold_bar() {
    assert_eq!(hold_bar_text(0), format!("hold to continue [{}]", "·".repeat(14)));
    assert_eq!(hold_bar_text(3), format!("hold to continue [{}{}]", "■".repeat(3), "·".repeat(11)));
    assert_eq!(hold_bar_text(14), format!("hold to continue [{}]", "■".repeat(14)));
    assert_eq!(hold_bar_text(40), format!("hold to continue [{}]", "■".repeat(14)));
}

#[test]
fn setting_labels() {
    assert_eq!(SettingKey::ALL.len(), 9);
    assert_eq!(SettingKey::MasterVolume.label(), "master volume");
    assert_eq!(SettingKey::UiSfxVolume.label(), "ui sfx volume");
    assert_eq!(SettingKey::UiScale.label(), "manual ui scale");
    assert_eq!(SettingKey::ALL[8].label(), "cursor motion");
    assert_eq!(SettingKey::ALL[0], SettingKey::MasterVolume);
}
