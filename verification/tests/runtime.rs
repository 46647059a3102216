use feverish::dialogue::{
    item_response_line, DialogueEffect, RatCommand, RatDialoguePresentation, RatRuntime, RatStart,
};
use feverish::discovery::{
    DiscoveryEntry, DiscoveryInteractionAction, DiscoveryInteractionActor, DiscoveryKind,
};
use feverish::script::{RatNodeBuilder, RatScript, RatScriptBuilder};
use feverish::voice::VoicePreset;

fn hook_names(fx: &[DialogueEffect]) -> Vec<String> {
    fx.iter()
        .filter_map(|e| match e {
            DialogueEffect::Hook(h) => Some(h.hook.clone()),
            _ => None,
        })
        .collect()
}

fn seeded() -> RatRuntime {
    let mut rt = RatRuntime::new();
    rt.seed_builtin_script();
    rt
}

#[test]
fn start_shows_the_entry_node() {
    let mut rt = seeded();
    let fx = rt.handle(RatCommand::Start(RatStart::new("npc.default")), &[]);
    assert!(rt.dialogue_state().active);
    assert_eq!(fx.len(), 5);
    match &fx[0] {
        DialogueEffect::Record(i) => {
            assert_eq!(i.kind, DiscoveryKind::Npc);
            assert_eq!(i.id, "npc.default");
            assert_eq!(i.action, DiscoveryInteractionAction::Inspected);
            assert!(matches!(i.actor, DiscoveryInteractionActor::Player));
            assert_eq!(i.script_id.as_deref(), Some("npc.default"));
            assert_eq!(i.node_id.as_deref(), Some("greeting"));
            assert_eq!(i.note.as_deref(), Some("dialogue.start"));
        }
        other => panic!("unexpected {:?}", other),
    }
    match &fx[1] {
        DialogueEffect::Hook(h) => {
            assert_eq!(h.hook, "npc.default.greeting");
            assert_eq!(h.script_id, "npc.default");
            assert_eq!(h.node_id, "greeting");
            assert_eq!(h.option_id, None);
            assert_eq!(h.target, None);
        }
        other => panic!("unexpected {:?}", other),
    }
    match &fx[2] {
        DialogueEffect::ShowNode { node, show_item_enabled, speak } => {
            assert_eq!(node.id, "greeting");
            assert_eq!(node.options.len(), 3);
            assert!(!show_item_enabled);
            assert!(speak);
        }
        other => panic!("unexpected {:?}", other),
    }
    assert!(matches!(fx[3], DialogueEffect::StopVoice));
    match &fx[4] {
        DialogueEffect::Speak { text, voice, target } => {
            assert_eq!(text, "hey there! i'm mr d.");
            assert_eq!(*voice, VoicePreset::NeutralNpc);
            assert_eq!(*target, None);
        }
        other => panic!("unexpected {:?}", other),
    }
}

#[test]
fn options_lead_on_and_back() {
    let mut rt = seeded();
    rt.handle(RatCommand::Start(RatStart::new("npc.default").target(7)), &[]);
    let fx = rt.handle(RatCommand::Choose(0), &[]);
    assert_eq!(hook_names(&fx), vec!["npc.default.option.identity".to_string()]);
    match &fx[0] {
        DialogueEffect::Hook(h) => {
            assert_eq!(h.option_id.as_deref(), Some("ask_identity"));
            assert_eq!(h.target, Some(7));
        }
        other => panic!("unexpected {:?}", other),
    }
    match &fx[1] {
        DialogueEffect::ShowNode { node, .. } => assert_eq!(node.id, "identity"),
        other => panic!("unexpected {:?}", other),
    }
    match &fx[3] {
        DialogueEffect::Speak { text, target, .. } => {
            assert_eq!(text, "i am mr d!!!!!");
            assert_eq!(*target, Some(7));
        }
        other => panic!("unexpected {:?}", other),
    }
    // the answer has no options: advancing follows its successor
    let fx = rt.handle(RatCommand::Advance, &[]);
    assert_eq!(hook_names(&fx), vec!["npc.default.greeting".to_string()]);
    // leaving: the option has no target and the node no successor
    let fx = rt.handle(RatCommand::Choose(2), &[]);
    assert_eq!(hook_names(&fx), vec!["npc.default.option.leave".to_string()]);
    assert!(matches!(fx[1], DialogueEffect::CloseUi));
    assert!(matches!(fx[2], DialogueEffect::StopVoice));
    assert_eq!(fx.len(), 3);
    assert!(!rt.dialogue_state().active);
}

#[test]
fn advance_at_options_chooses_the_first() {
    let mut a = seeded();
    let mut b = seeded();
    a.handle(RatCommand::Start(RatStart::new("npc.default")), &[]);
    b.handle(RatCommand::Start(RatStart::new("npc.default")), &[]);
    let fa = a.handle(RatCommand::Advance, &[]);
    let fb = b.handle(RatCommand::Choose(0), &[]);
    assert_eq!(format!("{:?}", fa), format!("{:?}", fb));
}

#[test]
fn choosing_past_the_options_picks_the_first() {
    let mut rt = seeded();
    rt.handle(RatCommand::Start(RatStart::new("npc.default")), &[]);
    let fx = rt.handle(RatCommand::Choose(9), &[]);
    assert_eq!(hook_names(&fx), vec!["npc.default.option.identity".to_string()]);
}

#[test]
fn showing_an_item() {
    let items = vec![DiscoveryEntry::new("key", "Old Key")];
    let mut rt = seeded();
    let fx = rt.handle(RatCommand::Start(RatStart::new("npc.default")), &items);
    match &fx[2] {
        DialogueEffect::ShowNode { show_item_enabled, .. } => assert!(show_item_enabled),
        other => panic!("unexpected {:?}", other),
    }
    // the entry after the options opens the picker
    let fx = rt.handle(RatCommand::Choose(3), &items);
    assert_eq!(fx.len(), 2);
    match &fx[0] {
        DialogueEffect::OpenInventoryPicker { script_id, speaker } => {
            assert_eq!(script_id, "npc.default");
            assert_eq!(speaker, "mr. d.");
        }
        other => panic!("unexpected {:?}", other),
    }
    assert!(matches!(fx[1], DialogueEffect::StopVoice));
    // picking the item: no `response_key` node, so the speaker comments on it
    let fx = rt.handle(RatCommand::Choose(0), &items);
    assert_eq!(fx.len(), 4);
    match &fx[0] {
        DialogueEffect::Hook(h) => {
            assert_eq!(h.hook, "dialogue.show_item");
            assert_eq!(h.option_id.as_deref(), Some("key"));
        }
        other => panic!("unexpected {:?}", other),
    }
    match &fx[1] {
        DialogueEffect::SetItemSeen(id) => assert_eq!(id, "key"),
        other => panic!("unexpected {:?}", other),
    }
    match &fx[2] {
        DialogueEffect::Record(i) => {
            assert_eq!(i.kind, DiscoveryKind::Item);
            assert_eq!(i.action, DiscoveryInteractionAction::Shared);
            match &i.actor {
                DiscoveryInteractionActor::Speaker(s) => assert_eq!(s, "mr. d."),
                other => panic!("unexpected {:?}", other),
            }
            assert_eq!(i.option_id.as_deref(), Some("key"));
            assert_eq!(i.note.as_deref(), Some("dialogue.show_item"));
        }
        other => panic!("unexpected {:?}", other),
    }
    match &fx[3] {
        DialogueEffect::ItemResponse { item_index, node, .. } => {
            assert_eq!(*item_index, 0);
            assert_eq!(node.id, "greeting");
        }
        other => panic!("unexpected {:?}", other),
    }
    // any entry over the answer goes back to the node
    let fx = rt.handle(RatCommand::Choose(0), &items);
    assert_eq!(hook_names(&fx), vec!["npc.default.greeting".to_string()]);
}

#[test]
fn item_with_its_own_answer_node() {
    let script = RatScriptBuilder::new("s")
        .entry("a")
        .node(RatNodeBuilder::new("a").text("hello"))
        .node(RatNodeBuilder::new("response_key").text("my key!").hook("got.key"))
        .build();
    let items = vec![DiscoveryEntry::new("key", "Old Key")];
    let mut rt = RatRuntime::new();
    rt.handle(RatCommand::Register(script), &items);
    rt.handle(RatCommand::Start(RatStart::new("s")), &items);
    rt.handle(RatCommand::Choose(0), &items); // node "a" has no options: entry 0 opens the picker
    let fx = rt.handle(RatCommand::Choose(0), &items);
    assert_eq!(hook_names(&fx), vec!["dialogue.show_item".to_string(), "got.key".to_string()]);
    match &fx[2] {
        DialogueEffect::ShowNode { node, .. } => assert_eq!(node.text, "my key!"),
        other => panic!("unexpected {:?}", other),
    }
}

#[test]
fn picker_without_items_does_nothing() {
    let mut rt = seeded();
    rt.handle(RatCommand::Start(RatStart::new("npc.default")), &[]);
    let fx = rt.handle(RatCommand::Choose(3), &[]);
    assert!(fx.is_empty());
    assert!(rt.dialogue_state().active);
}

#[test]
fn headless_conversations_are_quiet() {
    let mut rt = seeded();
    let start = RatStart { presentation: RatDialoguePresentation::Headless, ..RatStart::new("npc.default") };
    let fx = rt.handle(RatCommand::Start(start), &[]);
    assert_eq!(fx.len(), 2);
    assert!(matches!(fx[0], DialogueEffect::Record(_)));
    assert!(matches!(fx[1], DialogueEffect::Hook(_)));
    let fx = rt.handle(RatCommand::Close, &[]);
    assert_eq!(fx.len(), 1);
    assert!(matches!(fx[0], DialogueEffect::StopVoice));
}

#[test]
fn unknown_scripts_and_idle_commands() {
    let mut rt = seeded();
    assert!(rt.handle(RatCommand::Start(RatStart::new("nobody")), &[]).is_empty());
    assert!(!rt.dialogue_state().active);
    assert!(rt.handle(RatCommand::Advance, &[]).is_empty());
    assert!(rt.handle(RatCommand::Choose(0), &[]).is_empty());
    let fx = rt.handle(RatCommand::Close, &[]);
    assert!(matches!(fx[0], DialogueEffect::CloseUi));
    assert!(matches!(fx[1], DialogueEffect::StopVoice));
}

#[test]
fn register_replaces_and_seed_keeps() {
    let mut rt = RatRuntime::new();
    rt.handle(RatCommand::Register(RatScript::single("npc.default", "imposter", "boo")), &[]);
    rt.seed_builtin_script();
    let fx = rt.handle(RatCommand::Start(RatStart::new("npc.default")), &[]);
    match &fx[1] {
        DialogueEffect::ShowNode { node, .. } => assert_eq!(node.speaker, "imposter"),
        other => panic!("unexpected {:?}", other),
    }
    rt.handle(RatCommand::Register(RatScript::single("npc.default", "second", "hi")), &[]);
    let fx = rt.handle(RatCommand::Start(RatStart::new("npc.default")), &[]);
    match &fx[1] {
        DialogueEffect::ShowNode { node, .. } => assert_eq!(node.speaker, "second"),
        other => panic!("unexpected {:?}", other),
    }
}

#[test]
fn load_scripts_replaces_library() {
    let mut rt = seeded();
    rt.load_scripts(vec![RatScript::single("a", "x", "1"), RatScript::single("a", "y", "2")]);
    assert!(rt.handle(RatCommand::Start(RatStart::new("npc.default")), &[]).is_empty());
    let fx = rt.handle(RatCommand::Start(RatStart::new("a")), &[]);
    match &fx[1] {
        DialogueEffect::ShowNode { node, .. } => assert_eq!(node.speaker, "y"),
        other => panic!("unexpected {:?}", other),
    }
}

#[test]
fn item_lines() {
    assert_eq!(item_response_line("Old Key", false), "hmm... Old Key. what is this?");
    assert_eq!(item_response_line("Old Key", true), "hmm... Old Key. i remember this");
}
