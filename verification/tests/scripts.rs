use feverish::asset::{load_rat_bytes, load_ron_script, script_format, ScriptFormat};
use feverish::rat_format::{parse_rat_script, RatScriptAssetLoaderError};
use feverish::script::{RatNodeBuilder, RatOptionBuilder, RatScript, RatScriptBuilder};
use feverish::script_ron::{RatNodeRon, RatOptionRon, RatScriptRon, RatVoiceRon};
use feverish::voice::VoicePreset;

const SAMPLE: &str = "// script: npc.test
// entry: greeting
[greeting]
speaker: mr. d.
text: hey there!
voice: hostile
hook: npc.greeting, npc.any
> who are you? -> identity [id: ask_identity] [hook: npc.option.identity]
> bye [hook: npc.leave]

[identity]
text: i am mr d.
-> greeting
";

fn invalid_message(r: Result<RatScript, RatScriptAssetLoaderError>) -> String {
    match r {
        Err(RatScriptAssetLoaderError::Invalid(m)) => m,
        other => panic!("expected an invalid script, got {:?}", other),
    }
}

#[test]
fn rat_sample_reads_fully() {
    let s = parse_rat_script(SAMPLE, "fallback").unwrap();
    assert_eq!(s.id, "npc.test");
    assert_eq!(s.entry, "greeting");
    assert_eq!(s.nodes.len(), 2);

    let g = s.get_node("greeting").unwrap();
    assert_eq!(g.speaker, "mr. d.");
    assert_eq!(g.text, "hey there!");
    assert_eq!(g.voice, VoicePreset::HostileEntity);
    assert_eq!(g.portrait_path, "models/npc_a/npc_a.png");
    assert_eq!(g.hooks, vec!["npc.greeting".to_string(), "npc.any".to_string()]);
    assert_eq!(g.next, None);
    assert_eq!(g.options.len(), 2);
    assert_eq!(g.options[0].id.as_deref(), Some("ask_identity"));
    assert_eq!(g.options[0].text, "who are you?");
    assert_eq!(g.options[0].next.as_deref(), Some("identity"));
    assert_eq!(g.options[0].hooks, vec!["npc.option.identity".to_string()]);
    assert_eq!(g.options[1].id, None);
    assert_eq!(g.options[1].text, "bye");
    assert_eq!(g.options[1].next, None);
    assert_eq!(g.options[1].hooks, vec!["npc.leave".to_string()]);

    let i = s.get_node("identity").unwrap();
    assert_eq!(i.speaker, "unknown");
    assert_eq!(i.text, "i am mr d.");
    assert_eq!(i.voice, VoicePreset::NeutralNpc);
    assert_eq!(i.next.as_deref(), Some("greeting"));
    assert!(s.get_node("missing").is_none());
}

#[test]
fn rat_fallback_id_and_entry() {
    let s = parse_rat_script("[only]\ntext: hi", "file_stem").unwrap();
    assert_eq!(s.id, "file_stem");
    // the default entry `start` names no node, so the first node is the entry
    assert_eq!(s.entry, "only");
    let s2 = parse_rat_script("// entry: nowhere\n[a]\n[b]", "x").unwrap();
    assert_eq!(s2.entry, "a");
}

#[test]
fn rat_lines_outside_nodes_are_ignored() {
    let s = parse_rat_script("speaker: ghost\n> nothing\n[a]\nvoice: child\nnonsense line", "x").unwrap();
    let a = s.get_node("a").unwrap();
    assert_eq!(a.speaker, "unknown");
    assert_eq!(a.voice, VoicePreset::LostChild);
    assert!(a.options.is_empty());
}

#[test]
fn rat_errors() {
    assert_eq!(invalid_message(parse_rat_script("", "x")), "script does not define any nodes");
    assert_eq!(invalid_message(parse_rat_script("[ ]", "x")), "line 1 has an empty node id");
    assert_eq!(invalid_message(parse_rat_script("[a]\n[a]", "x")), "duplicate node id 'a'");
    assert_eq!(
        invalid_message(parse_rat_script("[a]\n> -> b", "x")),
        "line 2 has an empty option text"
    );
}

#[test]
fn rat_bytes_and_formats() {
    assert!(matches!(load_rat_bytes(&[0xff, 0xfe], "x"), Err(RatScriptAssetLoaderError::Utf8(_))));
    let s = load_rat_bytes(b"[a]\ntext: hi", "stem").unwrap();
    assert_eq!(s.id, "stem");
    assert_eq!(s.get_node("a").unwrap().text, "hi");
    assert!(matches!(script_format("RAT"), Ok(ScriptFormat::Rat)));
    assert!(matches!(script_format("ron"), Ok(ScriptFormat::Ron)));
    match script_format("JSON") {
        Err(RatScriptAssetLoaderError::UnsupportedExtension(e)) => assert_eq!(e, "json"),
        other => panic!("unexpected {:?}", other),
    }
}

fn ron_node(id: &str) -> RatNodeRon {
    RatNodeRon {
        id: id.to_string(),
        speaker: "s".to_string(),
        text: "t".to_string(),
        portrait_path: "p".to_string(),
        voice: RatVoiceRon::LostChild,
        next: None,
        hooks: vec![],
        options: vec![RatOptionRon { id: None, text: "o".to_string(), next: None, hooks: vec![] }],
    }
}

#[test]
fn ron_reading() {
    let ok = RatScriptRon { id: "s".to_string(), entry: "b".to_string(), nodes: vec![ron_node("a"), ron_node("b")] };
    let s = RatScript::try_from_ron(ok).unwrap();
    assert_eq!(s.nodes.len(), 2);
    assert_eq!(s.get_node("a").unwrap().voice, VoicePreset::LostChild);
    assert_eq!(s.get_node("b").unwrap().options[0].text, "o");

    let dup = RatScriptRon { id: "s".to_string(), entry: "a".to_string(), nodes: vec![ron_node("a"), ron_node("a")] };
    assert_eq!(RatScript::try_from_ron(dup).unwrap_err(), "duplicate node id 'a'");

    let missing = RatScriptRon { id: "s".to_string(), entry: "zz".to_string(), nodes: vec![ron_node("a")] };
    assert_eq!(RatScript::try_from_ron(missing).unwrap_err(), "entry node 'zz' not found in script 's'");

    let bad = RatScriptRon { id: "s".to_string(), entry: "zz".to_string(), nodes: vec![] };
    match load_ron_script(bad) {
        Err(RatScriptAssetLoaderError::Invalid(m)) => assert_eq!(m, "entry node 'zz' not found in script 's'"),
        other => panic!("unexpected {:?}", other),
    }
}

#[test]
fn ron_writing_sorts_and_reads_back() {
    let script = RatScriptBuilder::new("s")
        .entry("b")
        .node(RatNodeBuilder::new("b").text("second").next("a"))
        .node(RatNodeBuilder::new("a").text("first").voice(VoicePreset::CorruptedTransmission))
        .node(RatNodeBuilder::new("Z").text("capital"))
        .build();
    let plain = RatScriptRon::from_script(&script);
    let ids: Vec<&str> = plain.nodes.iter().map(|n| n.id.as_str()).collect();
    assert_eq!(ids, vec!["Z", "a", "b"]);
    assert_eq!(plain.nodes[1].voice, RatVoiceRon::CorruptedTransmission);
    let back = RatScript::try_from_ron(plain).unwrap();
    assert_eq!(back.id, "s");
    assert_eq!(back.entry, "b");
    for id in ["a", "b", "Z"] {
        assert_eq!(back.get_node(id).unwrap().text, script.get_node(id).unwrap().text);
        assert_eq!(back.get_node(id).unwrap().next, script.get_node(id).unwrap().next);
    }
}

#[test]
fn builders_assemble_scripts() {
    let o = RatOptionBuilder::new("go").id("opt").goto("next").hook("h1").hook("h2").build();
    assert_eq!(o.id.as_deref(), Some("opt"));
    assert_eq!(o.next.as_deref(), Some("next"));
    assert_eq!(o.hooks, vec!["h1".to_string(), "h2".to_string()]);

    let n = RatNodeBuilder::new("n").build();
    assert_eq!(n.speaker, "unknown");
    assert_eq!(n.portrait_path, "models/npc_a/npc_a.png");
    assert_eq!(n.text, "");

    let s = RatScriptBuilder::new("s")
        .node(RatNodeBuilder::new("x").text("old"))
        .node(RatNodeBuilder::new("y"))
        .node(RatNodeBuilder::new("x").text("new"))
        .build();
    assert_eq!(s.entry, "start");
    assert_eq!(s.nodes.len(), 2);
    assert_eq!(s.nodes[0].id, "x");
    assert_eq!(s.get_node("x").unwrap().text, "new");
    assert!(s.contains_node("y"));
    assert!(!s.contains_node("z"));

    let single = RatScript::single("one", "narrator", "hello");
    assert_eq!(single.entry, "start");
    assert_eq!(single.get_node("start").unwrap().speaker, "narrator");
    assert_eq!(single.get_node("start").unwrap().text, "hello");
}

#[test]
fn voice_names() {
    assert_eq!(VoicePreset::from_name("  HOSTILE "), VoicePreset::HostileEntity);
    assert_eq!(VoicePreset::from_name("hostile_entity"), VoicePreset::HostileEntity);
    assert_eq!(VoicePreset::from_name("child"), VoicePreset::LostChild);
    assert_eq!(VoicePreset::from_name("Lost_Child"), VoicePreset::LostChild);
    assert_eq!(VoicePreset::from_name("glitch"), VoicePreset::CorruptedTransmission);
    assert_eq!(VoicePreset::from_name("corrupted_transmission"), VoicePreset::CorruptedTransmission);
    assert_eq!(VoicePreset::from_name("whisper"), VoicePreset::NeutralNpc);
    assert_eq!("child".parse::<VoicePreset>(), Ok(VoicePreset::LostChild));
}
