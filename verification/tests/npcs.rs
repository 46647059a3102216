use feverish::dialogue::RatDialoguePresentation;
use feverish::npc::{build_nav_path, HookReaction, NpcState, WalkEnd, WalkNode};

fn node(name: &str, entity: u64, target: &str) -> WalkNode {
    WalkNode { name: name.to_string(), entity, target: target.to_string() }
}

#[test]
fn nav_paths_follow_targets() {
    let nodes = vec![node("b", 2, "c"), node("a", 1, "b"), node("c", 3, "nowhere"), node("b", 9, "a")];
    assert_eq!(build_nav_path("a", &nodes), vec![1, 2, 3]);
    assert_eq!(build_nav_path("c", &nodes), vec![3]);
    assert_eq!(build_nav_path("zz", &nodes), Vec::<u64>::new());
}

#[test]
fn lure_wait_and_walk_back() {
    let mut npc = NpcState::new(Some("npc.default".to_string()), vec![10, 11, 12]);
    let start = npc.on_use(7).unwrap();
    assert_eq!(start.script_id, "npc.default");
    assert_eq!(start.target, Some(7));
    assert_eq!(start.presentation, RatDialoguePresentation::Interactive);

    let r = npc.on_hook("game.lure");
    assert_eq!(r, HookReaction { end_lure_timers: true, start_walk: true, die: false });
    assert_eq!(npc.queue, vec![12, 11, 10]);
    npc.on_walk_start();
    assert!(npc.on_use(7).is_none());
    assert_eq!(npc.on_node_reached(true), WalkEnd::Walking);
    assert_eq!(npc.on_node_reached(false), WalkEnd::Walking);
    assert_eq!(npc.on_node_reached(false), WalkEnd::Destination);
    npc.on_arrived_destination();
    assert_eq!(npc.script_id.as_deref(), Some("npc.default.lured"));

    npc.on_walkback_finished();
    assert_eq!(npc.queue, vec![10, 11, 12]);
    npc.on_walk_start();
    npc.on_node_reached(false);
    npc.on_node_reached(false);
    assert_eq!(npc.on_node_reached(true), WalkEnd::Home);
    npc.on_arrived_home();
    assert_eq!(npc.script_id.as_deref(), Some("npc.default"));
    assert_eq!(npc.on_node_reached(true), WalkEnd::Walking);
}

#[test]
fn kill_and_spare() {
    let mut npc = NpcState::new(Some("s".to_string()), vec![1, 2]);
    assert_eq!(npc.on_hook("game.spare"), HookReaction { end_lure_timers: false, start_walk: true, die: false });
    assert_eq!(npc.queue, vec![1, 2]);
    assert_eq!(npc.on_hook("game.kill"), HookReaction { end_lure_timers: false, start_walk: false, die: true });
    assert!(npc.despawning);
    assert!(npc.script_id.is_none());
    assert_eq!(npc.on_hook("game.kill"), HookReaction { end_lure_timers: false, start_walk: false, die: false });
    assert_eq!(npc.on_hook("game.lure"), HookReaction { end_lure_timers: true, start_walk: false, die: false });
    assert_eq!(npc.queue, vec![1, 2]);
    assert_eq!(npc.on_hook("npc.default.greeting"), HookReaction { end_lure_timers: false, start_walk: false, die: false });
}
