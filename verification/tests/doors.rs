use feverish::sky::{apply_constellation, ConstellationCommand, MarcusType, FLAG_PROC_A};
use feverish::door::{end_door_ending, level_scene_path, portal_transition, DoorBase, DoorSignal};
use feverish::npc::SuspectType;

#[test]
fn doors_open_close_and_lock() {
    let mut door = DoorBase::default();
    assert!(!door.open);
    let mut signal = DoorSignal { hook: Some("door.first".to_string()), hook_repeat: false, count: 0 };
    let u = door.use_door(&mut signal);
    assert_eq!(u.hook.as_deref(), Some("door.first"));
    assert_eq!(u.swing_open, Some(true));
    assert_eq!(u.sound, "audio/door_open.ogg");
    assert!(door.open);
    assert_eq!(signal.count, 1);

    let u = door.use_door(&mut signal);
    assert_eq!(u.hook, None);
    assert_eq!(u.swing_open, Some(false));
    assert_eq!(u.sound, "audio/door_close.ogg");
    assert!(!door.open);
    assert_eq!(signal.count, 1);

    door.locked = true;
    let mut repeat = DoorSignal { hook: Some("knock".to_string()), hook_repeat: true, count: 5 };
    let u = door.use_door(&mut repeat);
    assert_eq!(u.hook.as_deref(), Some("knock"));
    assert_eq!(u.swing_open, None);
    assert_eq!(u.sound, "audio/door_locked.ogg");
    assert!(!door.open);
    assert_eq!(repeat.count, 6);
}

#[test]
fn portals_and_endings() {
    assert_eq!(level_scene_path("exterior"), "maps/exterior.map#Scene");
    let t = portal_transition(&Some("hallway".to_string()), "back_door");
    assert_eq!(t.scene, "maps/hallway.map#Scene");
    assert_eq!(t.portal_target, "back_door");

    assert_eq!(end_door_ending(false, &[Some(SuspectType::Human)]), None);
    assert_eq!(end_door_ending(true, &[None, Some(SuspectType::Human)]), Some("win_spared"));
    assert_eq!(end_door_ending(true, &[Some(SuspectType::Imposter), None]), Some("win_killed"));
    assert_eq!(end_door_ending(true, &[]), Some("win_killed"));
}

#[test]
fn constellation_flags() {
    assert_eq!(MarcusType::Panicking.flag(), 4);
    assert_eq!(MarcusType::Leaning.flag(), 8);
    assert_eq!(MarcusType::Lounging.flag(), 1);
    assert_eq!(MarcusType::Lonely.flag(), 16);
    let f = apply_constellation(FLAG_PROC_A, ConstellationCommand::Activate(MarcusType::Panicking));
    assert_eq!(f, 6);
    let f = apply_constellation(f, ConstellationCommand::Activate(MarcusType::Lonely));
    assert_eq!(f, 22);
    let f = apply_constellation(f, ConstellationCommand::Deactivate(MarcusType::Panicking));
    assert_eq!(f, 18);
    assert_eq!(apply_constellation(f, ConstellationCommand::Reset), 2);
}
