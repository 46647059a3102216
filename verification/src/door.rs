//! Doors: using a door fires its hook (once, or every time), opens or closes it
//! unless it is locked, and picks the sound to play; portal doors lead to another
//! level; the end door picks the ending.

use vstd::prelude::*;

use crate::npc::SuspectType;
use crate::script::{clone_opt_str, clone_str, opt_str, owned};
use crate::script_ron::text3;

verus! {

/// What a door is.
pub struct DoorModel {
    pub open: bool,
    pub locked: bool,
    pub sound_locked: Seq<char>,
    pub sound_open: Seq<char>,
    pub sound_close: Seq<char>,
}

/// The state every door shares: open or closed, locked or not, and its sounds.
#[derive(Debug)]
pub struct DoorBase {
    pub open: bool,
    pub locked: bool,
    pub sound_locked: String,
    pub sound_open: String,
    pub sound_close: String,
}

impl View for DoorBase {
    type V = DoorModel;

    open spec fn view(&self) -> DoorModel {
        DoorModel {
            open: self.open,
            locked: self.locked,
            sound_locked: self.sound_locked@,
            sound_open: self.sound_open@,
            sound_close: self.sound_close@,
        }
    }
}

impl Default for DoorBase {
    /// A closed, unlocked door with the standard sounds.
    fn default() -> (r: Self)
        ensures
            r@ == (DoorModel {
                open: false,
                locked: false,
                sound_locked: "audio/door_locked.ogg"@,
                sound_open: "audio/door_open.ogg"@,
                sound_close: "audio/door_close.ogg"@,
            }),
    {
        DoorBase {
            open: false,
            locked: false,
            sound_locked: owned("audio/door_locked.ogg"),
            sound_open: owned("audio/door_open.ogg"),
            sound_close: owned("audio/door_close.ogg"),
        }
    }
}

/// The hook a door fires when used: its name, whether it fires on every use or
/// only on the first, and how many times it fired.
#[derive(Debug)]
pub struct DoorSignal {
    pub hook: Option<String>,
    pub hook_repeat: bool,
    pub count: u64,
}

/// What using a door does: the hook fired, the swing started (towards open or
/// closed) and the sound played.
#[derive(Debug)]
pub struct DoorUse {
    pub hook: Option<String>,
    pub swing_open: Option<bool>,
    pub sound: String,
}

/// The door after a use: an open door closes; a closed door opens unless locked.
pub open spec fn used_door(m: DoorModel) -> DoorModel {
    if m.open {
        DoorModel { open: false, ..m }
    } else if m.locked {
        m
    } else {
        DoorModel { open: true, ..m }
    }
}

impl DoorBase {
    /// Uses the door. The hook fires on the first use, or on every use when it
    /// repeats, and the count goes up then; an open door closes; a closed door
    /// opens unless it is locked, which only plays the locked sound.
    pub fn use_door(&mut self, signal: &mut DoorSignal) -> (r: DoorUse)
        requires
            old(signal).count < u64::MAX,
        ensures
            ({
                let fires = old(signal).count == 0 || old(signal).hook_repeat;
                &&& opt_str(r.hook) == if fires {
                    opt_str(old(signal).hook)
                } else {
                    None
                }
                &&& final(signal).count == if fires {
                    old(signal).count + 1
                } else {
                    old(signal).count as int
                }
                &&& opt_str(final(signal).hook) == opt_str(old(signal).hook)
                &&& final(signal).hook_repeat == old(signal).hook_repeat
            }),
            final(self)@ == used_door(old(self)@),
            old(self)@.open ==> final(self)@ == (DoorModel { open: false, ..old(self)@ })
                && r.swing_open == Some(false) && r.sound@ == old(self)@.sound_close,
            !old(self)@.open && old(self)@.locked ==> final(self)@ == old(self)@ && r.swing_open
                is None && r.sound@ == old(self)@.sound_locked,
            !old(self)@.open && !old(self)@.locked ==> final(self)@ == (DoorModel {
                open: true,
                ..old(self)@
            }) && r.swing_open == Some(true) && r.sound@ == old(self)@.sound_open,
    {
        let mut hook: Option<String> = None;
        if signal.count == 0 || signal.hook_repeat {
            hook = clone_opt_str(&signal.hook);
            signal.count = signal.count + 1;
        }
        if self.open {
            self.open = false;
            DoorUse { hook, swing_open: Some(false), sound: clone_str(&self.sound_close) }
        } else if self.locked {
            DoorUse { hook, swing_open: None, sound: clone_str(&self.sound_locked) }
        } else {
            self.open = true;
            DoorUse { hook, swing_open: Some(true), sound: clone_str(&self.sound_open) }
        }
    }
}

/// The scene of a level.
pub open spec fn level_scene_spec(level: Seq<char>) -> Seq<char> {
    "maps/"@ + level + ".map#Scene"@
}

/// The scene of a level, which portal doors load.
pub fn level_scene_path(level: &str) -> (r: String)
    ensures
        r@ == level_scene_spec(level@),
{
    text3("maps/", level, ".map#Scene")
}

/// A pending move to another level: the scene to load and the portal target to
/// appear at.
#[derive(Debug)]
pub struct LevelTransition {
    pub scene: String,
    pub portal_target: String,
}

/// The move a portal door leads to: the scene of its level and the name of its
/// target. A portal needs a level (moving within a level is not supported).
pub fn portal_transition(level: &Option<String>, target: &str) -> (r: LevelTransition)
    requires
        level is Some,
    ensures
        r.scene@ == level_scene_spec(level->0@),
        r.portal_target@ == target@,
{
    match level {
        Some(l) => LevelTransition { scene: level_scene_path(l.as_str()), portal_target: owned(target) },
        None => LevelTransition { scene: owned(""), portal_target: owned(target) },
    }
}

/// The ending the end door shows: once the game is won, `win_spared` when a
/// human suspect is still among the people, else `win_killed`; before that,
/// none.
pub open spec fn end_door_spec(won: bool, suspects: Seq<Option<SuspectType>>) -> Option<Seq<char>> {
    if !won {
        None
    } else if exists|i: int| 0 <= i < suspects.len() && #[trigger] suspects[i] == Some(
        SuspectType::Human,
    ) {
        Some("win_spared"@)
    } else {
        Some("win_killed"@)
    }
}

/// The ending the end door shows (see `end_door_spec`); `suspects` lists what each
/// remaining person is marked as.
pub fn end_door_ending(won: bool, suspects: &[Option<SuspectType>]) -> (r: Option<&'static str>)
    ensures
        match end_door_spec(won, suspects@) {
            Some(e) => r matches Some(x) && x@ == e,
            None => r is None,
        },
{
    if !won {
        return None;
    }
    let mut k: usize = 0;
    while k < suspects.len()
        invariant
            k <= suspects@.len(),
            won,
            forall|i: int| 0 <= i < k ==> suspects@[i] != Some(SuspectType::Human),
        decreases suspects.len() - k,
    {
        let human = match suspects[k] {
            Some(SuspectType::Human) => true,
            _ => false,
        };
        if human {
            assert(suspects@[k as int] == Some(SuspectType::Human));
            return Some("win_spared");
        }
        k += 1;
    }
    Some("win_killed")
}

/// Using an unlocked door twice leaves it as it was; a locked closed door stays
/// shut however often it is used.
pub proof fn law_door_use_round_trip(m: DoorModel)
    ensures
        !m.locked ==> used_door(used_door(m)) == m,
        !m.open && m.locked ==> used_door(m) == m,
{
}

} // verus!
