//! The player's settings as the menus list them: which settings there are and
//! what each is called.

use vstd::prelude::*;

verus! {

#[derive(Debug, Clone, Copy, PartialEq, Eq, Hash, Structural)]
pub enum SettingKey {
    MasterVolume,
    MusicVolume,
    UiSfxVolume,
    WorldSfxVolume,
    VoiceVolume,
    DialogueSpeed,
    UiScaleMode,
    UiScale,
    CursorMotion,
}

/// The name the menus show for a setting.
pub open spec fn setting_label(key: SettingKey) -> Seq<char> {
    match key {
        SettingKey::MasterVolume => "master volume"@,
        SettingKey::MusicVolume => "music volume"@,
        SettingKey::UiSfxVolume => "ui sfx volume"@,
        SettingKey::WorldSfxVolume => "world sfx volume"@,
        SettingKey::VoiceVolume => "voice volume"@,
        SettingKey::DialogueSpeed => "dialogue speed"@,
        SettingKey::UiScaleMode => "ui scale mode"@,
        SettingKey::UiScale => "manual ui scale"@,
        SettingKey::CursorMotion => "cursor motion"@,
    }
}

impl SettingKey {
    /// Every setting, in the order the menus list them.
    pub const ALL: [SettingKey; 9] = [
        SettingKey::MasterVolume,
        SettingKey::MusicVolume,
        SettingKey::UiSfxVolume,
        SettingKey::WorldSfxVolume,
        SettingKey::VoiceVolume,
        SettingKey::DialogueSpeed,
        SettingKey::UiScaleMode,
        SettingKey::UiScale,
        SettingKey::CursorMotion,
    ];

    /// The name the menus show for this setting.
    pub fn label(self) -> (r: &'static str)
        ensures
            r@ == setting_label(self),
    {
        match self {
            SettingKey::MasterVolume => "master volume",
            SettingKey::MusicVolume => "music volume",
            SettingKey::UiSfxVolume => "ui sfx volume",
            SettingKey::WorldSfxVolume => "world sfx volume",
            SettingKey::VoiceVolume => "voice volume",
            SettingKey::DialogueSpeed => "dialogue speed",
            SettingKey::UiScaleMode => "ui scale mode",
            SettingKey::UiScale => "manual ui scale",
            SettingKey::CursorMotion => "cursor motion",
        }
    }
}

} // verus!
