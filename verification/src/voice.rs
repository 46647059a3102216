//! Voice presets of the speaking characters, and how a script names them.

use vstd::prelude::*;

use crate::text::{ascii_lower_seq, ascii_lowercase, chars_eq, chars_of, trim, trim_seq};

verus! {

#[derive(Debug, Clone, Copy, PartialEq, Eq, Structural)]
pub enum VoicePreset {
    HostileEntity,
    LostChild,
    CorruptedTransmission,
    NeutralNpc,
}

/// The preset a script names with `name`: the name is trimmed and compared without
/// regard to ASCII case; unknown names give the neutral preset.
pub open spec fn voice_preset_named(name: Seq<char>) -> VoicePreset {
    let t = ascii_lower_seq(trim_seq(name));
    if t == "hostile_entity"@ || t == "hostile"@ {
        VoicePreset::HostileEntity
    } else if t == "lost_child"@ || t == "child"@ {
        VoicePreset::LostChild
    } else if t == "corrupted_transmission"@ || t == "glitch"@ {
        VoicePreset::CorruptedTransmission
    } else {
        VoicePreset::NeutralNpc
    }
}

fn is_one_of(t: &[char], a: &str, b: &str) -> (r: bool)
    ensures
        r == (t@ == a@ || t@ == b@),
{
    let ca = chars_of(a);
    let cb = chars_of(b);
    chars_eq(t, &ca) || chars_eq(t, &cb)
}

impl VoicePreset {
    /// The preset named by `s` (see `voice_preset_named`); never fails.
    pub fn from_name(s: &str) -> (r: VoicePreset)
        ensures
            r == voice_preset_named(s@),
    {
        let chars = chars_of(s);
        let trimmed = trim(&chars);
        let t = ascii_lowercase(&trimmed);
        if is_one_of(&t, "hostile_entity", "hostile") {
            VoicePreset::HostileEntity
        } else if is_one_of(&t, "lost_child", "child") {
            VoicePreset::LostChild
        } else if is_one_of(&t, "corrupted_transmission", "glitch") {
            VoicePreset::CorruptedTransmission
        } else {
            VoicePreset::NeutralNpc
        }
    }
}

impl core::str::FromStr for VoicePreset {
    type Err = ();

    /// Never fails: the preset named by `s`, as `from_name` reads it.
    fn from_str(s: &str) -> (r: Result<Self, Self::Err>)
        ensures
            r == Ok::<VoicePreset, ()>(voice_preset_named(s@)),
    {
        Ok(VoicePreset::from_name(s))
    }
}

} // verus!
