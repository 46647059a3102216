//! The night sky's constellations: each kind of Marcus lights one constellation,
//! kept as a bit of the sky's flag word.

use vstd::prelude::*;

verus! {

/// Orion's belt.
pub const FLAG_ORION_BELT: u32 = 1;
/// The procedural star field the sky starts with.
pub const FLAG_PROC_A: u32 = 2;
/// Scorpius.
pub const FLAG_SCORPIUS: u32 = 4;
/// Cygnus.
pub const FLAG_CYGNUS: u32 = 8;
/// Ursa Major.
pub const FLAG_URSA_MAJOR: u32 = 16;

#[derive(Debug, Clone, Copy, PartialEq, Eq, Structural)]
pub enum MarcusType {
    Panicking,
    Leaning,
    Lounging,
    Lonely,
}

/// The constellation bit of each kind of Marcus.
pub open spec fn flag_spec(m: MarcusType) -> u32 {
    match m {
        MarcusType::Panicking => FLAG_SCORPIUS,
        MarcusType::Leaning => FLAG_CYGNUS,
        MarcusType::Lounging => FLAG_ORION_BELT,
        MarcusType::Lonely => FLAG_URSA_MAJOR,
    }
}

impl MarcusType {
    /// The constellation bit this kind of Marcus lights.
    pub fn flag(&self) -> (r: u32)
        ensures
            r == flag_spec(*self),
    {
        match self {
            MarcusType::Panicking => FLAG_SCORPIUS,
            MarcusType::Leaning => FLAG_CYGNUS,
            MarcusType::Lounging => FLAG_ORION_BELT,
            MarcusType::Lonely => FLAG_URSA_MAJOR,
        }
    }
}

/// A change to the constellations shown.
#[derive(Debug, Clone, Copy, PartialEq, Eq, Structural)]
pub enum ConstellationCommand {
    Activate(MarcusType),
    Deactivate(MarcusType),
    /// Back to the sky the game starts with.
    Reset,
}

/// The flag word after a command: activating sets the constellation's bit,
/// deactivating clears it, resetting leaves only the star field.
pub open spec fn flags_after(flags: u32, cmd: ConstellationCommand) -> u32 {
    match cmd {
        ConstellationCommand::Activate(m) => flags | flag_spec(m),
        ConstellationCommand::Deactivate(m) => flags & !flag_spec(m),
        ConstellationCommand::Reset => FLAG_PROC_A,
    }
}

/// Applies a constellation command to the sky's flag word.
pub fn apply_constellation(flags: u32, cmd: ConstellationCommand) -> (r: u32)
    ensures
        r == flags_after(flags, cmd),
{
    match cmd {
        ConstellationCommand::Activate(m) => flags | m.flag(),
        ConstellationCommand::Deactivate(m) => flags & !m.flag(),
        ConstellationCommand::Reset => FLAG_PROC_A,
    }
}

/// Whether the constellation of `m` is lit in `flags`.
pub open spec fn lit(flags: u32, m: MarcusType) -> bool {
    flags & flag_spec(m) != 0
}

/// Activating lights the constellation and deactivating puts it out, and neither
/// touches another kind's constellation.
pub proof fn law_constellations_independent(flags: u32, m: MarcusType, other: MarcusType)
    ensures
        lit(flags_after(flags, ConstellationCommand::Activate(m)), m),
        !lit(flags_after(flags, ConstellationCommand::Deactivate(m)), m),
        other != m ==> lit(flags_after(flags, ConstellationCommand::Activate(m)), other) == lit(
            flags,
            other,
        ),
        other != m ==> lit(flags_after(flags, ConstellationCommand::Deactivate(m)), other) == lit(
            flags,
            other,
        ),
{
    let a = flag_spec(m);
    let b = flag_spec(other);
    assert(a == 1 || a == 4 || a == 8 || a == 16);
    assert(b == 1 || b == 4 || b == 8 || b == 16);
    assert((flags | a) & a != 0) by (bit_vector)
        requires
            a == 1 || a == 4 || a == 8 || a == 16,
    ;
    assert((flags & !a) & a == 0) by (bit_vector);
    if other != m {
        assert(a != b);
        assert(((flags | a) & b != 0) == (flags & b != 0)) by (bit_vector)
            requires
                a == 1 || a == 4 || a == 8 || a == 16,
                b == 1 || b == 4 || b == 8 || b == 16,
                a != b,
        ;
        assert(((flags & !a) & b != 0) == (flags & b != 0)) by (bit_vector)
            requires
                a == 1 || a == 4 || a == 8 || a == 16,
                b == 1 || b == 4 || b == 8 || b == 16,
                a != b,
        ;
    }
}

} // verus!
