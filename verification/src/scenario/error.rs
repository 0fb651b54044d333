use vstd::prelude::*;

verus! {

/// Why a scenario file was refused. Byte fields hold the offending text as
/// written in the file.
#[derive(Debug)]
pub enum SceError {
    /// The file is over the size limit.
    TooLarge,
    /// The file has no embedded map section.
    NoMapData,
    /// A `[...]` header names a profile kind that is not supported.
    UnsupportedProfile(Vec<u8>),
    /// More profiles than the limit.
    TooManyProfiles,
    /// A line (numbered from one) is neither a header, a comment nor `key=value`.
    InvalidLine(usize),
    /// A key appears twice in one profile.
    DuplicateField(Vec<u8>),
    /// A profile lacks a key.
    MissingField { kind: Vec<u8>, key: Vec<u8> },
    /// Two profiles of one kind share a name.
    DuplicateProfile(Vec<u8>),
    /// A value that must be `true` or `false` is neither.
    InvalidBoolean(Vec<u8>),
    /// A value differs from the one value supported.
    Unsupported { kind: Vec<u8>, key: Vec<u8>, value: Vec<u8> },
    /// A profile named by reference does not exist.
    Unresolved { kind: Vec<u8>, name: Vec<u8> },
    /// The player needs exactly one weapon.
    PlayerWeapons,
    /// The bot lists do not describe four targets and eight knockers.
    BotRoster,
    /// A map object has no property of this name.
    MissingProperty(Vec<u8>),
    /// A map object has two properties of this name.
    DuplicateProperty(Vec<u8>),
    /// A map property that must be text is not.
    InvalidText(Vec<u8>),
    /// The map holds too many objects.
    TooManyObjects,
    /// The map holds an object other than brushes and spawn points.
    UnsupportedObject,
    /// The map needs exactly one player spawn.
    PlayerSpawns,
    /// A bot is neither a targetable enemy nor an untargetable ally.
    UnsupportedBot,
    /// The targets use more than one character.
    MixedTargets,
    /// A knocker's character needs exactly one melee ability.
    KnockerAbility,
    /// There are not exactly four targets.
    TargetCount,
    /// No target was found.
    MissingTarget,
    /// The target character has abilities.
    TargetAbilities,
    /// A spawn point follows a path.
    SpawnPath,
    /// A spawn point's team is not a whole number.
    SpawnTeam,
    /// A knocker placement is on the wrong team or one too many.
    KnockerPlacement,
    /// A spawn point names a character that is neither target, knocker nor player.
    UnresolvedSpawn(Vec<u8>),
    /// Some knocker was placed fewer times than its bots.
    MissingKnockers,
    /// The scenario's name or id is not valid.
    InvalidIdentity,
}

/// The abstract form of [`SceError`], over byte sequences.
pub enum SceFault {
    TooLarge,
    NoMapData,
    UnsupportedProfile(Seq<u8>),
    TooManyProfiles,
    InvalidLine(nat),
    DuplicateField(Seq<u8>),
    MissingField { kind: Seq<u8>, key: Seq<u8> },
    DuplicateProfile(Seq<u8>),
    InvalidBoolean(Seq<u8>),
    Unsupported { kind: Seq<u8>, key: Seq<u8>, value: Seq<u8> },
    Unresolved { kind: Seq<u8>, name: Seq<u8> },
    PlayerWeapons,
    BotRoster,
    MissingProperty(Seq<u8>),
    DuplicateProperty(Seq<u8>),
    InvalidText(Seq<u8>),
    TooManyObjects,
    UnsupportedObject,
    PlayerSpawns,
    UnsupportedBot,
    MixedTargets,
    KnockerAbility,
    TargetCount,
    MissingTarget,
    TargetAbilities,
    SpawnPath,
    SpawnTeam,
    KnockerPlacement,
    UnresolvedSpawn(Seq<u8>),
    MissingKnockers,
    InvalidIdentity,
}

impl View for SceError {
    type V = SceFault;

    open spec fn view(&self) -> SceFault {
        match self {
            SceError::TooLarge => SceFault::TooLarge,
            SceError::NoMapData => SceFault::NoMapData,
            SceError::UnsupportedProfile(k) => SceFault::UnsupportedProfile(k@),
            SceError::TooManyProfiles => SceFault::TooManyProfiles,
            SceError::InvalidLine(n) => SceFault::InvalidLine(*n as nat),
            SceError::DuplicateField(k) => SceFault::DuplicateField(k@),
            SceError::MissingField { kind, key } => SceFault::MissingField {
                kind: kind@,
                key: key@,
            },
            SceError::DuplicateProfile(n) => SceFault::DuplicateProfile(n@),
            SceError::InvalidBoolean(k) => SceFault::InvalidBoolean(k@),
            SceError::Unsupported { kind, key, value } => SceFault::Unsupported {
                kind: kind@,
                key: key@,
                value: value@,
            },
            SceError::Unresolved { kind, name } => SceFault::Unresolved {
                kind: kind@,
                name: name@,
            },
            SceError::PlayerWeapons => SceFault::PlayerWeapons,
            SceError::BotRoster => SceFault::BotRoster,
            SceError::MissingProperty(k) => SceFault::MissingProperty(k@),
            SceError::DuplicateProperty(k) => SceFault::DuplicateProperty(k@),
            SceError::InvalidText(k) => SceFault::InvalidText(k@),
            SceError::TooManyObjects => SceFault::TooManyObjects,
            SceError::UnsupportedObject => SceFault::UnsupportedObject,
            SceError::PlayerSpawns => SceFault::PlayerSpawns,
            SceError::UnsupportedBot => SceFault::UnsupportedBot,
            SceError::MixedTargets => SceFault::MixedTargets,
            SceError::KnockerAbility => SceFault::KnockerAbility,
            SceError::TargetCount => SceFault::TargetCount,
            SceError::MissingTarget => SceFault::MissingTarget,
            SceError::TargetAbilities => SceFault::TargetAbilities,
            SceError::SpawnPath => SceFault::SpawnPath,
            SceError::SpawnTeam => SceFault::SpawnTeam,
            SceError::KnockerPlacement => SceFault::KnockerPlacement,
            SceError::UnresolvedSpawn(p) => SceFault::UnresolvedSpawn(p@),
            SceError::MissingKnockers => SceFault::MissingKnockers,
            SceError::InvalidIdentity => SceFault::InvalidIdentity,
        }
    }
}

} // verus!
