//! The bots of a scenario: four targets of one character and eight knockers.
use vstd::prelude::*;

use super::error::{SceError, SceFault};
use super::lists::{
    non_empty, pieces, reference, resolve, split, split_non_empty, strings_view,
};
use super::profile::{
    dup, flag_result, get_result, lookup, name_key, require_result, sections_view, Section,
    SectionView,
};
use super::text::{ascii, bytes_eq, bytes_of};

verus! {

/// Number of bots a supported scenario adds.
pub const BOT_COUNT: usize = 12;

/// Whether every entry is the text `0` (unlimited lives).
pub open spec fn all_unlimited(lives: Seq<Seq<u8>>) -> bool {
    forall|i: int| 0 <= i < lives.len() ==> lives[i] == ascii("0"@)
}

/// The bot and team lists, if the three lists describe twelve bots with
/// unlimited lives.
pub open spec fn bot_lists_result(bots: Seq<u8>, teams: Seq<u8>, lives: Seq<u8>) -> Result<
    (Seq<Seq<u8>>, Seq<Seq<u8>>),
    SceFault,
> {
    let b = pieces(bots, 59);
    let t = pieces(teams, 59);
    let l = pieces(lives, 59);
    if b.len() != BOT_COUNT || t.len() != BOT_COUNT || l.len() != BOT_COUNT || !all_unlimited(l) {
        Err(SceFault::BotRoster)
    } else {
        Ok((b, t))
    }
}

/// Splits the `;`-separated bot, team and life lists; there must be twelve
/// of each and every bot must have unlimited lives.
pub fn bot_lists(bots: &[u8], teams: &[u8], lives: &[u8]) -> (r: Result<
    (Vec<Vec<u8>>, Vec<Vec<u8>>),
    SceError,
>)
    ensures
        match (r, bot_lists_result(bots@, teams@, lives@)) {
            (Ok(a), Ok(b)) => strings_view(a.0@) == b.0 && strings_view(a.1@) == b.1,
            (Err(e), Err(f)) => e@ == f,
            _ => false,
        },
{
    let b = split(bots, 59);
    let t = split(teams, 59);
    let l = split(lives, 59);
    if b.len() != 12 || t.len() != 12 || l.len() != 12 {
        return Err(SceError::BotRoster);
    }
    proof {
        reveal_strlit("0");
    }
    let zero = bytes_of("0");
    let mut i: usize = 0;
    while i < l.len()
        invariant
            i <= l@.len(),
            zero@ == ascii("0"@),
            strings_view(l@) == pieces(lives@, 59),
            strings_view(b@) == pieces(bots@, 59),
            strings_view(t@) == pieces(teams@, 59),
            b@.len() == 12 && t@.len() == 12 && l@.len() == 12,
            forall|j: int| 0 <= j < i ==> strings_view(l@)[j] == ascii("0"@),
        decreases l@.len() - i,
    {
        assert(strings_view(l@)[i as int] == l@[i as int]@);
        if !bytes_eq(l[i].as_slice(), zero) {
            assert(!all_unlimited(pieces(lives@, 59)));
            return Err(SceError::BotRoster);
        }
        i = i + 1;
    }
    Ok((b, t))
}

/// What a bot is in a supported scenario.
#[derive(Clone, Copy, Debug, PartialEq, Eq, Structural)]
pub enum BotRole {
    /// A targetable enemy (team 2).
    Target,
    /// An untargetable ally that knocks the targets about (team 1).
    Knocker,
}

/// The role of a bot on `team`: team 2 bots must be targetable, team 1 bots
/// untargetable.
pub open spec fn bot_role_result(bot: SectionView, team: Seq<u8>) -> Result<BotRole, SceFault> {
    let key = ascii("Untargetable"@);
    if team == ascii("2"@) {
        match flag_result(bot, key) {
            Err(e) => Err(e),
            Ok(true) => Err(SceFault::UnsupportedBot),
            Ok(false) => Ok(BotRole::Target),
        }
    } else if team == ascii("1"@) {
        match flag_result(bot, key) {
            Err(e) => Err(e),
            Ok(true) => Ok(BotRole::Knocker),
            Ok(false) => Err(SceFault::UnsupportedBot),
        }
    } else {
        Err(SceFault::UnsupportedBot)
    }
}

/// Decides what a bot is; see [`bot_role_result`].
pub fn bot_role(bot: &Section, team: &[u8]) -> (r: Result<BotRole, SceError>)
    ensures
        match (r, bot_role_result(bot@, team@)) {
            (Ok(a), Ok(b)) => a == b,
            (Err(e), Err(f)) => e@ == f,
            _ => false,
        },
{
    proof {
        reveal_strlit("2");
        reveal_strlit("1");
        reveal_strlit("Untargetable");
    }
    let key = bytes_of("Untargetable");
    if bytes_eq(team, bytes_of("2")) {
        if bot.flag(key)? {
            Err(SceError::UnsupportedBot)
        } else {
            Ok(BotRole::Target)
        }
    } else if bytes_eq(team, bytes_of("1")) {
        if bot.flag(key)? {
            Ok(BotRole::Knocker)
        } else {
            Err(SceError::UnsupportedBot)
        }
    } else {
        Err(SceError::UnsupportedBot)
    }
}

/// The targets seen so far: the target character's name and bot, and how
/// many target bots there were.
pub struct TargetPick {
    pub chosen: Option<(Vec<u8>, usize)>,
    pub count: usize,
}

/// The abstract form of a [`TargetPick`].
pub struct TargetPickView {
    pub chosen: Option<(Seq<u8>, int)>,
    pub count: nat,
}

impl View for TargetPick {
    type V = TargetPickView;

    open spec fn view(&self) -> TargetPickView {
        TargetPickView {
            chosen: match self.chosen {
                Some((n, b)) => Some((n@, b as int)),
                None => None,
            },
            count: self.count as nat,
        }
    }
}

/// The name a character is known by when comparing targets: its `Name`, or
/// nothing when it has none.
pub open spec fn name_or_empty(s: SectionView) -> Seq<u8> {
    match lookup(s.fields, name_key()) {
        Some(n) => n,
        None => Seq::empty(),
    }
}

/// Enlists bot `bot` of character `character` as a target: the bot must not
/// use weapons, must dodge and must count for score, and every target must
/// share one character.
pub open spec fn enlist_result(
    pick: TargetPickView,
    bot: SectionView,
    bot_index: int,
    character: SectionView,
) -> Result<TargetPickView, SceFault> {
    match require_result(bot, ascii("UseWeapons"@), ascii("false"@)) {
        Err(e) => Err(e),
        Ok(_) => match require_result(bot, ascii("NoDodging"@), ascii("false"@)) {
            Err(e) => Err(e),
            Ok(_) => match super::profile::false_if_present_result(bot, ascii("DisableScoring"@)) {
                Err(e) => Err(e),
                Ok(_) => if (pick.chosen matches Some((prev, _)) && prev != name_or_empty(
                    character,
                )) {
                    Err(SceFault::MixedTargets)
                } else {
                    match get_result(character, name_key()) {
                        Err(e) => Err(e),
                        Ok(n) => Ok(
                            TargetPickView { chosen: Some((n, bot_index)), count: pick.count + 1 },
                        ),
                    }
                },
            },
        },
    }
}

impl TargetPick {
    pub fn new() -> (r: TargetPick)
        ensures
            r@.chosen is None,
            r@.count == 0,
    {
        TargetPick { chosen: None, count: 0 }
    }

    /// Enlists a target bot; see [`enlist_result`].
    pub fn enlist(&mut self, secs: &Vec<Section>, bot: usize, character: usize) -> (r: Result<
        (),
        SceError,
    >)
        requires
            bot < secs@.len(),
            character < secs@.len(),
            old(self)@.count < usize::MAX,
        ensures
            match (r, enlist_result(old(self)@, secs@[bot as int]@, bot as int, secs@[character as int]@)) {
                (Ok(_), Ok(p)) => final(self)@ == p,
                (Err(e), Err(f)) => e@ == f,
                _ => false,
            },
    {
        proof {
            reveal_strlit("UseWeapons");
            reveal_strlit("NoDodging");
            reveal_strlit("DisableScoring");
            reveal_strlit("false");
            reveal_strlit("Name");
        }
        let b = &secs[bot];
        let c = &secs[character];
        b.require(bytes_of("UseWeapons"), bytes_of("false"))?;
        b.require(bytes_of("NoDodging"), bytes_of("false"))?;
        b.false_if_present(bytes_of("DisableScoring"))?;
        let mixed = match &self.chosen {
            Some((prev, _)) => match c.lookup(bytes_of("Name")) {
                Some(n) => !bytes_eq(prev.as_slice(), n.as_slice()),
                None => {
                    assert(prev@.len() == 0 ==> prev@ =~= Seq::<u8>::empty());
                    prev.len() != 0
                },
            },
            None => false,
        };
        if mixed {
            return Err(SceError::MixedTargets);
        }
        let n = c.get(bytes_of("Name"))?;
        self.chosen = Some((dup(n.as_slice()), bot));
        self.count = self.count + 1;
        Ok(())
    }
}

/// The melee ability of a knocker's character: its one non-empty ability
/// name must resolve to a melee ability profile.
pub open spec fn knocker_ability_result(secs: Seq<SectionView>, character: SectionView) -> Result<
    int,
    SceFault,
> {
    match get_result(character, ascii("AbilityProfileNames"@)) {
        Err(e) => Err(e),
        Ok(v) => {
            let names = non_empty(pieces(v, 59));
            if names.len() != 1 {
                Err(SceFault::KnockerAbility)
            } else {
                resolve(secs, ascii("Melee Ability Profile"@), names[0])
            }
        },
    }
}

/// Finds the melee ability profile of a knocker's character.
pub fn knocker_ability(secs: &Vec<Section>, character: usize) -> (r: Result<usize, SceError>)
    requires
        character < secs@.len(),
    ensures
        match (r, knocker_ability_result(sections_view(secs@), secs@[character as int]@)) {
            (Ok(i), Ok(j)) => i == j && i < secs@.len(),
            (Err(e), Err(f)) => e@ == f,
            _ => false,
        },
{
    proof {
        reveal_strlit("AbilityProfileNames");
        reveal_strlit("Melee Ability Profile");
    }
    let v = secs[character].get(bytes_of("AbilityProfileNames"))?;
    let names = split_non_empty(v.as_slice(), 59);
    if names.len() != 1 {
        return Err(SceError::KnockerAbility);
    }
    assert(strings_view(names@)[0] == names@[0]@);
    reference(secs, bytes_of("Melee Ability Profile"), names[0].as_slice())
}

/// Whether the target character lists any ability.
pub open spec fn lists_ability(names: Seq<u8>) -> bool {
    non_empty(pieces(names, 59)).len() > 0
}

/// Whether a `;`-separated ability list names any ability.
pub fn has_abilities(names: &[u8]) -> (r: bool)
    ensures
        r == lists_ability(names@),
{
    split_non_empty(names, 59).len() > 0
}

/// Knocker characters, each with its melee ability profile and the number of
/// placements it still needs.
pub struct KnockerSlots {
    pub slots: Vec<(Vec<u8>, usize, usize)>,
}

/// The abstract form of the knocker slots.
pub type SlotsView = Seq<(Seq<u8>, int, int)>;

impl View for KnockerSlots {
    type V = SlotsView;

    open spec fn view(&self) -> SlotsView {
        self.slots@.map_values(|s: (Vec<u8>, usize, usize)| (s.0@, s.1 as int, s.2 as int))
    }
}

/// The position of a character's slot.
pub open spec fn slot_of(s: SlotsView, name: Seq<u8>) -> Option<int>
    decreases s.len(),
{
    if s.len() == 0 {
        None
    } else if s.last().0 == name {
        Some(s.len() - 1)
    } else {
        slot_of(s.drop_last(), name)
    }
}

/// The slots after one more knocker bot of `name` with `ability`; a
/// character's first bot fixes its ability.
pub open spec fn slots_added(s: SlotsView, name: Seq<u8>, ability: int) -> SlotsView {
    match slot_of(s, name) {
        Some(i) => s.update(i, (s[i].0, s[i].1, s[i].2 + 1)),
        None => s.push((name, ability, 1)),
    }
}

proof fn lemma_slot_of_bounds(s: SlotsView, name: Seq<u8>)
    ensures
        slot_of(s, name) matches Some(i) ==> 0 <= i < s.len() && s[i].0 == name,
    decreases s.len(),
{
    if s.len() > 0 && s.last().0 != name {
        lemma_slot_of_bounds(s.drop_last(), name);
    }
}

impl KnockerSlots {
    pub fn new() -> (r: KnockerSlots)
        ensures
            r@ == Seq::<(Seq<u8>, int, int)>::empty(),
    {
        let r = KnockerSlots { slots: Vec::new() };
        assert(r@ =~= Seq::<(Seq<u8>, int, int)>::empty());
        r
    }

    /// The slot of a character, matched exactly.
    pub fn find_slot(&self, name: &[u8]) -> (r: Option<usize>)
        ensures
            match (r, slot_of(self@, name@)) {
                (Some(i), Some(j)) => i == j && i < self@.len(),
                (None, None) => true,
                _ => false,
            },
    {
        let mut i = self.slots.len();
        let ghost v = self@;
        assert(v.subrange(0, i as int) =~= v);
        while i > 0
            invariant
                v == self@,
                i <= v.len(),
                slot_of(v, name@) == slot_of(v.subrange(0, i as int), name@),
            decreases i,
        {
            let ghost w = v.subrange(0, i as int);
            assert(w.drop_last() =~= v.subrange(0, i - 1));
            assert(w.last() == v[i - 1]);
            if bytes_eq(self.slots[i - 1].0.as_slice(), name) {
                return Some(i - 1);
            }
            i = i - 1;
        }
        None
    }

    /// Counts one more knocker bot of the character `name`.
    pub fn add(&mut self, name: Vec<u8>, ability: usize)
        requires
            forall|i: int| 0 <= i < old(self)@.len() ==> old(self)@[i].2 < usize::MAX,
        ensures
            final(self)@ == slots_added(old(self)@, name@, ability as int),
    {
        proof {
            lemma_slot_of_bounds(self@, name@);
        }
        match self.find_slot(name.as_slice()) {
            Some(i) => {
                let (n, a, c) = self.slots.remove(i);
                let ghost before = self@;
                self.slots.insert(i, (n, a, c + 1));
                assert(self@ =~= slots_added(old(self)@, name@, ability as int));
            },
            None => {
                self.slots.push((name, ability, 1));
                assert(self@ =~= slots_added(old(self)@, name@, ability as int));
            },
        }
    }

    /// Whether every knocker bot has been placed.
    pub fn all_placed(&self) -> (r: bool)
        ensures
            r == forall|i: int| 0 <= i < self@.len() ==> self@[i].2 == 0,
    {
        let mut i: usize = 0;
        while i < self.slots.len()
            invariant
                i <= self@.len(),
                forall|j: int| 0 <= j < i ==> self@[j].2 == 0,
            decreases self@.len() - i,
        {
            if self.slots[i].2 != 0 {
                assert(self@[i as int].2 != 0);
                return false;
            }
            i = i + 1;
        }
        true
    }
}

/// The player's one weapon profile: the player's character must list
/// exactly one non-empty weapon name, which must resolve.
pub open spec fn player_weapon_result(secs: Seq<SectionView>, player: SectionView) -> Result<
    int,
    SceFault,
> {
    match get_result(player, ascii("WeaponProfileNames"@)) {
        Err(e) => Err(e),
        Ok(v) => {
            let names = non_empty(pieces(v, 59));
            if names.len() != 1 {
                Err(SceFault::PlayerWeapons)
            } else {
                resolve(secs, ascii("Weapon Profile"@), names[0])
            }
        },
    }
}

/// Finds the player's weapon profile.
pub fn player_weapon(secs: &Vec<Section>, player: usize) -> (r: Result<usize, SceError>)
    requires
        player < secs@.len(),
    ensures
        match (r, player_weapon_result(sections_view(secs@), secs@[player as int]@)) {
            (Ok(i), Ok(j)) => i == j && i < secs@.len(),
            (Err(e), Err(f)) => e@ == f,
            _ => false,
        },
{
    proof {
        reveal_strlit("WeaponProfileNames");
        reveal_strlit("Weapon Profile");
    }
    let v = secs[player].get(bytes_of("WeaponProfileNames"))?;
    let names = split_non_empty(v.as_slice(), 59);
    if names.len() != 1 {
        return Err(SceError::PlayerWeapons);
    }
    assert(strings_view(names@)[0] == names@[0]@);
    reference(secs, bytes_of("Weapon Profile"), names[0].as_slice())
}

/// Number of target bots a supported scenario has.
pub const TARGET_BOTS: usize = 4;

impl TargetPick {
    /// The target character's name and bot, once exactly four target bots
    /// have been enlisted.
    pub fn target(&self) -> (r: Result<(&Vec<u8>, usize), SceError>)
        ensures
            match r {
                Err(e) => (self@.count != TARGET_BOTS && e@ == SceFault::TargetCount) || (
                self@.count == TARGET_BOTS && self@.chosen is None && e@ == SceFault::MissingTarget),
                Ok((m, c)) => self@.count == TARGET_BOTS && self@.chosen == Some((m@, c as int)),
            },
    {
        if self.count != 4 {
            return Err(SceError::TargetCount);
        }
        match &self.chosen {
            Some((n, b)) => Ok((n, *b)),
            None => Err(SceError::MissingTarget),
        }
    }
}

impl KnockerSlots {
    /// Every knocker bot must have been placed on the map.
    pub fn check_placed(&self) -> (r: Result<(), SceError>)
        ensures
            r is Ok <==> (forall|i: int| 0 <= i < self@.len() ==> self@[i].2 == 0),
            match r {
                Err(e) => e@ == SceFault::MissingKnockers,
                Ok(_) => true,
            },
    {
        if self.all_placed() {
            Ok(())
        } else {
            Err(SceError::MissingKnockers)
        }
    }
}

} // verus!
