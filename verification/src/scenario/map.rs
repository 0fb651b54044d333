//! The embedded map of a scenario: its objects and their spawn points.
use vstd::prelude::*;

use super::error::{SceError, SceFault};
use super::profile::{dup, get_result, name_key, Section, SectionView};
use super::roster::{name_or_empty, slot_of, KnockerSlots, SlotsView};
use super::text::{ascii, bytes_eq, bytes_of, eq_ignore_case, same_ignoring_case};

verus! {

/// Most objects a map may hold.
pub const MAX_OBJECTS: usize = 4096;

/// The parts of a map property's JSON value that the import reads.
pub struct PropertyValue {
    /// The value when it is a JSON string.
    pub text: Option<Vec<u8>>,
    /// The value when it is a JSON number that is a non-negative integer
    /// fitting in 64 bits.
    pub whole: Option<u64>,
}

pub struct Property {
    pub name: Vec<u8>,
    pub value: PropertyValue,
}

/// An object of the embedded map.
pub struct MapObject {
    pub name: Vec<u8>,
    pub kind: Vec<u8>,
    pub location: Vec<u8>,
    pub properties: Vec<Property>,
}

/// The names of an object's properties, in order.
pub open spec fn property_names(o: MapObject) -> Seq<Seq<u8>> {
    o.properties@.map_values(|p: Property| p.name@)
}

/// The first property named `key` from index `from` on.
pub open spec fn first_property(names: Seq<Seq<u8>>, key: Seq<u8>, from: int) -> Option<int>
    decreases names.len() - from,
{
    if from < 0 || from >= names.len() {
        None
    } else if names[from] == key {
        Some(from)
    } else {
        first_property(names, key, from + 1)
    }
}

/// The one property named `key`; none or two are an error.
pub open spec fn property_result(o: MapObject, key: Seq<u8>) -> Result<int, SceFault> {
    let names = property_names(o);
    match first_property(names, key, 0) {
        None => Err(SceFault::MissingProperty(key)),
        Some(i) => if first_property(names, key, i + 1) is Some {
            Err(SceFault::DuplicateProperty(key))
        } else {
            Ok(i)
        },
    }
}

/// The text of the one property named `key`.
pub open spec fn text_result(o: MapObject, key: Seq<u8>) -> Result<Seq<u8>, SceFault> {
    match property_result(o, key) {
        Err(e) => Err(e),
        Ok(i) => match o.properties@[i].value.text {
            Some(t) => Ok(t@),
            None => Err(SceFault::InvalidText(key)),
        },
    }
}

proof fn lemma_first_property_bounds(names: Seq<Seq<u8>>, key: Seq<u8>, from: int)
    ensures
        first_property(names, key, from) matches Some(i) ==> from <= i < names.len() && names[i]
            == key,
    decreases names.len() - from,
{
    if 0 <= from < names.len() && names[from] != key {
        lemma_first_property_bounds(names, key, from + 1);
    }
}

impl MapObject {
    fn first_from(&self, key: &[u8], from: usize) -> (r: Option<usize>)
        requires
            from <= self.properties@.len(),
        ensures
            match (r, first_property(property_names(*self), key@, from as int)) {
                (Some(i), Some(j)) => i == j && i < self.properties@.len(),
                (None, None) => true,
                _ => false,
            },
    {
        let ghost names = property_names(*self);
        let mut i = from;
        while i < self.properties.len()
            invariant
                names == property_names(*self),
                from <= i <= self.properties@.len(),
                first_property(names, key@, from as int) == first_property(names, key@, i as int),
            decreases self.properties@.len() - i,
        {
            assert(names[i as int] == self.properties@[i as int].name@);
            if bytes_eq(self.properties[i].name.as_slice(), key) {
                return Some(i);
            }
            i = i + 1;
        }
        None
    }

    /// The one property named `key`.
    pub fn property(&self, key: &[u8]) -> (r: Result<&PropertyValue, SceError>)
        ensures
            match (r, property_result(*self, key@)) {
                (Ok(v), Ok(i)) => *v == self.properties@[i].value,
                (Err(e), Err(f)) => e@ == f,
                _ => false,
            },
    {
        let first = self.first_from(key, 0);
        if let Some(i) = first {
            assert(i < self.properties.len());
        }
        match first {
            None => Err(SceError::MissingProperty(dup(key))),
            Some(i) => match self.first_from(key, i + 1) {
                Some(_) => Err(SceError::DuplicateProperty(dup(key))),
                None => Ok(&self.properties[i].value),
            },
        }
    }

    /// The text of the one property named `key`.
    pub fn text(&self, key: &[u8]) -> (r: Result<&Vec<u8>, SceError>)
        ensures
            match (r, text_result(*self, key@)) {
                (Ok(v), Ok(t)) => v@ == t,
                (Err(e), Err(f)) => e@ == f,
                _ => false,
            },
    {
        let v = self.property(key)?;
        match &v.text {
            Some(t) => Ok(t),
            None => Err(SceError::InvalidText(dup(key))),
        }
    }
}

/// A spawn point object.
pub open spec fn is_spawn(o: MapObject) -> bool {
    o.kind@ == ascii("gameObject"@) && o.name@ == ascii("SpawnPoint"@)
}

/// A level geometry object.
pub open spec fn is_brush(o: MapObject) -> bool {
    o.kind@ == ascii("brush"@)
}

/// The indices of the objects (among the first `n`) that are spawn points.
pub open spec fn spawn_indices(objs: Seq<MapObject>, n: int) -> Seq<int>
    decreases n,
{
    if n <= 0 {
        Seq::empty()
    } else if is_spawn(objs[n - 1]) {
        spawn_indices(objs, n - 1).push(n - 1)
    } else {
        spawn_indices(objs, n - 1)
    }
}

/// The spawn points (positions in `spawns`) that permit the player, by its
/// exact name.
pub open spec fn player_spawns(objs: Seq<MapObject>, spawns: Seq<int>, player: Seq<u8>, n: int) -> Seq<
    int,
>
    decreases n,
{
    if n <= 0 {
        Seq::empty()
    } else if text_result(objs[spawns[n - 1]], ascii("PermittedCharacterProfiles"@)) == Ok::<
        Seq<u8>,
        SceFault,
    >(player) {
        player_spawns(objs, spawns, player, n - 1).push(spawns[n - 1])
    } else {
        player_spawns(objs, spawns, player, n - 1)
    }
}

/// The spawn points of a map and the player's one spawn point. The map may
/// hold at most [`MAX_OBJECTS`] objects, all brushes or spawn points.
pub open spec fn layout_result(objs: Seq<MapObject>, player: SectionView) -> Result<
    (Seq<int>, int),
    SceFault,
> {
    if objs.len() > MAX_OBJECTS {
        Err(SceFault::TooManyObjects)
    } else if exists|i: int| 0 <= i < objs.len() && !is_brush(objs[i]) && !is_spawn(objs[i]) {
        Err(SceFault::UnsupportedObject)
    } else {
        let spawns = spawn_indices(objs, objs.len() as int);
        let mine = player_spawns(objs, spawns, name_or_empty(player), spawns.len() as int);
        if mine.len() != 1 {
            Err(SceFault::PlayerSpawns)
        } else {
            Ok((spawns, mine[0]))
        }
    }
}

proof fn lemma_spawn_indices_bounds(objs: Seq<MapObject>, n: int)
    requires
        0 <= n <= objs.len(),
    ensures
        forall|k: int|
            0 <= k < spawn_indices(objs, n).len() ==> 0 <= #[trigger] spawn_indices(objs, n)[k] < n,
    decreases n,
{
    if n > 0 {
        lemma_spawn_indices_bounds(objs, n - 1);
        let prev = spawn_indices(objs, n - 1);
        assert forall|k: int| 0 <= k < spawn_indices(objs, n).len() implies 0 <= #[trigger] spawn_indices(objs, n)[k] < n by {
            if k < prev.len() {
                assert(spawn_indices(objs, n)[k] == prev[k]);
            }
        }
    }
}

/// Finds a map's spawn points (indices into `objs`) and the player's one
/// spawn point, the one whose permitted profile is the player's name.
pub fn spawn_layout(objs: &Vec<MapObject>, player: &Section) -> (r: Result<(Vec<usize>, usize), SceError>)
    ensures
        match (r, layout_result(objs@, player@)) {
            (Ok(a), Ok(b)) => a.0@.map_values(|i: usize| i as int) == b.0 && a.1 == b.1 && a.1
                < objs@.len(),
            (Err(e), Err(f)) => e@ == f,
            _ => false,
        },
{
    if objs.len() > 4096 {
        return Err(SceError::TooManyObjects);
    }
    proof {
        reveal_strlit("gameObject");
        reveal_strlit("SpawnPoint");
        reveal_strlit("brush");
        reveal_strlit("PermittedCharacterProfiles");
        reveal_strlit("Name");
    }
    let mut spawns: Vec<usize> = Vec::new();
    let mut i: usize = 0;
    while i < objs.len()
        invariant
            i <= objs@.len() <= MAX_OBJECTS,
            forall|j: int| 0 <= j < i ==> is_brush(objs@[j]) || is_spawn(objs@[j]),
            spawns@.map_values(|k: usize| k as int) == spawn_indices(objs@, i as int),
        decreases objs@.len() - i,
    {
        proof {
            reveal_strlit("gameObject");
            reveal_strlit("SpawnPoint");
            reveal_strlit("brush");
        }
        let o = &objs[i];
        let spawn = bytes_eq(o.kind.as_slice(), bytes_of("gameObject")) && bytes_eq(
            o.name.as_slice(),
            bytes_of("SpawnPoint"),
        );
        if !spawn && !bytes_eq(o.kind.as_slice(), bytes_of("brush")) {
            return Err(SceError::UnsupportedObject);
        }
        if spawn {
            spawns.push(i);
        }
        assert(spawns@.map_values(|k: usize| k as int) =~= spawn_indices(objs@, i + 1));
        i = i + 1;
    }
    let ghost sv = spawn_indices(objs@, objs@.len() as int);
    proof {
        lemma_spawn_indices_bounds(objs@, objs@.len() as int);
    }
    let empty: Vec<u8> = Vec::new();
    let name: &[u8] = match player.lookup(bytes_of("Name")) {
        Some(n) => n.as_slice(),
        None => empty.as_slice(),
    };
    assert(name@ == name_or_empty(player@));
    let mut count: usize = 0;
    let mut chosen: usize = 0;
    let mut k: usize = 0;
    while k < spawns.len()
        invariant
            sv == spawns@.map_values(|x: usize| x as int),
            forall|j: int| 0 <= j < sv.len() ==> 0 <= #[trigger] sv[j] < objs@.len(),
            k <= spawns@.len(),
            count == player_spawns(objs@, sv, name@, k as int).len(),
            count > 0 ==> chosen == player_spawns(objs@, sv, name@, k as int)[0],
            count > 0 ==> chosen < objs@.len(),
            count <= k,
        decreases spawns@.len() - k,
    {
        proof {
            reveal_strlit("PermittedCharacterProfiles");
        }
        assert(sv[k as int] == spawns@[k as int] as int);
        let o = &objs[spawns[k]];
        let permits = match o.text(bytes_of("PermittedCharacterProfiles")) {
            Ok(v) => bytes_eq(v.as_slice(), name),
            Err(_) => false,
        };
        if permits {
            if count == 0 {
                chosen = spawns[k];
            }
            count = count + 1;
        }
        k = k + 1;
    }
    if count != 1 {
        return Err(SceError::PlayerSpawns);
    }
    Ok((spawns, chosen))
}

/// What a spawn point places.
#[derive(Clone, Copy, Debug, PartialEq, Eq, Structural)]
pub enum SpawnRole {
    /// A target spawn point.
    Target,
    /// A knocker, with the index of its melee ability profile.
    Knocker(usize),
    /// The player's spawn point.
    Player,
}

/// Classifies a spawn point and uses up a knocker placement when it places
/// one. `target` is the target character's name and `player` the player's
/// character profile.
pub open spec fn classify_result(
    o: MapObject,
    target: Seq<u8>,
    slots: SlotsView,
    player: SectionView,
) -> Result<(SpawnRole, SlotsView), SceFault> {
    match text_result(o, ascii("Path"@)) {
        Err(e) => Err(e),
        Ok(path) => if path.len() != 0 {
            Err(SceFault::SpawnPath)
        } else {
            match text_result(o, ascii("PermittedCharacterProfiles"@)) {
                Err(e) => Err(e),
                Ok(permitted) => match property_result(o, ascii("TeamMask"@)) {
                    Err(e) => Err(e),
                    Ok(p) => match o.properties@[p].value.whole {
                        None => Err(SceFault::SpawnTeam),
                        Some(team) => if team == 2 && (permitted.len() == 0 || same_ignoring_case(
                            permitted,
                            target,
                        )) {
                            Ok((SpawnRole::Target, slots))
                        } else {
                            match slot_of(slots, permitted) {
                                Some(k) => if team != 1 || slots[k].2 == 0 {
                                    Err(SceFault::KnockerPlacement)
                                } else {
                                    Ok(
                                        (
                                            SpawnRole::Knocker(slots[k].1 as usize),
                                            slots.update(k, (slots[k].0, slots[k].1, slots[k].2 - 1)),
                                        ),
                                    )
                                },
                                None => match get_result(player, name_key()) {
                                    Err(e) => Err(e),
                                    Ok(pn) => if permitted != pn {
                                        Err(SceFault::UnresolvedSpawn(permitted))
                                    } else {
                                        Ok((SpawnRole::Player, slots))
                                    },
                                },
                            }
                        },
                    },
                },
            }
        }
    }
}

/// Classifies a spawn point; see [`classify_result`].
pub fn classify_spawn(
    o: &MapObject,
    target: &[u8],
    slots: &mut KnockerSlots,
    player: &Section,
) -> (r: Result<SpawnRole, SceError>)
    ensures
        match (r, classify_result(*o, target@, old(slots)@, player@)) {
            (Ok(a), Ok(b)) => a == b.0 && final(slots)@ == b.1,
            (Err(e), Err(f)) => e@ == f,
            _ => false,
        },
{
    proof {
        reveal_strlit("Path");
        reveal_strlit("PermittedCharacterProfiles");
        reveal_strlit("TeamMask");
        reveal_strlit("Name");
    }
    let path = o.text(bytes_of("Path"))?;
    if path.len() != 0 {
        return Err(SceError::SpawnPath);
    }
    let permitted = o.text(bytes_of("PermittedCharacterProfiles"))?;
    let team = match o.property(bytes_of("TeamMask"))?.whole {
        Some(t) => t,
        None => {
            return Err(SceError::SpawnTeam);
        },
    };
    if team == 2 && (permitted.len() == 0 || eq_ignore_case(permitted.as_slice(), target)) {
        return Ok(SpawnRole::Target);
    }
    match slots.find_slot(permitted.as_slice()) {
        Some(k) => {
            let (n, ability, left) = slots.slots.remove(k);
            if team != 1 || left == 0 {
                slots.slots.insert(k, (n, ability, left));
                assert(slots@ =~= old(slots)@);
                return Err(SceError::KnockerPlacement);
            }
            slots.slots.insert(k, (n, ability, left - 1));
            assert(slots@ =~= old(slots)@.update(
                k as int,
                (old(slots)@[k as int].0, old(slots)@[k as int].1, old(slots)@[k as int].2 - 1),
            ));
            Ok(SpawnRole::Knocker(ability))
        },
        None => {
            let pn = player.get(bytes_of("Name"))?;
            if !bytes_eq(permitted.as_slice(), pn.as_slice()) {
                return Err(SceError::UnresolvedSpawn(dup(permitted.as_slice())));
            }
            Ok(SpawnRole::Player)
        },
    }
}

/// A team-2 spawn point without a path, whose permitted profile is empty or
/// names the target character in any ASCII letter case, places a target and
/// uses up no knocker placement, whatever the knocker slots and the player.
pub proof fn lemma_target_spawns(
    o: MapObject,
    target: Seq<u8>,
    slots: SlotsView,
    player: SectionView,
    permitted: Seq<u8>,
    team: int,
)
    requires
        text_result(o, ascii("Path"@)) == Ok::<Seq<u8>, SceFault>(Seq::<u8>::empty()),
        text_result(o, ascii("PermittedCharacterProfiles"@)) == Ok::<Seq<u8>, SceFault>(permitted),
        property_result(o, ascii("TeamMask"@)) == Ok::<int, SceFault>(team),
        o.properties@[team].value.whole == Some(2u64),
        permitted.len() == 0 || (permitted.len() == target.len() && forall|i: int|
            0 <= i < permitted.len() ==> (#[trigger] permitted[i] == target[i] || (65 <= permitted[i]
                <= 90 && permitted[i] + 32 == target[i]) || (65 <= target[i] <= 90 && target[i] + 32
                == permitted[i]))),
    ensures
        classify_result(o, target, slots, player) == Ok::<(SpawnRole, SlotsView), SceFault>(
            (SpawnRole::Target, slots),
        ),
{
    if permitted.len() != 0 {
        assert forall|i: int| 0 <= i < permitted.len() implies super::text::ascii_lower(permitted[i])
            == super::text::ascii_lower(target[i]) by {
            assert(permitted[i] == target[i] || (65 <= permitted[i] <= 90 && permitted[i] + 32
                == target[i]) || (65 <= target[i] <= 90 && target[i] + 32 == permitted[i]));
        }
    }
}


} // verus!
