use aim_room::scenario::error::SceError;
use aim_room::scenario::identity::{hex_id, source_hash, split_parts, valid_identity};
use aim_room::scenario::lists::{reference, split, split_non_empty};
use aim_room::scenario::map::{classify_spawn, spawn_layout, MapObject, Property, PropertyValue, SpawnRole};
use aim_room::scenario::profile::{parse_profiles, Section};
use aim_room::scenario::roster::{bot_lists, bot_role, knocker_ability, BotRole, KnockerSlots, TargetPick};

const PROFILES: &str = "\u{feff}Name=Demo\r\nTimelimit = 60.0\n// a comment\n\n[Bot Profile]\nName=Target\nCharacterProfile=Sphere\nUntargetable=false\nUseWeapons=false\nNoDodging=false\n[Bot Profile]\nName=Knocker\nCharacterProfile=Knock\nUntargetable=true\nNoDodging=true\n[Character Profile]\nName=Sphere\nAbilityProfileNames=;;\n[Character Profile]\nName=Knock\nAbilityProfileNames=Punch;\n[Melee Ability Profile]\nName=Punch\n[Character Profile]\nName=Player\n";

fn sections() -> Vec<Section> {
    parse_profiles(PROFILES.as_bytes()).expect("profiles")
}

#[test]
fn profiles_are_read_in_order_with_sorted_fields() {
    let secs = sections();
    assert_eq!(secs.len(), 7);
    assert_eq!(secs[0].kind().as_slice(), b"Scenario");
    assert_eq!(secs[1].kind().as_slice(), b"Bot Profile");
    let root = &secs[0];
    assert_eq!(root.len(), 2);
    assert_eq!(root.field(0).0.as_slice(), b"Name");
    assert_eq!(root.field(1).0.as_slice(), b"Timelimit");
    assert_eq!(root.get(b"Timelimit").unwrap().as_slice(), b"60.0");
    let bot = &secs[1];
    let keys: Vec<Vec<u8>> = (0..bot.len()).map(|i| bot.field(i).0.clone()).collect();
    let mut sorted = keys.clone();
    sorted.sort();
    assert_eq!(keys, sorted);
    assert_eq!(bot.flag(b"Untargetable").unwrap(), false);
    assert!(bot.require(b"UseWeapons", b"false").is_ok());
    assert!(bot.false_if_present(b"DisableScoring").is_ok());
    assert!(matches!(
        bot.require(b"NoDodging", b"true"),
        Err(SceError::Unsupported { kind, key, value })
            if kind == b"Bot Profile" && key == b"NoDodging" && value == b"true"
    ));
    assert!(matches!(bot.flag(b"Name"), Err(SceError::InvalidBoolean(k)) if k == b"Name"));
    assert!(matches!(
        bot.get(b"Missing"),
        Err(SceError::MissingField { kind, key }) if kind == b"Bot Profile" && key == b"Missing"
    ));
}

#[test]
fn profile_grammar_errors_are_reported() {
    assert!(matches!(
        parse_profiles(b"[Map Profile]\nName=x"),
        Err(SceError::UnsupportedProfile(k)) if k == b"Map Profile"
    ));
    assert!(matches!(parse_profiles(b"Name=x\n\nbroken line"), Err(SceError::InvalidLine(3))));
    assert!(matches!(
        parse_profiles(b"A=1\nA = 2"),
        Err(SceError::DuplicateField(k)) if k == b"A "
    ));
    assert!(matches!(
        parse_profiles(b"[Bot Profile]\nName=Alpha\n[Bot Profile]\nName=ALPHA"),
        Err(SceError::DuplicateProfile(n)) if n == b"ALPHA"
    ));
    assert!(parse_profiles(b"[Bot Profile]\nName=Alpha\n[Character Profile]\nName=alpha").is_ok());
    assert!(matches!(
        parse_profiles(b"[Dodge Profile]\nSpeed=1"),
        Err(SceError::MissingField { kind, key }) if kind == b"Dodge Profile" && key == b"Name"
    ));
    let mut many = String::new();
    for i in 0..64 {
        many.push_str(&format!("[Aim Profile]\nName=a{i}\n"));
    }
    assert!(matches!(parse_profiles(many.as_bytes()), Err(SceError::TooManyProfiles)));
    // Unicode white space around keys and values is trimmed.
    let secs = parse_profiles("\u{a0}Key\u{2003}=\u{3000}v\u{85}".as_bytes()).unwrap();
    assert_eq!(secs[0].get(b"Key").unwrap().as_slice(), b"v");
}

#[test]
fn references_resolve_by_kind_and_name() {
    let secs = sections();
    assert_eq!(reference(&secs, b"Bot Profile", b"target.bot").unwrap(), 1);
    assert_eq!(reference(&secs, b"Bot Profile", b"Knocker.bot.bot").unwrap(), 2);
    assert_eq!(reference(&secs, b"Melee Ability Profile", b"Punch.abilmelee").unwrap(), 5);
    assert!(matches!(
        reference(&secs, b"Character Profile", b"Nobody.bot"),
        Err(SceError::Unresolved { kind, name }) if kind == b"Character Profile" && name == b"Nobody"
    ));
}

#[test]
fn lists_split_like_the_file_format() {
    let pieces = split(b"a;;b", b';');
    assert_eq!(pieces, vec![b"a".to_vec(), Vec::new(), b"b".to_vec()]);
    assert_eq!(split(b"", b';'), vec![Vec::<u8>::new()]);
    assert_eq!(split_non_empty(b";a;;b;", b';'), vec![b"a".to_vec(), b"b".to_vec()]);
}

#[test]
fn bots_are_sorted_into_targets_and_knockers() {
    let secs = sections();
    let twelve = "x;".repeat(11) + "x";
    let teams = "2;".repeat(11) + "2";
    let lives = "0;".repeat(11) + "0";
    let (bots, team_list) = bot_lists(twelve.as_bytes(), teams.as_bytes(), lives.as_bytes()).unwrap();
    assert_eq!(bots.len(), 12);
    assert_eq!(team_list.len(), 12);
    let bad_lives = "0;".repeat(11) + "1";
    assert!(matches!(
        bot_lists(twelve.as_bytes(), teams.as_bytes(), bad_lives.as_bytes()),
        Err(SceError::BotRoster)
    ));
    assert!(matches!(bot_lists(b"x", b"2", b"0"), Err(SceError::BotRoster)));

    assert_eq!(bot_role(&secs[1], b"2").unwrap(), BotRole::Target);
    assert_eq!(bot_role(&secs[2], b"1").unwrap(), BotRole::Knocker);
    assert!(matches!(bot_role(&secs[1], b"1"), Err(SceError::UnsupportedBot)));
    assert!(matches!(bot_role(&secs[2], b"3"), Err(SceError::UnsupportedBot)));

    let mut pick = TargetPick::new();
    pick.enlist(&secs, 1, 3).unwrap();
    pick.enlist(&secs, 1, 3).unwrap();
    assert_eq!(pick.count, 2);
    assert!(matches!(pick.enlist(&secs, 1, 4), Err(SceError::MixedTargets)));

    assert_eq!(knocker_ability(&secs, 4).unwrap(), 5);
    assert!(matches!(knocker_ability(&secs, 3), Err(SceError::KnockerAbility)));
}

fn object(name: &str, kind: &str, props: &[(&str, Option<&str>, Option<u64>)]) -> MapObject {
    MapObject {
        name: name.as_bytes().to_vec(),
        kind: kind.as_bytes().to_vec(),
        location: b"0,0,0".to_vec(),
        properties: props
            .iter()
            .map(|(n, t, w)| Property {
                name: n.as_bytes().to_vec(),
                value: PropertyValue { text: t.map(|t| t.as_bytes().to_vec()), whole: *w },
            })
            .collect(),
    }
}

fn spawn(permitted: &str, team: u64) -> MapObject {
    object(
        "SpawnPoint",
        "gameObject",
        &[
            ("Path", Some(""), None),
            ("PermittedCharacterProfiles", Some(permitted), None),
            ("TeamMask", None, Some(team)),
        ],
    )
}

#[test]
fn map_spawns_are_classified() {
    let secs = sections();
    let player = &secs[6];
    let objects = vec![object("Wall", "brush", &[]), spawn("Player", 1), spawn("", 2), spawn("Knock", 1)];
    let (spawns, mine) = spawn_layout(&objects, player).unwrap();
    assert_eq!(spawns, vec![1, 2, 3]);
    assert_eq!(mine, 1);
    let odd = vec![object("Light", "gameObject", &[])];
    assert!(matches!(spawn_layout(&odd, player), Err(SceError::UnsupportedObject)));
    assert!(matches!(spawn_layout(&vec![spawn("", 2)], player), Err(SceError::PlayerSpawns)));

    let mut slots = KnockerSlots::new();
    slots.add(b"Knock".to_vec(), 5);
    assert_eq!(slots.slots[0].2, 1);
    assert!(!slots.all_placed());
    assert_eq!(classify_spawn(&objects[2], b"sphere", &mut slots, player).unwrap(), SpawnRole::Target);
    assert_eq!(classify_spawn(&objects[1], b"Sphere", &mut slots, player).unwrap(), SpawnRole::Player);
    assert_eq!(classify_spawn(&objects[3], b"Sphere", &mut slots, player).unwrap(), SpawnRole::Knocker(5));
    assert!(slots.all_placed());
    assert!(matches!(classify_spawn(&objects[3], b"Sphere", &mut slots, player), Err(SceError::KnockerPlacement)));
    assert!(matches!(
        classify_spawn(&spawn("Ghost", 1), b"Sphere", &mut slots, player),
        Err(SceError::UnresolvedSpawn(p)) if p == b"Ghost"
    ));
    let twice = object(
        "SpawnPoint",
        "gameObject",
        &[("Path", Some(""), None), ("Path", Some(""), None)],
    );
    assert!(matches!(twice.text(b"Path"), Err(SceError::DuplicateProperty(k)) if k == b"Path"));
    assert!(matches!(twice.text(b"TeamMask"), Err(SceError::MissingProperty(k)) if k == b"TeamMask"));
    let pathed = object("SpawnPoint", "gameObject", &[("Path", Some("route"), None)]);
    assert!(matches!(classify_spawn(&pathed, b"Sphere", &mut slots, player), Err(SceError::SpawnPath)));
}

#[test]
fn scenario_ids_come_from_the_file_bytes() {
    assert_eq!(hex_id(source_hash(b"")), b"6c62272e07bb014262b821756295c58d".to_vec());
    assert_eq!(hex_id(source_hash(b"a")), b"d228cb696f1a8caf78912b704e4a8964".to_vec());
    assert_eq!(hex_id(source_hash(b"hello")), b"e3e1efd54283d94f7081314b599d31b3".to_vec());
    assert_eq!(hex_id(1), b"00000000000000000000000000000001".to_vec());
    let id = hex_id(source_hash(PROFILES.as_bytes()));
    assert!(valid_identity(b"Demo", &id));
    assert!(!valid_identity(b"", &id));
    assert!(!valid_identity(b"Tab\there", &id));
    assert!(!valid_identity("C1\u{85}".as_bytes(), &id));
    assert!(valid_identity("Caf\u{e9}".as_bytes(), &id));
    assert!(!valid_identity(&[b'n'; 81], &id));
    assert!(!valid_identity(b"Demo", b"xyz"));
    assert!(!valid_identity(b"Demo", &[b'g'; 32]));
    assert!(valid_identity(b"Demo", &[b'F'; 32]));
}

#[test]
fn files_split_at_the_map_marker() {
    let text = b"Name=x\n[Map Data]{\"objects\":[]}";
    let (a, b) = split_parts(text).unwrap();
    assert_eq!(&text[..a], b"Name=x\n");
    assert_eq!(&text[b..], b"{\"objects\":[]}");
    assert!(matches!(split_parts(b"Name=x"), Err(SceError::NoMapData)));
    let big = vec![b' '; 2 * 1024 * 1024 + 1];
    assert!(matches!(split_parts(&big), Err(SceError::TooLarge)));
}
