use aim_room::scenario::error::SceError;
use aim_room::scenario::lists::{parse_count, split_trimmed};
use aim_room::scenario::profile::{parse_profiles, score_key_zero_only};
use aim_room::scenario::roster::{player_weapon, KnockerSlots, TargetPick};

#[test]
fn counts_read_like_unsigned_integers() {
    assert_eq!(parse_count(b"0"), Some(0));
    assert_eq!(parse_count(b"42"), Some(42));
    assert_eq!(parse_count(b"+7"), Some(7));
    assert_eq!(parse_count(b"007"), Some(7));
    assert_eq!(parse_count(b"4294967295"), Some(u32::MAX));
    assert_eq!(parse_count(b"4294967296"), None);
    assert_eq!(parse_count(b"99999999999999999999"), None);
    assert_eq!(parse_count(b""), None);
    assert_eq!(parse_count(b"+"), None);
    assert_eq!(parse_count(b"-1"), None);
    assert_eq!(parse_count(b" 1"), None);
    assert_eq!(parse_count(b"1.0"), None);
}

#[test]
fn trimmed_lists_keep_empty_pieces() {
    assert_eq!(
        split_trimmed(b" a ; b;;\tc ", b';'),
        vec![b"a".to_vec(), b"b".to_vec(), Vec::new(), b"c".to_vec()]
    );
    assert_eq!(split_trimmed(b"", b';'), vec![Vec::<u8>::new()]);
    assert_eq!(split_trimmed("\u{3000}x\u{a0}".as_bytes(), b';'), vec![b"x".to_vec()]);
}

const WEAPONS: &str = "Name=W\n[Character Profile]\nName=One\nWeaponProfileNames=;Gun;\n[Character Profile]\nName=Two\nWeaponProfileNames=Gun;Gun\n[Character Profile]\nName=None\n[Character Profile]\nName=Lost\nWeaponProfileNames=Rifle\n[Weapon Profile]\nName=gun\n";

#[test]
fn the_player_has_exactly_one_weapon() {
    let secs = parse_profiles(WEAPONS.as_bytes()).unwrap();
    assert_eq!(player_weapon(&secs, 1).unwrap(), 5);
    assert!(matches!(player_weapon(&secs, 2), Err(SceError::PlayerWeapons)));
    assert!(matches!(
        player_weapon(&secs, 3),
        Err(SceError::MissingField { kind, key })
            if kind == b"Character Profile" && key == b"WeaponProfileNames"
    ));
    assert!(matches!(
        player_weapon(&secs, 4),
        Err(SceError::Unresolved { kind, name }) if kind == b"Weapon Profile" && name == b"Rifle"
    ));
}

const TARGETS: &str = "Name=T\n[Bot Profile]\nName=Bot\nUseWeapons=false\nNoDodging=false\n[Character Profile]\nName=Sphere\n";

#[test]
fn four_target_bots_name_one_target() {
    let secs = parse_profiles(TARGETS.as_bytes()).unwrap();
    let mut pick = TargetPick::new();
    assert!(matches!(pick.target(), Err(SceError::TargetCount)));
    for _ in 0..3 {
        pick.enlist(&secs, 1, 2).unwrap();
    }
    assert!(matches!(pick.target(), Err(SceError::TargetCount)));
    pick.enlist(&secs, 1, 2).unwrap();
    let (name, bot) = pick.target().unwrap();
    assert_eq!(name.as_slice(), b"Sphere");
    assert_eq!(bot, 1);
    pick.enlist(&secs, 1, 2).unwrap();
    assert!(matches!(pick.target(), Err(SceError::TargetCount)));
    let empty = TargetPick { chosen: None, count: 4 };
    assert!(matches!(empty.target(), Err(SceError::MissingTarget)));
}

#[test]
fn every_knocker_must_be_placed() {
    let mut slots = KnockerSlots::new();
    assert!(slots.check_placed().is_ok());
    slots.add(b"Knock".to_vec(), 3);
    assert!(matches!(slots.check_placed(), Err(SceError::MissingKnockers)));
    slots.slots[0].2 = 0;
    assert!(slots.check_placed().is_ok());
}

#[test]
fn only_some_score_settings_must_be_zero() {
    assert!(score_key_zero_only(b"ScorePerHit"));
    assert!(score_key_zero_only(b"ScorePer"));
    assert!(!score_key_zero_only(b"ScorePerKill"));
    assert!(score_key_zero_only(b"ScoreLossPerMiss"));
    assert!(score_key_zero_only(b"TimeRefilledByKill"));
    assert!(score_key_zero_only(b"EndChallengeAfterKills"));
    assert!(score_key_zero_only(b"EndChallengeAfterDamage"));
    assert!(!score_key_zero_only(b"scorePerHit"));
    assert!(!score_key_zero_only(b"Timelimit"));
    assert!(!score_key_zero_only(b""));
}
