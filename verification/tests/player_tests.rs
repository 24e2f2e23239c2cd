use daggerboard::error::AppError;
use daggerboard::player_character::{
    default_hp, default_level, default_stress, default_threshold_major, default_threshold_minor,
    default_threshold_severe, CreatePlayerCharacter, UpdatePlayerCharacter,
};
use daggerboard::store::Store;

fn ts(s: &str) -> String {
    s.to_string()
}

fn setup() -> Store {
    let mut st = Store::new();
    st.create_campaign_with_id(ts("c1"), ts("A"), ts("t0")).unwrap();
    st
}

fn sample_create(name: &str) -> CreatePlayerCharacter {
    CreatePlayerCharacter {
        name: ts(name),
        ancestry: Some(ts("Elf")),
        community: None,
        class: Some(ts("Ranger")),
        subclass: None,
        domain: None,
        level: default_level(),
        attr_agility: 2,
        attr_strength: 0,
        attr_finesse: 1,
        attr_instinct: 1,
        attr_presence: 0,
        attr_knowledge: -1,
        hp_max: default_hp(),
        threshold_minor: default_threshold_minor(),
        threshold_major: default_threshold_major(),
        threshold_severe: default_threshold_severe(),
        armor_max: 3,
        evasion: 10,
        stress_max: default_stress(),
    }
}

fn no_update() -> UpdatePlayerCharacter {
    UpdatePlayerCharacter {
        name: None,
        ancestry: None,
        community: None,
        class: None,
        subclass: None,
        domain: None,
        level: None,
        attr_agility: None,
        attr_strength: None,
        attr_finesse: None,
        attr_instinct: None,
        attr_presence: None,
        attr_knowledge: None,
        hp_current: None,
        hp_max: None,
        threshold_minor: None,
        threshold_major: None,
        threshold_severe: None,
        armor_current: None,
        armor_max: None,
        evasion: None,
        hope: None,
        stress_current: None,
        stress_max: None,
        experiences: None,
        background: None,
        notes: None,
    }
}

#[test]
fn defaults_match_the_sheet() {
    assert_eq!(default_level(), 1);
    assert_eq!(default_hp(), 6);
    assert_eq!(default_threshold_minor(), 1);
    assert_eq!(default_threshold_major(), 6);
    assert_eq!(default_threshold_severe(), 11);
    assert_eq!(default_stress(), 6);
}

#[test]
fn create_character_round_trip() {
    let mut st = setup();
    let p = st
        .create_player_character_with_id(ts("p1"), &ts("c1"), sample_create("Lira"), ts("t1"))
        .unwrap();
    assert_eq!(p.id, "p1");
    assert_eq!(p.campaign_id, "c1");
    assert_eq!(p.name, "Lira");
    assert_eq!(p.ancestry, Some(ts("Elf")));
    assert_eq!(p.class, Some(ts("Ranger")));
    assert_eq!(p.level, 1);
    assert_eq!(p.hp_current, 6);
    assert_eq!(p.hp_max, 6);
    assert_eq!(p.armor_current, 0);
    assert_eq!(p.armor_max, 3);
    assert_eq!(p.hope, 0);
    assert_eq!(p.stress_current, 0);
    assert_eq!(p.stress_max, 6);
    assert_eq!(p.experiences, "[]");
    assert_eq!(p.background, None);
    assert_eq!(p.notes, None);
    assert_eq!(p.created_at, "t1");
    assert_eq!(p.updated_at, "t1");

    let got = st.get_player_character(&ts("p1")).unwrap();
    assert_eq!(got.name, "Lira");
    assert_eq!(got.hp_current, 6);
    assert_eq!(got.attr_agility, 2);
    assert_eq!(got.attr_knowledge, -1);

    let list = st.get_player_characters(&ts("c1"));
    assert_eq!(list.len(), 1);
    assert_eq!(list[0].id, "p1");
}

#[test]
fn create_character_needs_existing_campaign() {
    let mut st = setup();
    let err = st
        .create_player_character_with_id(ts("p1"), &ts("ghost"), sample_create("X"), ts("t1"))
        .unwrap_err();
    assert!(matches!(err, AppError::PersistenceError(_)));
}

#[test]
fn partial_update_touches_only_supplied_fields() {
    let mut st = setup();
    st.create_player_character_with_id(ts("p1"), &ts("c1"), sample_create("Lira"), ts("t1"))
        .unwrap();
    let mut upd = no_update();
    upd.name = Some(ts("Lirael"));
    upd.hope = Some(4);
    upd.notes = Some(ts("met the dragon"));
    let p = st.update_player_character(&ts("p1"), upd, ts("t2")).unwrap();
    assert_eq!(p.name, "Lirael");
    assert_eq!(p.hope, 4);
    assert_eq!(p.notes, Some(ts("met the dragon")));
    // Untouched fields stay as they were.
    assert_eq!(p.ancestry, Some(ts("Elf")));
    assert_eq!(p.hp_current, 6);
    assert_eq!(p.stress_max, 6);
    assert_eq!(p.created_at, "t1");
    assert_eq!(p.updated_at, "t2");

    // An empty update still refreshes the timestamp and nothing else.
    let p = st.update_player_character(&ts("p1"), no_update(), ts("t3")).unwrap();
    assert_eq!(p.name, "Lirael");
    assert_eq!(p.updated_at, "t3");
}

#[test]
fn update_missing_character_fails() {
    let mut st = setup();
    let err = st.update_player_character(&ts("nope"), no_update(), ts("t1")).unwrap_err();
    assert!(matches!(err, AppError::EntityNotFound(_)));
}

#[test]
fn adjust_hp_and_hope_floor_at_zero() {
    let mut st = setup();
    st.create_player_character_with_id(ts("p1"), &ts("c1"), sample_create("Lira"), ts("t1"))
        .unwrap();
    let p = st.adjust_player_hp(&ts("p1"), -100, ts("t2")).unwrap();
    assert_eq!(p.hp_current, 0);
    // HP has no ceiling at hp_max for player characters.
    let p = st.adjust_player_hp(&ts("p1"), 20, ts("t3")).unwrap();
    assert_eq!(p.hp_current, 20);
    assert_eq!(p.updated_at, "t3");

    let p = st.adjust_player_hope(&ts("p1"), 3, ts("t4")).unwrap();
    assert_eq!(p.hope, 3);
    let p = st.adjust_player_hope(&ts("p1"), -9, ts("t5")).unwrap();
    assert_eq!(p.hope, 0);
}

#[test]
fn adjust_stress_and_armor_clamp_to_max() {
    let mut st = setup();
    st.create_player_character_with_id(ts("p1"), &ts("c1"), sample_create("Lira"), ts("t1"))
        .unwrap();
    let p = st.adjust_player_stress(&ts("p1"), 10, ts("t2")).unwrap();
    assert_eq!(p.stress_current, 6);
    let p = st.adjust_player_stress(&ts("p1"), -2, ts("t3")).unwrap();
    assert_eq!(p.stress_current, 4);
    let p = st.adjust_player_stress(&ts("p1"), -100, ts("t4")).unwrap();
    assert_eq!(p.stress_current, 0);

    let p = st.adjust_player_armor(&ts("p1"), 5, ts("t5")).unwrap();
    assert_eq!(p.armor_current, 3);
    let p = st.adjust_player_armor(&ts("p1"), -1, ts("t6")).unwrap();
    assert_eq!(p.armor_current, 2);
    let p = st.adjust_player_armor(&ts("p1"), -10, ts("t7")).unwrap();
    assert_eq!(p.armor_current, 0);
}

#[test]
fn delete_character() {
    let mut st = setup();
    st.create_player_character_with_id(ts("p1"), &ts("c1"), sample_create("Lira"), ts("t1"))
        .unwrap();
    st.delete_player_character(&ts("p1")).unwrap();
    assert!(matches!(
        st.get_player_character(&ts("p1")).unwrap_err(),
        AppError::EntityNotFound(_)
    ));
    assert!(matches!(
        st.delete_player_character(&ts("p1")).unwrap_err(),
        AppError::EntityNotFound(_)
    ));
    assert_eq!(st.get_player_characters(&ts("c1")).len(), 0);
}

#[test]
fn characters_scoped_by_campaign() {
    let mut st = setup();
    st.create_campaign_with_id(ts("c2"), ts("B"), ts("t0")).unwrap();
    st.create_player_character_with_id(ts("p1"), &ts("c1"), sample_create("Lira"), ts("t1"))
        .unwrap();
    st.create_player_character_with_id(ts("p2"), &ts("c2"), sample_create("Brun"), ts("t2"))
        .unwrap();
    assert_eq!(st.get_player_characters(&ts("c1")).len(), 1);
    assert_eq!(st.get_player_characters(&ts("c2")).len(), 1);
    assert_eq!(st.get_player_characters(&ts("c1"))[0].name, "Lira");
}
