use daggerboard::entity::{DamageThresholds, EntityType};
use daggerboard::error::AppError;
use daggerboard::store::Store;

fn ts(s: &str) -> String {
    s.to_string()
}

fn setup() -> Store {
    let mut st = Store::new();
    st.create_campaign_with_id(ts("c1"), ts("A"), ts("t1")).unwrap();
    st.set_current_campaign(&ts("c1")).unwrap();
    st
}

fn thresholds(minor: i32, major: i32, severe: i32) -> DamageThresholds {
    DamageThresholds { minor, major, severe }
}

#[test]
fn create_entity_round_trip() {
    let mut st = setup();
    let e = st
        .create_entity_with_id(
            ts("e1"),
            ts("Ogre"),
            12,
            Some(5),
            thresholds(3, 6, 10),
            EntityType::Adversary,
        )
        .unwrap();
    assert_eq!(e.id, "e1");
    assert_eq!(e.campaign_id, "c1");
    assert_eq!(e.name, "Ogre");
    assert_eq!(e.hp_current, 12);
    assert_eq!(e.hp_max, 12);
    assert_eq!(e.stress_current, 0);
    assert_eq!(e.stress_max, 5);
    assert_eq!(e.thresholds, thresholds(3, 6, 10));
    assert!(!e.visible_to_players);
    assert_eq!(e.entity_type, EntityType::Adversary);

    let list = st.get_entities(false).unwrap();
    assert_eq!(list.len(), 1);
    assert_eq!(list[0].id, "e1");
    assert_eq!(list[0].name, "Ogre");
    assert_eq!(list[0].hp_current, 12);
}

#[test]
fn create_entity_caps_stress_max() {
    let mut st = setup();
    let e = st
        .create_entity_with_id(ts("e1"), ts("X"), 5, Some(20), thresholds(1, 2, 3), EntityType::Npc)
        .unwrap();
    assert_eq!(e.stress_max, 12);
    let e2 = st
        .create_entity_with_id(ts("e2"), ts("Y"), 5, None, thresholds(1, 2, 3), EntityType::Npc)
        .unwrap();
    assert_eq!(e2.stress_max, 0);
}

#[test]
fn create_entity_needs_campaign() {
    let mut st = Store::new();
    let err = st
        .create_entity_with_id(ts("e1"), ts("X"), 5, None, thresholds(1, 2, 3), EntityType::Npc)
        .unwrap_err();
    assert!(matches!(err, AppError::InvalidOperation(_)));
    assert_eq!(err.message(), "Invalid operation: No campaign selected");
}

#[test]
fn hp_stays_in_range_after_updates() {
    let mut st = setup();
    st.create_entity_with_id(ts("e1"), ts("X"), 10, None, thresholds(1, 2, 3), EntityType::Npc)
        .unwrap();

    let e = st.update_entity_hp(&ts("e1"), -999).unwrap();
    assert_eq!(e.hp_current, 0);
    let e = st.update_entity_hp(&ts("e1"), 999).unwrap();
    assert_eq!(e.hp_current, 10);
    let e = st.update_entity_hp(&ts("e1"), -3).unwrap();
    assert_eq!(e.hp_current, 7);
    let e = st.set_entity_hp(&ts("e1"), -5).unwrap();
    assert_eq!(e.hp_current, 0);
    let e = st.set_entity_hp(&ts("e1"), 25).unwrap();
    assert_eq!(e.hp_current, 10);
    let e = st.set_entity_hp(&ts("e1"), 4).unwrap();
    assert_eq!(e.hp_current, 4);
    assert!(0 <= e.hp_current && e.hp_current <= e.hp_max);
}

#[test]
fn hp_update_overflow_is_safe() {
    let mut st = setup();
    st.create_entity_with_id(
        ts("e1"),
        ts("X"),
        i32::MAX,
        None,
        thresholds(1, 2, 3),
        EntityType::Npc,
    )
    .unwrap();
    let e = st.update_entity_hp(&ts("e1"), i32::MAX).unwrap();
    assert_eq!(e.hp_current, i32::MAX);
    let e = st.update_entity_hp(&ts("e1"), i32::MIN).unwrap();
    assert_eq!(e.hp_current, 0);
}

#[test]
fn damage_taxonomy() {
    let mut st = setup();
    st.create_entity_with_id(ts("e1"), ts("X"), 10, None, thresholds(3, 6, 10), EntityType::Npc)
        .unwrap();

    // Massive: damage >= 2 * severe costs 4 HP.
    let r = st.apply_damage(&ts("e1"), 20).unwrap();
    assert_eq!(r.threshold_hit, Some(ts("massive")));
    assert_eq!(r.damage_dealt, 4);
    assert_eq!(r.entity.hp_current, 6);

    // Severe boundary costs 3.
    let r = st.apply_damage(&ts("e1"), 10).unwrap();
    assert_eq!(r.threshold_hit, Some(ts("severe")));
    assert_eq!(r.damage_dealt, 3);
    assert_eq!(r.entity.hp_current, 3);

    // Major boundary costs 2.
    let r = st.apply_damage(&ts("e1"), 6).unwrap();
    assert_eq!(r.threshold_hit, Some(ts("major")));
    assert_eq!(r.damage_dealt, 2);
    assert_eq!(r.entity.hp_current, 1);

    // Minor boundary costs 1, but never below zero HP.
    let r = st.apply_damage(&ts("e1"), 3).unwrap();
    assert_eq!(r.threshold_hit, Some(ts("minor")));
    assert_eq!(r.damage_dealt, 1);
    assert_eq!(r.entity.hp_current, 0);

    // Below minor: no tier, no loss.
    let r = st.apply_damage(&ts("e1"), 2).unwrap();
    assert_eq!(r.threshold_hit, None);
    assert_eq!(r.damage_dealt, 0);
    assert_eq!(r.entity.hp_current, 0);
}

#[test]
fn damage_capped_by_remaining_hp() {
    let mut st = setup();
    st.create_entity_with_id(ts("e1"), ts("X"), 2, None, thresholds(3, 6, 10), EntityType::Npc)
        .unwrap();
    let r = st.apply_damage(&ts("e1"), 50).unwrap();
    assert_eq!(r.threshold_hit, Some(ts("massive")));
    assert_eq!(r.damage_dealt, 2);
    assert_eq!(r.entity.hp_current, 0);
}

#[test]
fn stress_overflow_scenario() {
    let mut st = setup();
    st.create_entity_with_id(ts("e1"), ts("X"), 10, Some(3), thresholds(1, 2, 3), EntityType::Npc)
        .unwrap();
    st.adjust_entity_stress(&ts("e1"), 2).unwrap();

    // stress_max = 3, stress_current = 2, amount = +3: one unit fills the
    // track, the remaining two overflow into HP damage.
    let r = st.adjust_entity_stress(&ts("e1"), 3).unwrap();
    assert_eq!(r.stress_applied, 1);
    assert_eq!(r.hp_overflow_damage, 2);
    assert_eq!(r.entity.stress_current, 3);
    assert_eq!(r.entity.hp_current, 8);
}

#[test]
fn stress_heals_never_below_zero() {
    let mut st = setup();
    st.create_entity_with_id(ts("e1"), ts("X"), 10, Some(5), thresholds(1, 2, 3), EntityType::Npc)
        .unwrap();
    st.adjust_entity_stress(&ts("e1"), 2).unwrap();
    let r = st.adjust_entity_stress(&ts("e1"), -10).unwrap();
    assert_eq!(r.stress_applied, -2);
    assert_eq!(r.hp_overflow_damage, 0);
    assert_eq!(r.entity.stress_current, 0);
    assert_eq!(r.entity.hp_current, 10);
}

#[test]
fn stress_default_cap_is_twelve() {
    let mut st = setup();
    st.create_entity_with_id(ts("e1"), ts("X"), 30, None, thresholds(1, 2, 3), EntityType::Npc)
        .unwrap();
    let r = st.adjust_entity_stress(&ts("e1"), 15).unwrap();
    assert_eq!(r.stress_applied, 12);
    assert_eq!(r.hp_overflow_damage, 3);
    assert_eq!(r.entity.stress_current, 12);
    assert_eq!(r.entity.hp_current, 27);
}

#[test]
fn stress_overflow_hp_floor() {
    let mut st = setup();
    st.create_entity_with_id(ts("e1"), ts("X"), 1, Some(1), thresholds(1, 2, 3), EntityType::Npc)
        .unwrap();
    let r = st.adjust_entity_stress(&ts("e1"), 4).unwrap();
    assert_eq!(r.stress_applied, 1);
    assert_eq!(r.hp_overflow_damage, 3);
    assert_eq!(r.entity.hp_current, 0);
}

#[test]
fn entity_field_updates() {
    let mut st = setup();
    st.create_entity_with_id(ts("e1"), ts("X"), 10, None, thresholds(1, 2, 3), EntityType::Npc)
        .unwrap();
    let e = st.update_entity_thresholds(&ts("e1"), thresholds(2, 4, 8)).unwrap();
    assert_eq!(e.thresholds, thresholds(2, 4, 8));
    let e = st.update_entity_name(&ts("e1"), ts("Renamed")).unwrap();
    assert_eq!(e.name, "Renamed");
    let e = st.toggle_entity_visibility(&ts("e1"), true).unwrap();
    assert!(e.visible_to_players);
    let only_visible = st.get_entities(true).unwrap();
    assert_eq!(only_visible.len(), 1);
    let e = st.toggle_entity_visibility(&ts("e1"), false).unwrap();
    assert!(!e.visible_to_players);
    assert_eq!(st.get_entities(true).unwrap().len(), 0);
}

#[test]
fn set_all_entities_visibility_scopes_to_campaign() {
    let mut st = setup();
    st.create_entity_with_id(ts("e1"), ts("A"), 5, None, thresholds(1, 2, 3), EntityType::Npc)
        .unwrap();
    st.create_entity_with_id(ts("e2"), ts("B"), 5, None, thresholds(1, 2, 3), EntityType::Npc)
        .unwrap();
    st.create_campaign_with_id(ts("c2"), ts("Other"), ts("t2")).unwrap();
    st.set_current_campaign(&ts("c2")).unwrap();
    st.create_entity_with_id(ts("e3"), ts("C"), 5, None, thresholds(1, 2, 3), EntityType::Npc)
        .unwrap();

    st.set_current_campaign(&ts("c1")).unwrap();
    let list = st.set_all_entities_visibility(true).unwrap();
    assert_eq!(list.len(), 2);
    assert!(list.iter().all(|e| e.visible_to_players));

    st.set_current_campaign(&ts("c2")).unwrap();
    let other = st.get_entities(false).unwrap();
    assert!(!other[0].visible_to_players);
}

#[test]
fn delete_entity_and_missing_errors() {
    let mut st = setup();
    st.create_entity_with_id(ts("e1"), ts("X"), 5, None, thresholds(1, 2, 3), EntityType::Npc)
        .unwrap();
    st.delete_entity(&ts("e1")).unwrap();
    assert!(matches!(st.delete_entity(&ts("e1")).unwrap_err(), AppError::EntityNotFound(_)));
    assert!(matches!(st.update_entity_hp(&ts("e1"), 1).unwrap_err(), AppError::EntityNotFound(_)));
    assert!(matches!(st.apply_damage(&ts("e1"), 1).unwrap_err(), AppError::EntityNotFound(_)));
    assert!(matches!(
        st.adjust_entity_stress(&ts("e1"), 1).unwrap_err(),
        AppError::EntityNotFound(_)
    ));
}

#[test]
fn threshold_ordering_is_not_enforced() {
    // Thresholds are taken as given; with an unordered set the descending
    // severity scan still applies: damage 2 >= 2 * severe(1) is massive.
    let mut st = setup();
    st.create_entity_with_id(ts("e1"), ts("X"), 10, None, thresholds(10, 2, 1), EntityType::Npc)
        .unwrap();
    let r = st.apply_damage(&ts("e1"), 2).unwrap();
    assert_eq!(r.threshold_hit, Some(ts("massive")));
    assert_eq!(r.damage_dealt, 4);
    let r = st.apply_damage(&ts("e1"), 1).unwrap();
    assert_eq!(r.threshold_hit, Some(ts("severe")));
    assert_eq!(r.damage_dealt, 3);
}

#[test]
fn nonpositive_stress_max_uses_default_cap() {
    let mut st = setup();
    st.create_entity_with_id(ts("e1"), ts("X"), 20, Some(-5), thresholds(1, 2, 3), EntityType::Npc)
        .unwrap();
    // A non-positive stored cap means the default capacity of 12 applies.
    let r = st.adjust_entity_stress(&ts("e1"), 13).unwrap();
    assert_eq!(r.stress_applied, 12);
    assert_eq!(r.hp_overflow_damage, 1);
    assert_eq!(r.entity.stress_current, 12);
    assert_eq!(r.entity.hp_current, 19);
}

#[test]
fn entity_type_wire_names() {
    assert_eq!(EntityType::Npc.as_str(), "npc");
    assert_eq!(EntityType::Adversary.as_str(), "adversary");
    assert_eq!(EntityType::from_str("npc"), EntityType::Npc);
    assert_eq!(EntityType::from_str("adversary"), EntityType::Adversary);
    assert_eq!(EntityType::from_str("anything else"), EntityType::Adversary);
    assert_eq!(EntityType::from_str(EntityType::Npc.as_str()), EntityType::Npc);
}
