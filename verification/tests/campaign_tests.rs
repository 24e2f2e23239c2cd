use daggerboard::error::AppError;
use daggerboard::store::Store;

fn ts(s: &str) -> String {
    s.to_string()
}

#[test]
fn create_campaign_round_trip() {
    let mut st = Store::new();
    let c = st
        .create_campaign_with_id(ts("c1"), ts("Shadows"), ts("2024-01-01 10:00:00"))
        .unwrap();
    assert_eq!(c.id, "c1");
    assert_eq!(c.name, "Shadows");
    assert_eq!(c.fear_level, 0);
    assert!(!c.allow_massive_damage);
    assert_eq!(c.created_at, "2024-01-01 10:00:00");
    let got = st.get_campaign_by_id(&ts("c1")).unwrap();
    assert_eq!(got.id, "c1");
    assert_eq!(got.name, "Shadows");
    assert_eq!(got.fear_level, 0);
    assert_eq!(got.created_at, "2024-01-01 10:00:00");
}

#[test]
fn create_campaign_duplicate_id_fails() {
    let mut st = Store::new();
    st.create_campaign_with_id(ts("c1"), ts("A"), ts("t1")).unwrap();
    let err = st.create_campaign_with_id(ts("c1"), ts("B"), ts("t2")).unwrap_err();
    assert!(matches!(err, AppError::PersistenceError(_)));
    assert_eq!(st.get_campaigns().len(), 1);
}

#[test]
fn campaigns_listed_newest_first() {
    let mut st = Store::new();
    st.create_campaign_with_id(ts("c1"), ts("First"), ts("t1")).unwrap();
    st.create_campaign_with_id(ts("c2"), ts("Second"), ts("t2")).unwrap();
    let all = st.get_campaigns();
    assert_eq!(all.len(), 2);
    assert_eq!(all[0].id, "c2");
    assert_eq!(all[1].id, "c1");
}

#[test]
fn generated_campaign_ids_are_fresh() {
    let mut st = Store::new();
    let a = st.create_campaign(ts("A"), ts("t1")).unwrap();
    let b = st.create_campaign(ts("B"), ts("t2")).unwrap();
    assert_ne!(a.id, b.id);
    assert_eq!(a.id.len(), 36);
}

#[test]
fn set_current_campaign_validates_target() {
    let mut st = Store::new();
    st.create_campaign_with_id(ts("c1"), ts("A"), ts("t1")).unwrap();
    let err = st.set_current_campaign(&ts("nope")).unwrap_err();
    assert!(matches!(err, AppError::EntityNotFound(_)));
    assert_eq!(st.get_current_campaign_id(), None);
    let c = st.set_current_campaign(&ts("c1")).unwrap();
    assert_eq!(c.id, "c1");
    assert_eq!(st.get_current_campaign_id(), Some(ts("c1")));
    let cur = st.get_current_campaign().unwrap().unwrap();
    assert_eq!(cur.id, "c1");
}

#[test]
fn rename_campaign_keeps_other_fields() {
    let mut st = Store::new();
    st.create_campaign_with_id(ts("c1"), ts("Old"), ts("t1")).unwrap();
    let c = st.rename_campaign(&ts("c1"), ts("New")).unwrap();
    assert_eq!(c.name, "New");
    assert_eq!(c.created_at, "t1");
    assert_eq!(c.fear_level, 0);
    let err = st.rename_campaign(&ts("missing"), ts("X")).unwrap_err();
    assert!(matches!(err, AppError::EntityNotFound(_)));
}

#[test]
fn campaign_settings_update() {
    let mut st = Store::new();
    st.create_campaign_with_id(ts("c1"), ts("A"), ts("t1")).unwrap();
    let s = st.get_campaign_settings(&ts("c1")).unwrap();
    assert!(!s.allow_massive_damage);
    let s2 = st
        .update_campaign_settings(
            &ts("c1"),
            daggerboard::campaign::CampaignSettings { allow_massive_damage: true },
        )
        .unwrap();
    assert!(s2.allow_massive_damage);
    assert!(st.get_campaign_by_id(&ts("c1")).unwrap().allow_massive_damage);
}

#[test]
fn ensure_campaign_exists_is_idempotent() {
    let mut st = Store::new();
    st.create_campaign_with_id(ts("c1"), ts("A"), ts("t1")).unwrap();
    st.set_current_campaign(&ts("c1")).unwrap();
    let before = st.get_campaigns().len();
    let r1 = st.ensure_campaign_exists(ts("t2"));
    let r2 = st.ensure_campaign_exists(ts("t3"));
    assert_eq!(r1, "c1");
    assert_eq!(r2, "c1");
    assert_eq!(st.get_campaigns().len(), before);
    assert_eq!(st.get_current_campaign_id(), Some(ts("c1")));
}

#[test]
fn ensure_campaign_exists_selects_existing() {
    let mut st = Store::new();
    st.create_campaign_with_id(ts("c1"), ts("A"), ts("t1")).unwrap();
    st.create_campaign_with_id(ts("c2"), ts("B"), ts("t2")).unwrap();
    let r = st.ensure_campaign_exists(ts("t3"));
    assert_eq!(r, "c2");
    assert_eq!(st.get_current_campaign_id(), Some(ts("c2")));
    assert_eq!(st.get_campaigns().len(), 2);
}

#[test]
fn ensure_campaign_exists_creates_default() {
    let mut st = Store::new();
    let r = st.ensure_campaign_exists_with_id(ts("fresh"), ts("t1"));
    assert_eq!(r, "fresh");
    let all = st.get_campaigns();
    assert_eq!(all.len(), 1);
    assert_eq!(all[0].name, "My Campaign");
    assert_eq!(all[0].created_at, "t1");
    assert_eq!(st.get_current_campaign_id(), Some(ts("fresh")));
}

#[test]
fn delete_campaign_refuses_current_and_last() {
    let mut st = Store::new();
    st.create_campaign_with_id(ts("c1"), ts("A"), ts("t1")).unwrap();
    let err = st.delete_campaign(&ts("c1")).unwrap_err();
    assert!(matches!(err, AppError::Validation(_)));
    assert_eq!(
        err.message(),
        "Validation error: Cannot delete the last campaign. There must be at least one campaign."
    );

    st.create_campaign_with_id(ts("c2"), ts("B"), ts("t2")).unwrap();
    st.set_current_campaign(&ts("c2")).unwrap();
    let err = st.delete_campaign(&ts("c2")).unwrap_err();
    assert!(matches!(err, AppError::Validation(_)));
    assert_eq!(
        err.message(),
        "Validation error: Cannot delete the active campaign. Switch to another campaign first."
    );
    assert_eq!(st.get_campaigns().len(), 2);
}

#[test]
fn delete_campaign_missing_id() {
    let mut st = Store::new();
    st.create_campaign_with_id(ts("c1"), ts("A"), ts("t1")).unwrap();
    st.create_campaign_with_id(ts("c2"), ts("B"), ts("t2")).unwrap();
    st.set_current_campaign(&ts("c1")).unwrap();
    let err = st.delete_campaign(&ts("nope")).unwrap_err();
    assert!(matches!(err, AppError::EntityNotFound(_)));
}

#[test]
fn delete_campaign_cascades() {
    let mut st = Store::new();
    st.create_campaign_with_id(ts("c1"), ts("A"), ts("t1")).unwrap();
    st.create_campaign_with_id(ts("c2"), ts("B"), ts("t2")).unwrap();
    st.set_current_campaign(&ts("c2")).unwrap();
    let e = st
        .create_entity_with_id(
            ts("e-keep"),
            ts("Goblin"),
            10,
            None,
            daggerboard::entity::DamageThresholds { minor: 1, major: 2, severe: 3 },
            daggerboard::entity::EntityType::Adversary,
        )
        .unwrap();
    assert_eq!(e.campaign_id, "c2");
    st.create_note_with_id(ts("n1"), &ts("c1"), None, ts("t3")).unwrap();
    st.save_dice_roll_with_id(
        ts("r1"),
        &ts("c1"),
        ts("1d6"),
        ts("[4]"),
        0,
        4,
        false,
        false,
        false,
        ts("2024-01-02 09:00:00"),
    )
    .unwrap();

    // Owned by c1: the note and the roll; owned by c2: the entity.
    st.set_current_campaign(&ts("c2")).unwrap();
    st.delete_campaign(&ts("c1")).unwrap();
    assert_eq!(st.get_campaigns().len(), 1);
    assert!(matches!(
        st.get_campaign_by_id(&ts("c1")).unwrap_err(),
        AppError::EntityNotFound(_)
    ));
    assert!(matches!(st.get_note(&ts("n1")).unwrap_err(), AppError::EntityNotFound(_)));
    assert_eq!(st.get_dice_rolls(&ts("c1"), None).len(), 0);
    // The other campaign's records survive.
    assert_eq!(st.get_entities(false).unwrap().len(), 1);
}

#[test]
fn notes_crud_and_recency_order() {
    let mut st = Store::new();
    st.create_campaign_with_id(ts("c1"), ts("A"), ts("t1")).unwrap();
    let n1 = st.create_note_with_id(ts("n1"), &ts("c1"), Some(ts("First")), ts("t2")).unwrap();
    assert_eq!(n1.content, "");
    assert_eq!(n1.title, Some(ts("First")));
    assert_eq!(n1.created_at, "t2");
    assert_eq!(n1.updated_at, "t2");
    let n2 = st.create_note_with_id(ts("n2"), &ts("c1"), None, ts("t3")).unwrap();
    assert_eq!(n2.title, None);

    let list = st.get_campaign_notes(&ts("c1"));
    assert_eq!(list.len(), 2);
    assert_eq!(list[0].id, "n2");
    assert_eq!(list[1].id, "n1");

    // Updating a note moves it to the front of the recency order.
    let upd = st
        .update_note(&ts("n1"), Some(ts("First!")), ts("now with text"), ts("t4"))
        .unwrap();
    assert_eq!(upd.content, "now with text");
    assert_eq!(upd.updated_at, "t4");
    assert_eq!(upd.created_at, "t2");
    let list = st.get_campaign_notes(&ts("c1"));
    assert_eq!(list[0].id, "n1");
    assert_eq!(list[1].id, "n2");

    st.delete_note(&ts("n2")).unwrap();
    assert!(matches!(st.get_note(&ts("n2")).unwrap_err(), AppError::EntityNotFound(_)));
    assert_eq!(st.get_campaign_notes(&ts("c1")).len(), 1);
}

#[test]
fn note_creation_needs_existing_campaign() {
    let mut st = Store::new();
    let err = st.create_note_with_id(ts("n1"), &ts("ghost"), None, ts("t1")).unwrap_err();
    assert!(matches!(err, AppError::PersistenceError(_)));
}
