use daggerboard::dice::day_of;
use daggerboard::error::AppError;
use daggerboard::store::Store;

fn ts(s: &str) -> String {
    s.to_string()
}

fn setup() -> Store {
    let mut st = Store::new();
    st.create_campaign_with_id(ts("c1"), ts("A"), ts("t0")).unwrap();
    st
}

fn roll(st: &mut Store, id: &str, when: &str, total: i32) {
    st.save_dice_roll_with_id(
        ts(id),
        &ts("c1"),
        ts("2d6+3"),
        ts("[4,5]"),
        3,
        total,
        false,
        false,
        true,
        ts(when),
    )
    .unwrap();
}

#[test]
fn save_roll_round_trip() {
    let mut st = setup();
    let d = st
        .save_dice_roll_with_id(
            ts("r1"),
            &ts("c1"),
            ts("2d6+3"),
            ts("[4,5]"),
            3,
            12,
            true,
            false,
            true,
            ts("2024-03-01 20:15:00"),
        )
        .unwrap();
    assert_eq!(d.id, "r1");
    assert_eq!(d.campaign_id, "c1");
    assert_eq!(d.notation, "2d6+3");
    assert_eq!(d.dice_data, "[4,5]");
    assert_eq!(d.modifier, 3);
    assert_eq!(d.total, 12);
    assert!(d.is_crit);
    assert!(!d.is_fumble);
    assert!(d.shared_with_players);
    assert_eq!(d.rolled_at, "2024-03-01 20:15:00");

    let list = st.get_dice_rolls(&ts("c1"), None);
    assert_eq!(list.len(), 1);
    assert_eq!(list[0].id, "r1");
}

#[test]
fn save_roll_needs_existing_campaign() {
    let mut st = setup();
    let err = st
        .save_dice_roll_with_id(
            ts("r1"),
            &ts("ghost"),
            ts("1d4"),
            ts("[2]"),
            0,
            2,
            false,
            false,
            false,
            ts("t"),
        )
        .unwrap_err();
    assert!(matches!(err, AppError::PersistenceError(_)));
}

#[test]
fn rolls_listed_newest_first_with_limit() {
    let mut st = setup();
    roll(&mut st, "r1", "2024-03-01 10:00:00", 1);
    roll(&mut st, "r2", "2024-03-01 11:00:00", 2);
    roll(&mut st, "r3", "2024-03-01 12:00:00", 3);

    let all = st.get_dice_rolls(&ts("c1"), None);
    assert_eq!(all.len(), 3);
    assert_eq!(all[0].id, "r3");
    assert_eq!(all[1].id, "r2");
    assert_eq!(all[2].id, "r1");

    let two = st.get_dice_rolls(&ts("c1"), Some(2));
    assert_eq!(two.len(), 2);
    assert_eq!(two[0].id, "r3");
    assert_eq!(two[1].id, "r2");

    // A negative limit means no cap.
    let unlimited = st.get_dice_rolls(&ts("c1"), Some(-1));
    assert_eq!(unlimited.len(), 3);

    let none = st.get_dice_rolls(&ts("c1"), Some(0));
    assert_eq!(none.len(), 0);
}

#[test]
fn day_of_truncates_at_first_space() {
    assert_eq!(day_of("2024-03-01 20:15:00"), "2024-03-01");
    assert_eq!(day_of("2024-03-01"), "2024-03-01");
    assert_eq!(day_of(""), "");
    assert_eq!(day_of(" leading"), "");
}

#[test]
fn rolls_grouped_by_date() {
    let mut st = setup();
    roll(&mut st, "r1", "2024-03-01 10:00:00", 1);
    roll(&mut st, "r2", "2024-03-01 11:00:00", 2);
    roll(&mut st, "r3", "2024-03-02 09:00:00", 3);
    roll(&mut st, "r4", "2024-03-03 09:00:00", 4);

    let grouped = st.get_dice_rolls_by_date(&ts("c1"), None);
    assert_eq!(grouped.len(), 3);
    // Newest day first (the listing is newest-first and buckets follow
    // first occurrence).
    assert_eq!(grouped[0].date, "2024-03-03");
    assert_eq!(grouped[0].rolls.len(), 1);
    assert_eq!(grouped[0].rolls[0].id, "r4");
    assert_eq!(grouped[1].date, "2024-03-02");
    assert_eq!(grouped[1].rolls.len(), 1);
    assert_eq!(grouped[2].date, "2024-03-01");
    assert_eq!(grouped[2].rolls.len(), 2);
    assert_eq!(grouped[2].rolls[0].id, "r2");
    assert_eq!(grouped[2].rolls[1].id, "r1");
}

#[test]
fn grouping_respects_limit() {
    let mut st = setup();
    roll(&mut st, "r1", "2024-03-01 10:00:00", 1);
    roll(&mut st, "r2", "2024-03-02 10:00:00", 2);
    roll(&mut st, "r3", "2024-03-03 10:00:00", 3);
    let grouped = st.get_dice_rolls_by_date(&ts("c1"), Some(2));
    assert_eq!(grouped.len(), 2);
    assert_eq!(grouped[0].date, "2024-03-03");
    assert_eq!(grouped[1].date, "2024-03-02");
}

#[test]
fn delete_roll_is_noop_when_missing() {
    let mut st = setup();
    roll(&mut st, "r1", "2024-03-01 10:00:00", 1);
    st.delete_dice_roll(&ts("r1")).unwrap();
    assert_eq!(st.get_dice_rolls(&ts("c1"), None).len(), 0);
    // Deleting again still succeeds.
    st.delete_dice_roll(&ts("r1")).unwrap();
}

#[test]
fn clear_history_scopes_to_campaign() {
    let mut st = setup();
    st.create_campaign_with_id(ts("c2"), ts("B"), ts("t0")).unwrap();
    roll(&mut st, "r1", "2024-03-01 10:00:00", 1);
    st.save_dice_roll_with_id(
        ts("r2"),
        &ts("c2"),
        ts("1d4"),
        ts("[1]"),
        0,
        1,
        false,
        true,
        false,
        ts("2024-03-01 10:05:00"),
    )
    .unwrap();
    st.clear_dice_history(&ts("c1")).unwrap();
    assert_eq!(st.get_dice_rolls(&ts("c1"), None).len(), 0);
    assert_eq!(st.get_dice_rolls(&ts("c2"), None).len(), 1);
}
