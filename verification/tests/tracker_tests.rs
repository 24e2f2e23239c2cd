use daggerboard::countdown::{TickLabel, TrackerType};
use daggerboard::error::AppError;
use daggerboard::store::Store;

fn ts(s: &str) -> String {
    s.to_string()
}

fn setup() -> Store {
    let mut st = Store::new();
    st.create_campaign_with_id(ts("c1"), ts("A"), ts("t1")).unwrap();
    st.set_current_campaign(&ts("c1")).unwrap();
    st
}

fn labels(t: &daggerboard::countdown::CountdownTracker) -> &Vec<TickLabel> {
    t.tick_labels.as_ref().unwrap()
}

#[test]
fn create_tracker_round_trip() {
    let mut st = setup();
    let t = st
        .create_tracker_with_id(ts("t1"), ts("Doom"), 8, TrackerType::Complex, Some(true), None)
        .unwrap();
    assert_eq!(t.id, "t1");
    assert_eq!(t.campaign_id, "c1");
    assert_eq!(t.name, "Doom");
    assert_eq!(t.current, 8);
    assert_eq!(t.max, 8);
    assert!(t.visible_to_players);
    assert!(!t.hide_name_from_players);
    assert_eq!(t.tracker_type, TrackerType::Complex);
    assert_eq!(labels(&t).len(), 0);

    let list = st.get_trackers(false).unwrap();
    assert_eq!(list.len(), 1);
    assert_eq!(list[0].id, "t1");
    assert_eq!(list[0].current, 8);
}

#[test]
fn simple_tracker_has_no_label_list() {
    let mut st = setup();
    let t = st
        .create_tracker_with_id(ts("t1"), ts("Clock"), 4, TrackerType::Simple, None, None)
        .unwrap();
    assert!(t.tick_labels.is_none());
}

#[test]
fn tracker_needs_campaign() {
    let mut st = Store::new();
    let err = st
        .create_tracker_with_id(ts("t1"), ts("X"), 4, TrackerType::Simple, None, None)
        .unwrap_err();
    assert!(matches!(err, AppError::InvalidOperation(_)));
}

#[test]
fn tracker_value_always_in_range() {
    let mut st = setup();
    st.create_tracker_with_id(ts("t1"), ts("X"), 10, TrackerType::Simple, None, None).unwrap();
    let t = st.set_tracker_value(&ts("t1"), -5).unwrap();
    assert_eq!(t.current, 0);
    let t = st.update_tracker_value(&ts("t1"), 999).unwrap();
    assert_eq!(t.current, 10);
    let t = st.update_tracker_value(&ts("t1"), -4).unwrap();
    assert_eq!(t.current, 6);
    let t = st.set_tracker_value(&ts("t1"), 100).unwrap();
    assert_eq!(t.current, 10);
    assert!(0 <= t.current && t.current <= t.max);
}

#[test]
fn set_tick_label_on_simple_tracker_fails() {
    let mut st = setup();
    st.create_tracker_with_id(ts("t1"), ts("X"), 10, TrackerType::Simple, None, None).unwrap();
    let err = st.set_tick_label(&ts("t1"), 2, ts("half")).unwrap_err();
    assert!(matches!(err, AppError::InvalidOperation(_)));
    assert_eq!(err.message(), "Invalid operation: Cannot add tick labels to simple tracker");
}

#[test]
fn set_tick_label_out_of_range_fails() {
    let mut st = setup();
    st.create_tracker_with_id(ts("t1"), ts("X"), 10, TrackerType::Complex, None, None).unwrap();
    let err = st.set_tick_label(&ts("t1"), 11, ts("over")).unwrap_err();
    assert!(matches!(err, AppError::OutOfRange(_)));
    let err = st.set_tick_label(&ts("t1"), -1, ts("under")).unwrap_err();
    assert!(matches!(err, AppError::OutOfRange(_)));
}

#[test]
fn tick_labels_upsert_and_remove() {
    let mut st = setup();
    st.create_tracker_with_id(ts("t1"), ts("X"), 10, TrackerType::Complex, None, None).unwrap();
    let t = st.set_tick_label(&ts("t1"), 3, ts("three")).unwrap();
    assert_eq!(labels(&t).len(), 1);
    assert_eq!(labels(&t)[0].tick, 3);
    assert_eq!(labels(&t)[0].label, "three");

    // Upsert replaces the existing label at the same tick.
    let t = st.set_tick_label(&ts("t1"), 3, ts("trois")).unwrap();
    assert_eq!(labels(&t).len(), 1);
    assert_eq!(labels(&t)[0].label, "trois");

    let t = st.set_tick_label(&ts("t1"), 0, ts("start")).unwrap();
    assert_eq!(labels(&t).len(), 2);
    let t = st.set_tick_label(&ts("t1"), 10, ts("end")).unwrap();
    assert_eq!(labels(&t).len(), 3);

    let t = st.remove_tick_label(&ts("t1"), 3).unwrap();
    assert_eq!(labels(&t).len(), 2);
    assert!(labels(&t).iter().all(|l| l.tick != 3));

    // Removing an absent tick is a no-op.
    let t = st.remove_tick_label(&ts("t1"), 7).unwrap();
    assert_eq!(labels(&t).len(), 2);
}

#[test]
fn remove_tick_label_on_simple_is_noop() {
    let mut st = setup();
    st.create_tracker_with_id(ts("t1"), ts("X"), 10, TrackerType::Simple, None, None).unwrap();
    let t = st.remove_tick_label(&ts("t1"), 2).unwrap();
    assert!(t.tick_labels.is_none());
    let err = st.remove_tick_label(&ts("ghost"), 2).unwrap_err();
    assert!(matches!(err, AppError::TrackerNotFound(_)));
}

#[test]
fn tracker_visibility_toggles() {
    let mut st = setup();
    st.create_tracker_with_id(ts("t1"), ts("X"), 4, TrackerType::Simple, None, None).unwrap();
    let t = st.toggle_tracker_visibility(&ts("t1"), true).unwrap();
    assert!(t.visible_to_players);
    assert_eq!(st.get_trackers(true).unwrap().len(), 1);
    let t = st.toggle_tracker_name_visibility(&ts("t1"), true).unwrap();
    assert!(t.hide_name_from_players);
    let t = st.toggle_tracker_visibility(&ts("t1"), false).unwrap();
    assert!(!t.visible_to_players);
    assert_eq!(st.get_trackers(true).unwrap().len(), 0);
}

#[test]
fn set_all_trackers_visibility_scopes_to_campaign() {
    let mut st = setup();
    st.create_tracker_with_id(ts("t1"), ts("A"), 4, TrackerType::Simple, None, None).unwrap();
    st.create_tracker_with_id(ts("t2"), ts("B"), 4, TrackerType::Simple, Some(true), None).unwrap();
    st.create_campaign_with_id(ts("c2"), ts("Other"), ts("t2")).unwrap();
    st.set_current_campaign(&ts("c2")).unwrap();
    st.create_tracker_with_id(ts("t3"), ts("C"), 4, TrackerType::Simple, Some(true), None).unwrap();

    st.set_current_campaign(&ts("c1")).unwrap();
    let list = st.set_all_trackers_visibility(false).unwrap();
    assert_eq!(list.len(), 2);
    assert!(list.iter().all(|t| !t.visible_to_players));

    st.set_current_campaign(&ts("c2")).unwrap();
    let other = st.get_trackers(false).unwrap();
    assert!(other[0].visible_to_players);
}

#[test]
fn delete_tracker_and_missing_errors() {
    let mut st = setup();
    st.create_tracker_with_id(ts("t1"), ts("X"), 4, TrackerType::Simple, None, None).unwrap();
    st.delete_tracker(&ts("t1")).unwrap();
    assert!(matches!(st.delete_tracker(&ts("t1")).unwrap_err(), AppError::TrackerNotFound(_)));
    assert!(matches!(
        st.update_tracker_value(&ts("t1"), 1).unwrap_err(),
        AppError::TrackerNotFound(_)
    ));
    assert!(matches!(
        st.set_tick_label(&ts("t1"), 0, ts("x")).unwrap_err(),
        AppError::TrackerNotFound(_)
    ));
}

#[test]
fn tracker_type_wire_names() {
    assert_eq!(TrackerType::Simple.as_str(), "simple");
    assert_eq!(TrackerType::Complex.as_str(), "complex");
    assert_eq!(TrackerType::from_str("complex"), TrackerType::Complex);
    assert_eq!(TrackerType::from_str("simple"), TrackerType::Simple);
    assert_eq!(TrackerType::from_str("other"), TrackerType::Simple);
    assert_eq!(TrackerType::from_str(TrackerType::Complex.as_str()), TrackerType::Complex);
}
