use daggerboard::error::AppError;
use daggerboard::store::Store;

fn ts(s: &str) -> String {
    s.to_string()
}

fn setup() -> Store {
    let mut st = Store::new();
    st.create_campaign_with_id(ts("c1"), ts("A"), ts("t0")).unwrap();
    st.set_current_campaign(&ts("c1")).unwrap();
    st
}

#[test]
fn fear_ops_need_a_selected_campaign() {
    let mut st = Store::new();
    st.create_campaign_with_id(ts("c1"), ts("A"), ts("t0")).unwrap();
    assert!(matches!(st.get_fear_level().unwrap_err(), AppError::InvalidOperation(_)));
    assert!(matches!(st.adjust_fear_level(1).unwrap_err(), AppError::InvalidOperation(_)));
    assert!(matches!(st.set_fear_level(1).unwrap_err(), AppError::InvalidOperation(_)));
    assert!(matches!(st.reset_fear_level().unwrap_err(), AppError::InvalidOperation(_)));
}

#[test]
fn fear_starts_at_zero_and_floors_at_zero() {
    let mut st = setup();
    assert_eq!(st.get_fear_level().unwrap(), 0);
    assert_eq!(st.adjust_fear_level(3).unwrap(), 3);
    assert_eq!(st.get_fear_level().unwrap(), 3);
    assert_eq!(st.adjust_fear_level(-10).unwrap(), 0);
    assert_eq!(st.adjust_fear_level(-1).unwrap(), 0);
}

#[test]
fn fear_set_and_reset() {
    let mut st = setup();
    assert_eq!(st.set_fear_level(7).unwrap(), 7);
    assert_eq!(st.set_fear_level(-4).unwrap(), 0);
    assert_eq!(st.set_fear_level(9).unwrap(), 9);
    assert_eq!(st.reset_fear_level().unwrap(), 0);
    assert_eq!(st.get_fear_level().unwrap(), 0);
}

#[test]
fn fear_is_per_campaign() {
    let mut st = setup();
    st.set_fear_level(5).unwrap();
    st.create_campaign_with_id(ts("c2"), ts("B"), ts("t1")).unwrap();
    st.set_current_campaign(&ts("c2")).unwrap();
    assert_eq!(st.get_fear_level().unwrap(), 0);
    st.adjust_fear_level(2).unwrap();
    st.set_current_campaign(&ts("c1")).unwrap();
    assert_eq!(st.get_fear_level().unwrap(), 5);
}

#[test]
fn fear_level_survives_in_campaign_record() {
    let mut st = setup();
    st.adjust_fear_level(4).unwrap();
    let c = st.get_campaign_by_id(&ts("c1")).unwrap();
    assert_eq!(c.fear_level, 4);
}
