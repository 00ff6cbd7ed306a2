use homectl::health::{live, ready_impl, DbAvailability, HealthStatus};

#[test]
fn live_answers_ok() {
    let r = live();
    assert_eq!(r.code, 200);
    assert_eq!(r.status, HealthStatus::Live);
    assert_eq!(r.status.text(), "ok");
    assert_eq!(r.db, None);
}

#[test]
fn ready_while_warming_up_is_unavailable() {
    let r = ready_impl(true, true);
    assert_eq!(r.code, 503);
    assert_eq!(r.status.text(), "warming_up");
    assert_eq!(r.db, None);
}

#[test]
fn ready_reports_the_store() {
    let with = ready_impl(false, true);
    assert_eq!(with.code, 200);
    assert_eq!(with.status.text(), "ready");
    assert_eq!(with.db, Some(DbAvailability::Available));
    assert_eq!(with.db.unwrap().text(), "available");
    let without = ready_impl(false, false);
    assert_eq!(without.code, 200);
    assert_eq!(without.db.unwrap().text(), "unavailable");
}
