use hours::session::{Data, Session};
use hours::ErrorKind;

#[test]
fn end_from_idle_fails_and_changes_nothing() {
    let mut data = Data::new();
    data.hours.add(String::from("proj"), 7200);
    let r = data.end(100);
    assert!(matches!(r, Err(ErrorKind::NoActiveSession)));
    assert!(data.session.is_none());
    assert_eq!(data.hours.get(&String::from("proj")), 7200);
    assert_eq!(data.hours.list().len(), 1);
}

#[test]
fn status_from_idle_fails() {
    let data = Data::new();
    let r = data.status(100);
    assert!(matches!(r, Err(ErrorKind::NoActiveSession)));
}

#[test]
fn start_then_end_accumulates_elapsed() {
    // Empty record; two hours booked by hand; one hour tracked live.
    let mut data = Data::new();
    data.hours.add(String::from("proj"), 7200);
    assert_eq!(data.hours.get(&String::from("proj")), 7200);

    let started = data.start(String::from("proj"), 1000);
    assert!(started.is_none());
    assert_eq!(data.hours.get(&String::from("proj")), 7200);

    let ended = data.end(1000 + 3600).unwrap();
    assert_eq!(ended.key, "proj");
    assert_eq!(ended.total, 10800);
    assert_eq!(data.hours.get(&String::from("proj")), 10800);
    assert!(data.session.is_none());
}

#[test]
fn start_then_end_with_no_elapsed_time() {
    let mut data = Data::new();
    data.hours.add(String::from("proj"), 5400);
    data.start(String::from("proj"), 2000);
    let ended = data.end(2000).unwrap();
    assert_eq!(ended.total, 5400);
    assert_eq!(data.hours.get(&String::from("proj")), 5400);
}

#[test]
fn switch_matches_end_then_start() {
    let build = || {
        let mut data = Data::new();
        data.hours.add(String::from("old"), 3600);
        data.start(String::from("old"), 1000);
        data
    };

    let mut switched = build();
    let ended = switched.start(String::from("new"), 1900).unwrap();
    assert_eq!(ended.key, "old");
    assert_eq!(ended.total, 4500);

    let mut stepped = build();
    stepped.end(1900).unwrap();
    stepped.start(String::from("new"), 1900);

    assert_eq!(switched.hours.list(), stepped.hours.list());
    let s1 = switched.session.unwrap();
    let s2 = stepped.session.unwrap();
    assert_eq!(s1.key, s2.key);
    assert_eq!(s1.start, s2.start);
}

#[test]
fn switch_charges_the_old_project_only() {
    let mut data = Data::new();
    data.start(String::from("old"), 500);
    let ended = data.start(String::from("new"), 800).unwrap();
    assert_eq!(ended.key, "old");
    assert_eq!(ended.total, 300);
    assert_eq!(data.hours.get(&String::from("old")), 300);
    assert_eq!(data.hours.get(&String::from("new")), 0);
    let session = data.session.as_ref().unwrap();
    assert_eq!(session.key, "new");
    assert_eq!(session.start, 800);
}

#[test]
fn status_reports_without_mutating() {
    let mut data = Data::new();
    data.hours.add(String::from("proj"), 600);
    data.start(String::from("proj"), 100);
    let status = data.status(250).unwrap();
    assert_eq!(status.key, "proj");
    assert_eq!(status.stored, 600);
    assert_eq!(status.elapsed, 150);
    assert_eq!(status.total, 750);
    // Nothing moved: the session is still running and the ledger unchanged.
    assert_eq!(data.hours.get(&String::from("proj")), 600);
    let session = data.session.as_ref().unwrap();
    assert_eq!(session.key, "proj");
    assert_eq!(session.start, 100);
}

#[test]
fn session_new_keeps_the_key() {
    let session = Session::new(String::from("proj"));
    assert_eq!(session.key, "proj");
}
