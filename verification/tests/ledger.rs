use hours::ledger::Ledger;
use hours::ErrorKind;

#[test]
fn fresh_ledger_get_zero() {
    let ledger = Ledger::new();
    assert_eq!(ledger.get(&String::from("proj")), 0);
    assert_eq!(ledger.get(&String::from("")), 0);
    assert_eq!(ledger.get(&String::from("another")), 0);
}

#[test]
fn add_accumulates() {
    let mut ledger = Ledger::new();
    ledger.add(String::from("proj"), 3600);
    ledger.add(String::from("proj"), 1800);
    assert_eq!(ledger.get(&String::from("proj")), 5400);
}

#[test]
fn add_negative_correction() {
    let mut ledger = Ledger::new();
    ledger.add(String::from("proj"), 7200);
    ledger.add(String::from("proj"), -3600);
    assert_eq!(ledger.get(&String::from("proj")), 3600);
}

#[test]
fn add_keeps_other_keys() {
    let mut ledger = Ledger::new();
    ledger.add(String::from("a"), 100);
    ledger.add(String::from("b"), 200);
    assert_eq!(ledger.get(&String::from("a")), 100);
    assert_eq!(ledger.get(&String::from("b")), 200);
}

#[test]
fn remove_missing_fails_and_changes_nothing() {
    let mut ledger = Ledger::new();
    let r = ledger.remove(&String::from("missing"));
    assert_eq!(r, Err(ErrorKind::NotFound));
    assert!(ledger.list().is_empty());

    ledger.add(String::from("kept"), 42);
    let r = ledger.remove(&String::from("missing"));
    assert_eq!(r, Err(ErrorKind::NotFound));
    assert_eq!(ledger.get(&String::from("kept")), 42);
    assert_eq!(ledger.list().len(), 1);
}

#[test]
fn remove_deletes_the_key() {
    let mut ledger = Ledger::new();
    ledger.add(String::from("proj"), 5400);
    let r = ledger.remove(&String::from("proj"));
    assert_eq!(r, Ok(()));
    assert_eq!(ledger.get(&String::from("proj")), 0);
    assert!(ledger.list().is_empty());
}

#[test]
fn clear_removes_all() {
    let mut ledger = Ledger::new();
    ledger.add(String::from("a"), 1);
    ledger.add(String::from("b"), 2);
    ledger.clear();
    assert!(ledger.list().is_empty());
    assert_eq!(ledger.get(&String::from("a")), 0);
}

#[test]
fn list_reports_insertion_order() {
    let mut ledger = Ledger::new();
    ledger.add(String::from("c"), 3);
    ledger.add(String::from("a"), 1);
    ledger.add(String::from("b"), 2);
    let listed = ledger.list();
    assert_eq!(
        listed,
        vec![
            (String::from("c"), 3),
            (String::from("a"), 1),
            (String::from("b"), 2),
        ]
    );
}

#[test]
fn updated_key_keeps_its_position() {
    let mut ledger = Ledger::new();
    ledger.add(String::from("a"), 1);
    ledger.add(String::from("b"), 2);
    ledger.add(String::from("a"), 10);
    let listed = ledger.list();
    assert_eq!(
        listed,
        vec![(String::from("a"), 11), (String::from("b"), 2)]
    );
}
