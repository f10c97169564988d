use core_db::{InputAction, SearchRequests};

#[test]
fn short_input_clears_results() {
    let mut r = SearchRequests::new();
    assert_eq!(r.on_input("ab"), InputAction::ClearResults);
    assert_eq!(r.on_input(""), InputAction::ClearResults);
    // "ř" is two bytes.
    assert_eq!(r.on_input("ř"), InputAction::ClearResults);
    assert_eq!(r.last_request_id(), 0);
}

#[test]
fn three_bytes_start_a_request() {
    let mut r = SearchRequests::new();
    // "ři" is three bytes though only two characters.
    assert_eq!(r.on_input("ři"), InputAction::ScheduleSearch { request_id: 1 });
    assert_eq!(r.on_input("abc"), InputAction::ScheduleSearch { request_id: 2 });
}

#[test]
fn later_input_supersedes_earlier_request() {
    let mut r = SearchRequests::new();
    let first = match r.on_input("Pra") {
        InputAction::ScheduleSearch { request_id } => request_id,
        InputAction::ClearResults => panic!("expected a search"),
    };
    assert!(r.is_current(first));
    let second = match r.on_input("Prah") {
        InputAction::ScheduleSearch { request_id } => request_id,
        InputAction::ClearResults => panic!("expected a search"),
    };
    assert!(!r.is_current(first));
    assert!(r.is_current(second));
    assert_eq!(r.on_input("Pr"), InputAction::ClearResults);
    assert!(r.is_current(second));
}
