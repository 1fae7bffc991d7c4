use recipe_chains::collection::Method;
use recipe_chains::history::History;
use recipe_chains::http::{Request, RequestId, RequestRecord, Response};

fn record(id: u128, profile: Option<&str>, recipe: &str, start_time: i64) -> RequestRecord {
    RequestRecord {
        id: RequestId(id),
        request: Request {
            id: RequestId(id),
            profile_id: profile.map(|s| s.to_string()),
            recipe_id: recipe.to_string(),
            method: Method::Get,
            url: b"http://localhost/url".to_vec(),
            query: vec![],
            headers: vec![],
            body: None,
        },
        response: Response { status: 200, headers: vec![], body: vec![] },
        start_time,
        end_time: start_time + 1,
    }
}

fn latest(h: &History, profile: Option<&str>, recipe: &str) -> Option<u128> {
    h.get_latest(&profile.map(|s| s.to_string()), recipe).map(|r| r.id.0)
}

#[test]
fn empty_history_has_no_latest() {
    let h = History::new();
    assert_eq!(h.len(), 0);
    assert_eq!(latest(&h, None, "recipe1"), None);
}

#[test]
fn latest_is_keyed_by_profile_and_recipe() {
    let mut h = History::new();
    h.put(record(1, None, "r1", 10));
    h.put(record(2, Some("p1"), "r1", 20));
    h.put(record(3, Some("p2"), "r1", 30));
    h.put(record(4, Some("p1"), "r2", 40));
    assert_eq!(h.len(), 4);
    assert_eq!(latest(&h, None, "r1"), Some(1));
    assert_eq!(latest(&h, Some("p1"), "r1"), Some(2));
    assert_eq!(latest(&h, Some("p2"), "r1"), Some(3));
    assert_eq!(latest(&h, Some("p1"), "r2"), Some(4));
    assert_eq!(latest(&h, Some("p2"), "r2"), None);
    assert_eq!(latest(&h, None, "r2"), None);
    assert_eq!(latest(&h, Some(""), "r1"), None);
}

#[test]
fn most_recent_start_wins() {
    let mut h = History::new();
    h.put(record(1, None, "r", 100));
    h.put(record(2, None, "r", 300));
    h.put(record(3, None, "r", 200));
    assert_eq!(latest(&h, None, "r"), Some(2));
    // of two started at the same time, the one added last
    h.put(record(4, None, "r", 300));
    assert_eq!(latest(&h, None, "r"), Some(4));
    h.put(record(5, None, "r", i64::MIN));
    assert_eq!(latest(&h, None, "r"), Some(4));
    h.put(record(6, None, "r", i64::MAX));
    assert_eq!(latest(&h, None, "r"), Some(6));
}

#[test]
fn records_are_only_added() {
    let mut h = History::new();
    h.put(record(1, None, "r", 5));
    h.put(record(1, None, "r", 5));
    assert_eq!(h.len(), 2);
}
