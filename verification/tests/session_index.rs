use ring_agent::session::{
    count, delete_thread, get_thread, index_path, init, list_threads, search_threads, set_archived, upsert_thread,
    SessionMeta,
};

fn meta(id: u128, title: Option<&str>, updated_at: i64) -> SessionMeta {
    SessionMeta { id, title: title.map(|t| t.to_string()), updated_at }
}

fn ids(v: &[SessionMeta]) -> Vec<u128> {
    v.iter().map(|m| m.id).collect()
}

#[test]
fn upsert_replaces_or_appends() {
    let mut idx = init(Vec::new());
    upsert_thread(&mut idx, &meta(1, Some("a"), 10));
    upsert_thread(&mut idx, &meta(2, Some("b"), 20));
    assert_eq!(count(&idx), 2);
    upsert_thread(&mut idx, &meta(1, Some("a2"), 30));
    assert_eq!(count(&idx), 2);
    let got = get_thread(&idx, 1).unwrap();
    assert_eq!(got.title.as_deref(), Some("a2"));
    assert_eq!(got.updated_at, 30);
    assert!(get_thread(&idx, 3).is_none());
}

#[test]
fn delete_and_archive() {
    let mut idx = init(vec![meta(1, None, 1), meta(2, None, 2), meta(1, None, 3)]);
    assert!(delete_thread(&mut idx, 1));
    assert_eq!(ids(idx.entries()), vec![2]);
    assert!(!delete_thread(&mut idx, 1));
    assert!(!set_archived(&mut idx, 2, false));
    assert_eq!(count(&idx), 1);
    assert!(set_archived(&mut idx, 2, true));
    assert_eq!(count(&idx), 0);
}

#[test]
fn listing_is_newest_first_and_stable() {
    let idx = init(vec![meta(1, None, 5), meta(2, None, 9), meta(3, None, 5), meta(4, None, 7)]);
    assert_eq!(ids(&list_threads(&idx, 10)), vec![2, 4, 1, 3]);
    assert_eq!(ids(&list_threads(&idx, 2)), vec![2, 4]);
    assert_eq!(ids(&list_threads(&idx, 0)), Vec::<u128>::new());
    assert_eq!(ids(&list_threads(&idx, -1)), vec![2, 4, 1, 3]);
}

#[test]
fn search_is_case_insensitive() {
    let idx = init(vec![
        meta(1, Some("Fix Parser"), 1),
        meta(2, None, 9),
        meta(3, Some("PARSER rewrite"), 3),
        meta(4, Some("other"), 4),
    ]);
    assert_eq!(ids(&search_threads(&idx, "parser")), vec![3, 1]);
    assert_eq!(ids(&search_threads(&idx, "")), vec![4, 3, 1]);
}

#[test]
fn search_caps_results() {
    let entries: Vec<SessionMeta> = (0..150).map(|i| meta(i as u128, Some("t"), i)).collect();
    let idx = init(entries);
    let found = search_threads(&idx, "T");
    assert_eq!(found.len(), 100);
    assert_eq!(found[0].id, 149);
}

#[test]
fn index_file_path() {
    assert_eq!(index_path("/s"), "/s/index.json");
}

#[test]
fn empty_query_finds_every_titled_thread() {
    let idx = init(vec![meta(1, Some("Alpha"), 1), meta(2, None, 5), meta(3, Some(""), 3)]);
    assert_eq!(ids(&search_threads(&idx, "")), vec![3, 1]);
}
