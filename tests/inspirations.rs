use mindflow::{
    create_inspiration, delete_inspiration, get_inspirations, insert_inspiration,
    restore_inspiration, search_inspirations, same_text, text_contains, CreateInspirationRequest,
    Db, Inspiration, StoreError,
};

fn tags(list: &[&str]) -> Vec<String> {
    list.iter().map(|t| t.to_string()).collect()
}

fn note(db: &mut Db, id: &str, content: &str, tag_text: &str, created: i64) -> Inspiration {
    insert_inspiration(db, id.to_string(), content.to_string(), tag_text.to_string(), created)
        .unwrap()
}

fn ids(rows: &[Inspiration]) -> Vec<String> {
    rows.iter().map(|n| n.id.clone()).collect()
}

#[test]
fn tags_round_trip_in_order() {
    let mut db = Db::new();
    let req = CreateInspirationRequest { content: "idea".to_string(), tags: tags(&["a", "b", "c"]) };
    let n = create_inspiration(&mut db, req).unwrap();
    assert_eq!(n.tags, "[\"a\",\"b\",\"c\"]");
    let stored = &get_inspirations(&db)[0];
    let back: Vec<String> = serde_json::from_str(&stored.tags).unwrap();
    assert_eq!(back, tags(&["a", "b", "c"]));
    assert_eq!(stored.content, "idea");
}

#[test]
fn empty_tag_list_is_stored_as_empty_array() {
    let mut db = Db::new();
    let req = CreateInspirationRequest { content: "x".to_string(), tags: Vec::new() };
    let n = create_inspiration(&mut db, req).unwrap();
    assert_eq!(n.tags, "[]");
}

#[test]
fn search_scenario_ship_fast() {
    let mut db = Db::new();
    let req = CreateInspirationRequest {
        content: "ship fast".to_string(),
        tags: tags(&["startup", "speed"]),
    };
    let n = create_inspiration(&mut db, req).unwrap();
    assert_eq!(ids(&search_inspirations(&db, "ship".to_string())), vec![n.id.clone()]);
    assert!(search_inspirations(&db, "slow".to_string()).is_empty());
    assert_eq!(ids(&search_inspirations(&db, "speed".to_string())), vec![n.id]);
}

#[test]
fn search_is_case_sensitive_and_ordered_newest_first() {
    let mut db = Db::new();
    note(&mut db, "old", "Ship it", "[]", 1);
    note(&mut db, "new", "ship it", "[]", 3);
    note(&mut db, "tagged", "nothing", "[\"ship\"]", 2);
    assert_eq!(ids(&search_inspirations(&db, "ship".to_string())), vec!["new", "tagged"]);
    assert_eq!(ids(&search_inspirations(&db, "Ship".to_string())), vec!["old"]);
    assert_eq!(ids(&search_inspirations(&db, "".to_string())), vec!["new", "tagged", "old"]);
}

#[test]
fn list_is_newest_first() {
    let mut db = Db::new();
    note(&mut db, "b", "b", "[]", 2);
    note(&mut db, "c", "c", "[]", 3);
    note(&mut db, "a", "a", "[]", 1);
    note(&mut db, "b2", "b2", "[]", 2);
    assert_eq!(ids(&get_inspirations(&db)), vec!["c", "b", "b2", "a"]);
}

#[test]
fn duplicate_inspiration_id_is_refused() {
    let mut db = Db::new();
    let n = note(&mut db, "x", "one", "[]", 1);
    let r = insert_inspiration(&mut db, "x".to_string(), "two".to_string(), "[]".to_string(), 2);
    assert_eq!(r, Err(StoreError::DuplicateId));
    assert_eq!(restore_inspiration(&mut db, n.clone()), Err(StoreError::DuplicateId));
    assert_eq!(db.inspirations, vec![n]);
}

#[test]
fn delete_inspiration_is_idempotent() {
    let mut db = Db::new();
    note(&mut db, "x", "one", "[]", 1);
    note(&mut db, "y", "two", "[]", 2);
    assert_eq!(delete_inspiration(&mut db, "x".to_string()), Ok(()));
    assert_eq!(ids(&db.inspirations), vec!["y"]);
    assert_eq!(delete_inspiration(&mut db, "x".to_string()), Ok(()));
    assert_eq!(ids(&db.inspirations), vec!["y"]);
}

#[test]
fn substring_and_equality_helpers() {
    assert!(text_contains("ship fast", "p f"));
    assert!(text_contains("ship fast", ""));
    assert!(text_contains("", ""));
    assert!(!text_contains("", "a"));
    assert!(!text_contains("ship", "ships"));
    assert!(text_contains("naïve café", "é"));
    assert!(same_text("high", "high"));
    assert!(!same_text("high", "High"));
    assert!(!same_text("high", "hig"));
}

#[test]
fn tag_text_escapes_as_compact_json() {
    let mut db = Db::new();
    let req = CreateInspirationRequest {
        content: "escapes".to_string(),
        tags: tags(&["say \"hi\"", "back\\slash", "line\nbreak", "tab\tend", "bell\u{1}", "\u{1f}", "café"]),
    };
    let n = create_inspiration(&mut db, req).unwrap();
    assert_eq!(
        n.tags,
        "[\"say \\\"hi\\\"\",\"back\\\\slash\",\"line\\nbreak\",\"tab\\tend\",\"bell\\u0001\",\"\\u001f\",\"café\"]"
    );
}
