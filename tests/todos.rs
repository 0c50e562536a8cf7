use mindflow::{
    apply_update, complete_todo, create_todo, delete_todo, due_reminders, get_todo_stats,
    get_todos, get_todos_with_reminders, insert_todo, lists_no_later, mark_complete, restore_todo,
    CreateTodoRequest, Db, StoreError, Todo, UpdateTodoRequest,
};

fn request(title: &str, priority: &str, due: Option<i64>, reminder: Option<i64>) -> CreateTodoRequest {
    CreateTodoRequest {
        title: title.to_string(),
        description: None,
        priority: priority.to_string(),
        due_date: due,
        reminder_at: reminder,
    }
}

fn add(db: &mut Db, id: &str, priority: &str, due: Option<i64>, created: i64) -> Todo {
    insert_todo(db, id.to_string(), request(id, priority, due, None), created).unwrap()
}

fn only_title(id: &str, title: &str) -> UpdateTodoRequest {
    UpdateTodoRequest {
        id: id.to_string(),
        title: Some(title.to_string()),
        description: None,
        priority: None,
        due_date: None,
        reminder_at: None,
        completed: None,
    }
}

fn ids(rows: &[Todo]) -> Vec<String> {
    rows.iter().map(|t| t.id.clone()).collect()
}

#[test]
fn insert_sets_defaults_and_timestamps() {
    let mut db = Db::new();
    let mut req = request("Write report", "low", Some(500), Some(400));
    req.description = Some("quarterly".to_string());
    let t = insert_todo(&mut db, "t1".to_string(), req, 100).unwrap();
    assert_eq!(t.id, "t1");
    assert_eq!(t.title, "Write report");
    assert_eq!(t.description, Some("quarterly".to_string()));
    assert_eq!(t.priority, "low");
    assert_eq!(t.due_date, Some(500));
    assert_eq!(t.reminder_at, Some(400));
    assert!(!t.completed);
    assert!(!t.archived);
    assert_eq!(t.created_at, 100);
    assert_eq!(t.updated_at, 100);
    assert_eq!(db.todos, vec![t]);
}

#[test]
fn insert_with_taken_id_fails() {
    let mut db = Db::new();
    add(&mut db, "t1", "high", None, 1);
    let r = insert_todo(&mut db, "t1".to_string(), request("again", "low", None, None), 2);
    assert_eq!(r, Err(StoreError::DuplicateId));
    assert_eq!(db.todos.len(), 1);
    assert_eq!(db.todos[0].title, "t1");
}

#[test]
fn create_todo_gives_distinct_ids() {
    let mut db = Db::new();
    let a = create_todo(&mut db, request("a", "medium", None, None)).unwrap();
    let b = create_todo(&mut db, request("b", "medium", None, None)).unwrap();
    assert_ne!(a.id, b.id);
    assert_eq!(a.id.len(), 36);
    assert_eq!(a.created_at, a.updated_at);
    assert_eq!(db.todos.len(), 2);
}

#[test]
fn list_orders_by_priority_due_and_creation() {
    let mut db = Db::new();
    add(&mut db, "other", "urgent", Some(1), 10);
    add(&mut db, "low", "low", Some(1), 10);
    add(&mut db, "med_nodue_old", "medium", None, 10);
    add(&mut db, "med_nodue_new", "medium", None, 20);
    add(&mut db, "med_due_late", "medium", Some(300), 10);
    add(&mut db, "med_due_early", "medium", Some(100), 10);
    add(&mut db, "high_nodue", "high", None, 5);
    add(&mut db, "high_due", "high", Some(900), 5);
    let listed = get_todos(&db, false);
    assert_eq!(
        ids(&listed),
        vec![
            "high_due",
            "high_nodue",
            "med_due_early",
            "med_due_late",
            "med_nodue_new",
            "med_nodue_old",
            "low",
            "other",
        ]
    );
}

#[test]
fn list_filters_on_archived_flag() {
    let mut db = Db::new();
    add(&mut db, "a", "high", None, 1);
    add(&mut db, "b", "low", None, 2);
    mark_complete(&mut db, "a".to_string(), 3).unwrap();
    assert_eq!(ids(&get_todos(&db, false)), vec!["b"]);
    assert_eq!(ids(&get_todos(&db, true)), vec!["a"]);
    assert!(get_todos(&Db::new(), false).is_empty());
}

#[test]
fn ordering_compares_rank_then_due_then_creation() {
    let mut db = Db::new();
    let high = add(&mut db, "h", "high", None, 1);
    let low = add(&mut db, "l", "low", Some(1), 1);
    let odd = add(&mut db, "o", "High", Some(1), 1);
    assert!(lists_no_later(&high, &low));
    assert!(!lists_no_later(&low, &high));
    assert!(lists_no_later(&low, &odd));
    assert!(!lists_no_later(&odd, &low));
    let early = add(&mut db, "e", "medium", Some(5), 1);
    let none = add(&mut db, "n", "medium", None, 9);
    assert!(lists_no_later(&early, &none));
    assert!(!lists_no_later(&none, &early));
    let newer = add(&mut db, "new", "medium", None, 20);
    assert!(lists_no_later(&newer, &none));
    assert!(!lists_no_later(&none, &newer));
    assert!(lists_no_later(&none, &none));
}

#[test]
fn title_only_update_keeps_other_fields() {
    let mut db = Db::new();
    let mut req = request("old", "low", Some(50), Some(40));
    req.description = Some("details".to_string());
    let before = insert_todo(&mut db, "t".to_string(), req, 10).unwrap();
    let after = apply_update(&mut db, only_title("t", "new"), 20).unwrap();
    assert_eq!(after.title, "new");
    assert_eq!(after.description, before.description);
    assert_eq!(after.priority, before.priority);
    assert_eq!(after.due_date, before.due_date);
    assert_eq!(after.reminder_at, before.reminder_at);
    assert_eq!(after.completed, before.completed);
    assert_eq!(after.archived, before.archived);
    assert_eq!(after.created_at, 10);
    assert_eq!(after.updated_at, 20);
    assert_eq!(db.todos, vec![after]);
}

#[test]
fn update_can_clear_completed_explicitly() {
    let mut db = Db::new();
    add(&mut db, "t", "high", None, 1);
    let mut set = only_title("t", "t");
    set.title = None;
    set.completed = Some(true);
    let done = apply_update(&mut db, set.clone(), 2).unwrap();
    assert!(done.completed);
    assert!(!done.archived);
    set.completed = Some(false);
    let undone = apply_update(&mut db, set, 3).unwrap();
    assert!(!undone.completed);
    assert_eq!(undone.updated_at, 3);
}

#[test]
fn update_sets_every_present_field() {
    let mut db = Db::new();
    add(&mut db, "t", "high", None, 1);
    let req = UpdateTodoRequest {
        id: "t".to_string(),
        title: None,
        description: Some(Some("d".to_string())),
        priority: Some("low".to_string()),
        due_date: Some(Some(7)),
        reminder_at: Some(Some(6)),
        completed: None,
    };
    let t = apply_update(&mut db, req, 5).unwrap();
    assert_eq!(t.title, "t");
    assert_eq!(t.description, Some("d".to_string()));
    assert_eq!(t.priority, "low");
    assert_eq!(t.due_date, Some(7));
    assert_eq!(t.reminder_at, Some(6));
}

#[test]
fn update_of_missing_id_is_not_found() {
    let mut db = Db::new();
    add(&mut db, "t", "high", None, 1);
    let before = db.todos.clone();
    assert_eq!(apply_update(&mut db, only_title("x", "y"), 2), Err(StoreError::NotFound));
    assert_eq!(db.todos, before);
}

#[test]
fn complete_sets_completed_and_archived() {
    let mut db = Db::new();
    add(&mut db, "a", "high", None, 1);
    let mut req = only_title("a", "a");
    req.completed = Some(true);
    apply_update(&mut db, req, 2).unwrap();
    let t = mark_complete(&mut db, "a".to_string(), 7).unwrap();
    assert!(t.completed && t.archived);
    assert_eq!(t.updated_at, 7);
    let again = mark_complete(&mut db, "a".to_string(), 8).unwrap();
    assert!(again.completed && again.archived);
    assert_eq!(db.todos[0], again);
}

#[test]
fn complete_of_missing_id_is_not_found() {
    let mut db = Db::new();
    assert_eq!(complete_todo(&mut db, "none".to_string()), Err(StoreError::NotFound));
}

#[test]
fn delete_missing_id_is_a_no_op() {
    let mut db = Db::new();
    add(&mut db, "a", "high", None, 1);
    let before = db.todos.clone();
    assert_eq!(delete_todo(&mut db, "missing".to_string()), Ok(()));
    assert_eq!(db.todos, before);
    assert_eq!(delete_todo(&mut db, "a".to_string()), Ok(()));
    assert!(db.todos.is_empty());
    assert_eq!(delete_todo(&mut db, "a".to_string()), Ok(()));
    assert!(db.todos.is_empty());
}

#[test]
fn stats_count_each_status() {
    let mut db = Db::new();
    add(&mut db, "a", "high", None, 1);
    add(&mut db, "b", "low", None, 1);
    add(&mut db, "c", "low", None, 1);
    add(&mut db, "d", "low", None, 1);
    mark_complete(&mut db, "a".to_string(), 2).unwrap();
    let mut req = only_title("b", "b");
    req.completed = Some(true);
    apply_update(&mut db, req, 2).unwrap();
    let s = get_todo_stats(&db);
    assert_eq!((s.total, s.completed, s.pending, s.archived), (4, 2, 2, 1));
    let empty = get_todo_stats(&Db::new());
    assert_eq!((empty.total, empty.completed, empty.pending, empty.archived), (0, 0, 0, 0));
}

#[test]
fn due_reminders_select_exactly_the_due_todos() {
    let mut db = Db::new();
    insert_todo(&mut db, "past".to_string(), request("p", "high", None, Some(90)), 1).unwrap();
    insert_todo(&mut db, "exact".to_string(), request("e", "high", None, Some(100)), 1).unwrap();
    insert_todo(&mut db, "future".to_string(), request("f", "high", None, Some(101)), 1).unwrap();
    insert_todo(&mut db, "unset".to_string(), request("u", "high", None, None), 1).unwrap();
    insert_todo(&mut db, "done".to_string(), request("d", "high", None, Some(10)), 1).unwrap();
    insert_todo(&mut db, "checked".to_string(), request("c", "high", None, Some(10)), 1).unwrap();
    mark_complete(&mut db, "done".to_string(), 2).unwrap();
    let mut req = only_title("checked", "c");
    req.completed = Some(true);
    apply_update(&mut db, req, 2).unwrap();
    assert_eq!(ids(&due_reminders(&db, 100)), vec!["past", "exact"]);
    assert!(due_reminders(&db, 89).is_empty());
}

#[test]
fn due_reminder_repeats_on_every_scan() {
    let mut db = Db::new();
    insert_todo(&mut db, "r".to_string(), request("r", "low", None, Some(1000)), 1).unwrap();
    for tick in 0..5 {
        let now = 1000 + tick * 60_000;
        assert_eq!(ids(&due_reminders(&db, now)), vec!["r"]);
    }
    mark_complete(&mut db, "r".to_string(), 2000).unwrap();
    assert!(due_reminders(&db, 400_000).is_empty());
}

#[test]
fn reminder_scenario_with_the_clock() {
    let mut db = Db::new();
    let now = chrono::Utc::now().timestamp_millis();
    let t = create_todo(&mut db, request("Buy milk", "high", None, Some(now - 1000))).unwrap();
    let before = get_todo_stats(&db);
    assert!(get_todos_with_reminders(&db).iter().any(|d| d.id == t.id));
    complete_todo(&mut db, t.id.clone()).unwrap();
    assert!(!get_todos_with_reminders(&db).iter().any(|d| d.id == t.id));
    let after = get_todo_stats(&db);
    assert_eq!(after.completed, before.completed + 1);
    assert_eq!(after.archived, before.archived + 1);
    assert_eq!(after.pending, before.pending - 1);
    assert_eq!(after.total, before.total);
}

#[test]
fn restore_keeps_stored_rows_as_they_are() {
    let mut db = Db::new();
    let row = Todo {
        id: "kept".to_string(),
        title: "old task".to_string(),
        description: None,
        priority: "low".to_string(),
        due_date: None,
        reminder_at: Some(5),
        completed: true,
        archived: false,
        created_at: 1,
        updated_at: 4,
    };
    assert_eq!(restore_todo(&mut db, row.clone()), Ok(()));
    assert_eq!(restore_todo(&mut db, row.clone()), Err(StoreError::DuplicateId));
    assert_eq!(db.todos, vec![row]);
    assert!(due_reminders(&db, 10).is_empty());
}

#[test]
fn completing_a_pending_todo_moves_each_count_by_one() {
    let mut db = Db::new();
    add(&mut db, "a", "high", None, 1);
    add(&mut db, "b", "low", None, 2);
    let s0 = get_todo_stats(&db);
    mark_complete(&mut db, "b".to_string(), 3).unwrap();
    let s1 = get_todo_stats(&db);
    assert_eq!((s0.total, s0.completed, s0.pending, s0.archived), (2, 0, 2, 0));
    assert_eq!((s1.total, s1.completed, s1.pending, s1.archived), (2, 1, 1, 1));
}

#[test]
fn update_can_clear_optional_fields() {
    let mut db = Db::new();
    let mut req = request("t", "high", Some(50), Some(40));
    req.description = Some("notes".to_string());
    insert_todo(&mut db, "t".to_string(), req, 1).unwrap();
    let clear = UpdateTodoRequest {
        id: "t".to_string(),
        title: None,
        description: Some(None),
        priority: None,
        due_date: Some(None),
        reminder_at: None,
        completed: None,
    };
    let t = apply_update(&mut db, clear, 2).unwrap();
    assert_eq!(t.description, None);
    assert_eq!(t.due_date, None);
    assert_eq!(t.reminder_at, Some(40));
    assert_eq!(t.title, "t");
}
