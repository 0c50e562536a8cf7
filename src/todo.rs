//! The todo table: creation, priority-aware listing, partial update,
//! completion, deletion, statistics and the due-reminder scan.

use vstd::prelude::*;

use crate::external::{fresh_id, now_millis};
use crate::models::{
    has_todo, todo_ids_unique, CreateTodoRequest, Db, StoreError, Todo, TodoStats,
    UpdateTodoRequest,
};
use crate::text::same_text;

verus! {

/// Rank of a priority in listing order: `high` 1, `medium` 2, `low` 3,
/// anything else 4.
pub open spec fn priority_rank(p: Seq<char>) -> int {
    if p == "high"@ {
        1
    } else if p == "medium"@ {
        2
    } else if p == "low"@ {
        3
    } else {
        4
    }
}

/// Due date `a` sorts strictly before due date `b`: ascending, with a missing
/// date after every present one.
pub open spec fn due_before(a: Option<i64>, b: Option<i64>) -> bool {
    match (a, b) {
        (Some(x), Some(y)) => x < y,
        (Some(_), None) => true,
        _ => false,
    }
}

/// `a` may be listed before `b`: by priority rank, then due date ascending
/// with missing dates last, then newest creation first.
pub open spec fn listed_no_later(a: Todo, b: Todo) -> bool {
    let ra = priority_rank(a.priority@);
    let rb = priority_rank(b.priority@);
    ||| ra < rb
    ||| ra == rb && due_before(a.due_date, b.due_date)
    ||| ra == rb && a.due_date == b.due_date && a.created_at >= b.created_at
}

/// `s` is in listing order.
pub open spec fn in_list_order(s: Seq<Todo>) -> bool {
    forall|i: int, j: int|
        0 <= i < j < s.len() ==> listed_no_later(#[trigger] s[i], #[trigger] s[j])
}

/// Rows whose archived flag is `archived`.
pub open spec fn with_archived(archived: bool) -> spec_fn(Todo) -> bool {
    |t: Todo| t.archived == archived
}

/// A reminder is due at `now`: it is set, not later than `now`, and the todo
/// is neither completed nor archived.
pub open spec fn is_due(t: Todo, now: i64) -> bool {
    &&& t.reminder_at is Some
    &&& t.reminder_at->0 <= now
    &&& !t.completed
    &&& !t.archived
}

/// Rows whose reminder is due at `now`.
pub open spec fn due_at(now: i64) -> spec_fn(Todo) -> bool {
    |t: Todo| is_due(t, now)
}

/// Completed rows.
pub open spec fn is_completed() -> spec_fn(Todo) -> bool {
    |t: Todo| t.completed
}

/// Archived rows.
pub open spec fn is_archived() -> spec_fn(Todo) -> bool {
    |t: Todo| t.archived
}

/// Rows that are neither completed nor archived.
pub open spec fn is_pending() -> spec_fn(Todo) -> bool {
    |t: Todo| !t.completed && !t.archived
}

/// The row that the create command stores.
pub open spec fn new_todo(id: String, req: CreateTodoRequest, now: i64) -> Todo {
    Todo {
        id,
        title: req.title,
        description: req.description,
        priority: req.priority,
        due_date: req.due_date,
        reminder_at: req.reminder_at,
        completed: false,
        archived: false,
        created_at: now,
        updated_at: now,
    }
}

/// `t` after a partial update at `now`: each field present in `req` is
/// replaced, the others are kept, and `updated_at` becomes `now`.
pub open spec fn updated_todo(t: Todo, req: UpdateTodoRequest, now: i64) -> Todo {
    Todo {
        id: t.id,
        title: match req.title {
            Some(v) => v,
            None => t.title,
        },
        description: match req.description {
            Some(v) => v,
            None => t.description,
        },
        priority: match req.priority {
            Some(v) => v,
            None => t.priority,
        },
        due_date: match req.due_date {
            Some(v) => v,
            None => t.due_date,
        },
        reminder_at: match req.reminder_at {
            Some(v) => v,
            None => t.reminder_at,
        },
        completed: match req.completed {
            Some(v) => v,
            None => t.completed,
        },
        archived: t.archived,
        created_at: t.created_at,
        updated_at: now,
    }
}

/// `t` after completion at `now`: completed and archived together.
pub open spec fn completed_todo(t: Todo, now: i64) -> Todo {
    Todo { completed: true, archived: true, updated_at: now, ..t }
}

proof fn lemma_order_total(a: Todo, b: Todo)
    ensures
        listed_no_later(a, b) || listed_no_later(b, a),
{
}

proof fn lemma_order_transitive(a: Todo, b: Todo, c: Todo)
    requires
        listed_no_later(a, b),
        listed_no_later(b, c),
    ensures
        listed_no_later(a, c),
{
}

fn rank_of(p: &String) -> (r: u8)
    ensures
        r as int == priority_rank(p@),
{
    if same_text(p.as_str(), "high") {
        1
    } else if same_text(p.as_str(), "medium") {
        2
    } else if same_text(p.as_str(), "low") {
        3
    } else {
        4
    }
}

/// Whether `a` may be listed before `b`.
pub fn lists_no_later(a: &Todo, b: &Todo) -> (r: bool)
    ensures
        r == listed_no_later(*a, *b),
{
    let ra = rank_of(&a.priority);
    let rb = rank_of(&b.priority);
    if ra != rb {
        return ra < rb;
    }
    match (a.due_date, b.due_date) {
        (Some(x), Some(y)) => {
            if x != y {
                x < y
            } else {
                a.created_at >= b.created_at
            }
        },
        (Some(_), None) => true,
        (None, Some(_)) => false,
        (None, None) => a.created_at >= b.created_at,
    }
}

/// Inserts `t` into the ordered `v`, after every row that may precede it.
fn insert_in_order(v: &mut Vec<Todo>, t: Todo)
    requires
        in_list_order(old(v)@),
    ensures
        in_list_order(final(v)@),
        final(v)@.to_multiset() == old(v)@.to_multiset().insert(t),
{
    let mut p: usize = 0;
    while p < v.len() && lists_no_later(&v[p], &t)
        invariant
            p <= v.len(),
            in_list_order(v@),
            forall|k: int| 0 <= k < p ==> listed_no_later(#[trigger] v@[k], t),
        decreases v.len() - p,
    {
        p = p + 1;
    }
    if p < v.len() {
        proof {
            lemma_order_total(v@[p as int], t);
        }
    }
    let ghost before = v@;
    proof {
        assert forall|k: int| p <= k < before.len() implies listed_no_later(
            t,
            #[trigger] before[k],
        ) by {
            if k > p {
                lemma_order_transitive(t, before[p as int], before[k]);
            }
        }
        vstd::seq_lib::to_multiset_insert(before, p as int, t);
    }
    v.insert(p, t);
    proof {
        let after = v@;
        assert forall|i: int, j: int| 0 <= i < j < after.len() implies listed_no_later(
            #[trigger] after[i],
            #[trigger] after[j],
        ) by {
            if j < p {
                assert(after[i] == before[i] && after[j] == before[j]);
            } else if j == p {
                assert(after[i] == before[i]);
            } else if i < p {
                assert(after[i] == before[i] && after[j] == before[j - 1]);
                lemma_order_transitive(before[i], t, before[j - 1]);
            } else if i == p {
                assert(after[j] == before[j - 1]);
            } else {
                assert(after[i] == before[i - 1] && after[j] == before[j - 1]);
            }
        }
    }
}

/// The position of the todo with id `id`, if any.
fn find_todo(rows: &Vec<Todo>, id: &String) -> (r: Option<usize>)
    ensures
        match r {
            Some(i) => i < rows@.len() && rows@[i as int].id@ == id@,
            None => !has_todo(rows@, id@),
        },
{
    let mut i: usize = 0;
    while i < rows.len()
        invariant
            i <= rows@.len(),
            forall|k: int| 0 <= k < i ==> #[trigger] rows@[k].id@ != id@,
        decreases rows.len() - i,
    {
        if rows[i].id == *id {
            return Some(i);
        }
        i = i + 1;
    }
    None
}

/// Stores a new todo with the given id and creation time.
/// Fails with `DuplicateId`, and changes nothing, when that id is taken.
pub fn insert_todo(db: &mut Db, id: String, request: CreateTodoRequest, now: i64) -> (r: Result<
    Todo,
    StoreError,
>)
    requires
        old(db).wf(),
    ensures
        final(db).wf(),
        final(db).inspirations == old(db).inspirations,
        match r {
            Ok(t) => {
                &&& !has_todo(old(db).todos@, id@)
                &&& t == new_todo(id, request, now)
                &&& final(db).todos@ == old(db).todos@.push(t)
            },
            Err(e) => {
                &&& e == StoreError::DuplicateId
                &&& has_todo(old(db).todos@, id@)
                &&& final(db).todos@ == old(db).todos@
            },
        },
{
    let t = Todo {
        id,
        title: request.title,
        description: request.description,
        priority: request.priority,
        due_date: request.due_date,
        reminder_at: request.reminder_at,
        completed: false,
        archived: false,
        created_at: now,
        updated_at: now,
    };
    let r = t.copy_row();
    match restore_todo(db, t) {
        Ok(()) => Ok(r),
        Err(e) => Err(e),
    }
}

/// Puts a stored row into the table as it is, as when the table is loaded
/// from durable storage. Fails with `DuplicateId`, and changes nothing, when
/// its id is taken.
pub fn restore_todo(db: &mut Db, row: Todo) -> (r: Result<(), StoreError>)
    requires
        old(db).wf(),
    ensures
        final(db).wf(),
        final(db).inspirations == old(db).inspirations,
        r is Ok <==> !has_todo(old(db).todos@, row.id@),
        r is Ok ==> final(db).todos@ == old(db).todos@.push(row),
        r is Err ==> r == Err::<(), StoreError>(StoreError::DuplicateId) && final(db).todos@
            == old(db).todos@,
{
    if find_todo(&db.todos, &row.id).is_some() {
        return Err(StoreError::DuplicateId);
    }
    let ghost before = db.todos@;
    db.todos.push(row);
    proof {
        assert forall|i: int, j: int|
            0 <= i < db.todos@.len() && 0 <= j < db.todos@.len() && i != j implies db.todos@[i].id@
            != db.todos@[j].id@ by {
            if i < before.len() && j < before.len() {
                assert(db.todos@[i] == before[i] && db.todos@[j] == before[j]);
            } else if i < before.len() {
                assert(db.todos@[i] == before[i]);
            } else {
                assert(db.todos@[j] == before[j]);
            }
        }
    }
    Ok(())
}

/// Creates a todo with a fresh random id, stamped with the current time.
/// Whatever id and time came back, a success stores exactly the new row;
/// it can fail only on a taken id, so never on an empty table.
pub fn create_todo(db: &mut Db, request: CreateTodoRequest) -> (r: Result<Todo, StoreError>)
    requires
        old(db).wf(),
    ensures
        final(db).wf(),
        final(db).inspirations == old(db).inspirations,
        match r {
            Ok(t) => {
                &&& t == new_todo(t.id, request, t.created_at)
                &&& final(db).todos@ == old(db).todos@.push(t)
            },
            Err(e) => e == StoreError::DuplicateId && final(db).todos@ == old(db).todos@,
        },
        r is Err ==> old(db).todos@.len() > 0,
{
    let id = fresh_id();
    let now = now_millis();
    insert_todo(db, id, request, now)
}

/// The todos whose archived flag is `archived`, in listing order: priority
/// rank, then due date ascending with missing dates last, then newest first.
pub fn get_todos(db: &Db, archived: bool) -> (r: Vec<Todo>)
    ensures
        r@.to_multiset() == db.todos@.filter(with_archived(archived)).to_multiset(),
        in_list_order(r@),
{
    let rows = &db.todos;
    let mut r: Vec<Todo> = Vec::new();
    let mut i: usize = 0;
    proof {
        reveal(Seq::filter);
        assert(rows@.subrange(0, 0).filter(with_archived(archived)) =~= r@);
    }
    while i < rows.len()
        invariant
            rows == &db.todos,
            i <= rows@.len(),
            in_list_order(r@),
            r@.to_multiset() == rows@.subrange(0, i as int).filter(
                with_archived(archived),
            ).to_multiset(),
        decreases rows.len() - i,
    {
        let ghost seen = rows@.subrange(0, i as int).filter(with_archived(archived));
        proof {
            reveal(Seq::filter);
            assert(rows@.subrange(0, i + 1).drop_last() =~= rows@.subrange(0, i as int));
            vstd::seq_lib::to_multiset_build(seen, rows@[i as int]);
        }
        if rows[i].archived == archived {
            insert_in_order(&mut r, rows[i].copy_row());
        }
        i = i + 1;
    }
    assert(rows@.subrange(0, rows@.len() as int) =~= rows@);
    r
}

/// Applies the partial update `request` at time `now` to the todo with its
/// id. Fails with `NotFound`, and changes nothing, when no todo has that id.
pub fn apply_update(db: &mut Db, request: UpdateTodoRequest, now: i64) -> (r: Result<
    Todo,
    StoreError,
>)
    requires
        old(db).wf(),
    ensures
        final(db).wf(),
        final(db).inspirations == old(db).inspirations,
        r is Ok <==> has_todo(old(db).todos@, request.id@),
        match r {
            Ok(t) => exists|i: int|
                0 <= i < old(db).todos@.len() && #[trigger] old(db).todos@[i].id@ == request.id@
                    && t == updated_todo(old(db).todos@[i], request, now) && final(db).todos@
                    == old(db).todos@.update(i, t),
            Err(e) => e == StoreError::NotFound && final(db).todos@ == old(db).todos@,
        },
{
    let ghost req = request;
    let idx = match find_todo(&db.todos, &request.id) {
        Some(i) => i,
        None => {
            return Err(StoreError::NotFound);
        },
    };
    let UpdateTodoRequest { id: _, title, description, priority, due_date, reminder_at, completed } =
        request;
    let cur = db.todos[idx].copy_row();
    let t = Todo {
        id: cur.id,
        title: match title {
            Some(v) => v,
            None => cur.title,
        },
        description: match description {
            Some(v) => v,
            None => cur.description,
        },
        priority: match priority {
            Some(v) => v,
            None => cur.priority,
        },
        due_date: match due_date {
            Some(v) => v,
            None => cur.due_date,
        },
        reminder_at: match reminder_at {
            Some(v) => v,
            None => cur.reminder_at,
        },
        completed: match completed {
            Some(v) => v,
            None => cur.completed,
        },
        archived: cur.archived,
        created_at: cur.created_at,
        updated_at: now,
    };
    let r = t.copy_row();
    let ghost before = db.todos@;
    db.todos[idx] = t;
    proof {
        assert(db.todos@ == before.update(idx as int, r));
        assert forall|i: int, j: int|
            0 <= i < db.todos@.len() && 0 <= j < db.todos@.len() && i != j implies db.todos@[i].id@
            != db.todos@[j].id@ by {
            assert(db.todos@[i].id@ == before[i].id@ && db.todos@[j].id@ == before[j].id@);
        }
        assert(before[idx as int].id@ == req.id@);
    }
    Ok(r)
}

/// Applies a partial update, stamped with the current time.
pub fn update_todo(db: &mut Db, request: UpdateTodoRequest) -> (r: Result<Todo, StoreError>)
    requires
        old(db).wf(),
    ensures
        final(db).wf(),
        final(db).inspirations == old(db).inspirations,
        r is Ok <==> has_todo(old(db).todos@, request.id@),
        match r {
            Ok(t) => exists|i: int|
                0 <= i < old(db).todos@.len() && #[trigger] old(db).todos@[i].id@ == request.id@
                    && t == updated_todo(old(db).todos@[i], request, t.updated_at)
                    && final(db).todos@ == old(db).todos@.update(i, t),
            Err(e) => e == StoreError::NotFound && final(db).todos@ == old(db).todos@,
        },
{
    let now = now_millis();
    apply_update(db, request, now)
}

/// Marks the todo with id `id` completed and archived at time `now`.
/// Fails with `NotFound`, and changes nothing, when no todo has that id.
pub fn mark_complete(db: &mut Db, id: String, now: i64) -> (r: Result<Todo, StoreError>)
    requires
        old(db).wf(),
    ensures
        final(db).wf(),
        final(db).inspirations == old(db).inspirations,
        r is Ok <==> has_todo(old(db).todos@, id@),
        match r {
            Ok(t) => {
                &&& t.completed && t.archived
                &&& exists|i: int|
                    0 <= i < old(db).todos@.len() && #[trigger] old(db).todos@[i].id@ == id@ && t
                        == completed_todo(old(db).todos@[i], now) && final(db).todos@
                        == old(db).todos@.update(i, t)
            },
            Err(e) => e == StoreError::NotFound && final(db).todos@ == old(db).todos@,
        },
{
    let idx = match find_todo(&db.todos, &id) {
        Some(i) => i,
        None => {
            return Err(StoreError::NotFound);
        },
    };
    let mut t = db.todos[idx].copy_row();
    t.completed = true;
    t.archived = true;
    t.updated_at = now;
    let r = t.copy_row();
    let ghost before = db.todos@;
    db.todos[idx] = t;
    proof {
        assert(db.todos@ == before.update(idx as int, r));
        assert forall|i: int, j: int|
            0 <= i < db.todos@.len() && 0 <= j < db.todos@.len() && i != j implies db.todos@[i].id@
            != db.todos@[j].id@ by {
            assert(db.todos@[i].id@ == before[i].id@ && db.todos@[j].id@ == before[j].id@);
        }
    }
    Ok(r)
}

/// Completes and archives a todo, stamped with the current time.
pub fn complete_todo(db: &mut Db, id: String) -> (r: Result<Todo, StoreError>)
    requires
        old(db).wf(),
    ensures
        final(db).wf(),
        final(db).inspirations == old(db).inspirations,
        r is Ok <==> has_todo(old(db).todos@, id@),
        match r {
            Ok(t) => {
                &&& t.completed && t.archived
                &&& exists|i: int|
                    0 <= i < old(db).todos@.len() && #[trigger] old(db).todos@[i].id@ == id@ && t
                        == completed_todo(old(db).todos@[i], t.updated_at) && final(db).todos@
                        == old(db).todos@.update(i, t)
            },
            Err(e) => e == StoreError::NotFound && final(db).todos@ == old(db).todos@,
        },
{
    let now = now_millis();
    mark_complete(db, id, now)
}

/// Removes the todo with id `id`; when there is none, nothing changes and
/// no error is raised.
pub fn delete_todo(db: &mut Db, id: String) -> (r: Result<(), StoreError>)
    requires
        old(db).wf(),
    ensures
        r == Ok::<(), StoreError>(()),
        final(db).wf(),
        final(db).inspirations == old(db).inspirations,
        !has_todo(final(db).todos@, id@),
        has_todo(old(db).todos@, id@) ==> exists|i: int|
            0 <= i < old(db).todos@.len() && #[trigger] old(db).todos@[i].id@ == id@
                && final(db).todos@ == old(db).todos@.remove(i),
        !has_todo(old(db).todos@, id@) ==> final(db).todos@ == old(db).todos@,
{
    match find_todo(&db.todos, &id) {
        Some(idx) => {
            let ghost before = db.todos@;
            db.todos.remove(idx);
            proof {
                assert forall|i: int|
                    0 <= i < db.todos@.len() implies #[trigger] db.todos@[i] == (if i < idx {
                    before[i]
                } else {
                    before[i + 1]
                }) by {}
                assert forall|i: int, j: int|
                    0 <= i < db.todos@.len() && 0 <= j < db.todos@.len() && i != j implies db.todos@[i].id@
                    != db.todos@[j].id@ by {
                    let bi = if i < idx { i } else { i + 1 };
                    let bj = if j < idx { j } else { j + 1 };
                    assert(db.todos@[i] == before[bi] && db.todos@[j] == before[bj]);
                }
                if has_todo(db.todos@, id@) {
                    let k = choose|k: int| 0 <= k < db.todos@.len() && #[trigger] db.todos@[k].id@ == id@;
                    let bk = if k < idx { k } else { k + 1 };
                    assert(db.todos@[k] == before[bk]);
                }
            }
        },
        None => {},
    }
    Ok(())
}

/// Counts over the whole table: all rows, completed rows, rows neither
/// completed nor archived, and archived rows.
pub fn get_todo_stats(db: &Db) -> (r: TodoStats)
    requires
        db.todos@.len() <= i64::MAX,
    ensures
        r.total == db.todos@.len(),
        r.completed == db.todos@.filter(is_completed()).len(),
        r.pending == db.todos@.filter(is_pending()).len(),
        r.archived == db.todos@.filter(is_archived()).len(),
{
    let rows = &db.todos;
    let mut completed: i64 = 0;
    let mut pending: i64 = 0;
    let mut archived: i64 = 0;
    let mut i: usize = 0;
    proof {
        reveal(Seq::filter);
    }
    while i < rows.len()
        invariant
            rows == &db.todos,
            rows@.len() <= i64::MAX,
            i <= rows@.len(),
            completed <= i && pending <= i && archived <= i,
            completed == rows@.subrange(0, i as int).filter(is_completed()).len(),
            pending == rows@.subrange(0, i as int).filter(is_pending()).len(),
            archived == rows@.subrange(0, i as int).filter(is_archived()).len(),
        decreases rows.len() - i,
    {
        proof {
            reveal(Seq::filter);
            assert(rows@.subrange(0, i + 1).drop_last() =~= rows@.subrange(0, i as int));
        }
        let t = &rows[i];
        if t.completed {
            completed = completed + 1;
        }
        if !t.completed && !t.archived {
            pending = pending + 1;
        }
        if t.archived {
            archived = archived + 1;
        }
        i = i + 1;
    }
    assert(rows@.subrange(0, rows@.len() as int) =~= rows@);
    TodoStats { total: rows.len() as i64, completed, pending, archived }
}

/// The todos whose reminder is due at `now`, in table order: reminder set
/// and not later than `now`, neither completed nor archived.
pub fn due_reminders(db: &Db, now: i64) -> (r: Vec<Todo>)
    ensures
        r@ == db.todos@.filter(due_at(now)),
        todo_ids_unique(db.todos@) ==> todo_ids_unique(r@),
{
    let rows = &db.todos;
    let mut r: Vec<Todo> = Vec::new();
    let mut i: usize = 0;
    proof {
        reveal(Seq::filter);
        assert(rows@.subrange(0, 0).filter(due_at(now)) =~= r@);
    }
    while i < rows.len()
        invariant
            rows == &db.todos,
            i <= rows@.len(),
            r@ == rows@.subrange(0, i as int).filter(due_at(now)),
            forall|k: int|
                0 <= k < r@.len() ==> exists|j: int|
                    0 <= j < i && #[trigger] rows@[j].id@ == (#[trigger] r@[k]).id@,
            todo_ids_unique(rows@) ==> todo_ids_unique(r@),
        decreases rows.len() - i,
    {
        let ghost old_r = r@;
        proof {
            reveal(Seq::filter);
            assert(rows@.subrange(0, i + 1).drop_last() =~= rows@.subrange(0, i as int));
        }
        let t = &rows[i];
        let due = match t.reminder_at {
            Some(at) => at <= now && !t.completed && !t.archived,
            None => false,
        };
        if due {
            r.push(t.copy_row());
        }
        proof {
            assert forall|k: int| 0 <= k < r@.len() implies exists|j: int|
                0 <= j < i + 1 && #[trigger] rows@[j].id@ == (#[trigger] r@[k]).id@ by {
                if k < old_r.len() {
                    let j = choose|j: int| 0 <= j < i && #[trigger] rows@[j].id@ == old_r[k].id@;
                    assert(rows@[j].id@ == r@[k].id@);
                } else {
                    assert(rows@[i as int].id@ == r@[k].id@);
                }
            }
            if todo_ids_unique(rows@) && r@.len() > old_r.len() {
                assert forall|a: int, b: int|
                    0 <= a < r@.len() && 0 <= b < r@.len() && a != b implies r@[a].id@
                    != r@[b].id@ by {
                    if a < old_r.len() && b < old_r.len() {
                        assert(r@[a] == old_r[a] && r@[b] == old_r[b]);
                    } else if a < old_r.len() {
                        let j = choose|j: int|
                            0 <= j < i && #[trigger] rows@[j].id@ == old_r[a].id@;
                        assert(rows@[j].id@ != rows@[i as int].id@);
                        assert(r@[a] == old_r[a]);
                    } else {
                        let j = choose|j: int|
                            0 <= j < i && #[trigger] rows@[j].id@ == old_r[b].id@;
                        assert(rows@[j].id@ != rows@[i as int].id@);
                        assert(r@[b] == old_r[b]);
                    }
                }
            }
        }
        i = i + 1;
    }
    assert(rows@.subrange(0, rows@.len() as int) =~= rows@);
    r
}

/// The todos whose reminder is due at the current time.
pub fn get_todos_with_reminders(db: &Db) -> (r: Vec<Todo>)
    ensures
        exists|now: i64| r@ == db.todos@.filter(#[trigger] due_at(now)),
        db.wf() ==> todo_ids_unique(r@),
{
    let now = now_millis();
    due_reminders(db, now)
}

/// A partial update that carries only a title changes the title alone among
/// the user fields, and moves `updated_at` to the update time, which is
/// later than before whenever the clock has advanced.
pub proof fn lemma_title_only_update(t: Todo, req: UpdateTodoRequest, now: i64)
    requires
        req.description is None,
        req.priority is None,
        req.due_date is None,
        req.reminder_at is None,
        req.completed is None,
        now > t.updated_at,
    ensures
        ({
            let u = updated_todo(t, req, now);
            &&& u.description == t.description
            &&& u.priority == t.priority
            &&& u.due_date == t.due_date
            &&& u.reminder_at == t.reminder_at
            &&& u.completed == t.completed
            &&& u.archived == t.archived
            &&& u.id == t.id
            &&& u.created_at == t.created_at
            &&& u.updated_at > t.updated_at
            &&& u.title == (match req.title {
                Some(v) => v,
                None => t.title,
            })
        }),
{
}

/// A todo that is due stays due for every later scan of the same table:
/// reminders repeat until the todo is completed, archived or deleted.
pub proof fn lemma_due_reminder_repeats(rows: Seq<Todo>, i: int, now: i64, later: i64)
    requires
        0 <= i < rows.len(),
        is_due(rows[i], now),
        now <= later,
    ensures
        rows.filter(due_at(later)).contains(rows[i]),
{
    assert(due_at(later)(rows[i]));
    rows.lemma_filter_contains(due_at(later), i);
}

proof fn lemma_filter_len_update(s: Seq<Todo>, p: spec_fn(Todo) -> bool, i: int, x: Todo)
    requires
        0 <= i < s.len(),
    ensures
        s.update(i, x).filter(p).len() == s.filter(p).len() - (if p(s[i]) {
            1int
        } else {
            0int
        }) + (if p(x) {
            1int
        } else {
            0int
        }),
    decreases s.len(),
{
    reveal(Seq::filter);
    let t = s.update(i, x);
    if i == s.len() - 1 {
        assert(t.drop_last() =~= s.drop_last());
    } else {
        assert(t.drop_last() =~= s.drop_last().update(i, x));
        lemma_filter_len_update(s.drop_last(), p, i, x);
    }
}

/// Completing a todo that was neither completed nor archived, as
/// `mark_complete` and `complete_todo` do, raises the completed and archived
/// counts of `get_todo_stats` by one, lowers the pending count by one, and
/// keeps the total.
pub proof fn lemma_completion_moves_stats(rows: Seq<Todo>, i: int, now: i64)
    requires
        0 <= i < rows.len(),
        !rows[i].completed,
        !rows[i].archived,
    ensures
        ({
            let after = rows.update(i, completed_todo(rows[i], now));
            &&& after.len() == rows.len()
            &&& after.filter(is_completed()).len() == rows.filter(is_completed()).len() + 1
            &&& after.filter(is_archived()).len() == rows.filter(is_archived()).len() + 1
            &&& after.filter(is_pending()).len() + 1 == rows.filter(is_pending()).len()
        }),
{
    let x = completed_todo(rows[i], now);
    lemma_filter_len_update(rows, is_completed(), i, x);
    lemma_filter_len_update(rows, is_archived(), i, x);
    lemma_filter_len_update(rows, is_pending(), i, x);
}

/// Completion takes every todo out of the due set, whatever the time.
pub proof fn lemma_completed_never_due(t: Todo, now: i64, later: i64)
    ensures
        !is_due(completed_todo(t, now), later),
{
}

} // verus!
