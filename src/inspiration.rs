//! The inspiration table: creation with JSON-encoded tags, listing newest
//! first, case-sensitive substring search, and deletion.

use vstd::prelude::*;

use crate::external::{fresh_id, json_of_tags, now_millis, tag_views, tags_to_json};
use crate::models::{
    has_inspiration, CreateInspirationRequest, Db, Inspiration,
    StoreError,
};
use crate::text::{has_substring, text_contains};

verus! {

/// `s` is ordered by creation time, newest first.
pub open spec fn newest_first(s: Seq<Inspiration>) -> bool {
    forall|i: int, j: int|
        0 <= i < j < s.len() ==> (#[trigger] s[i]).created_at >= (#[trigger] s[j]).created_at
}

/// Rows whose content or stored tag text contains `query`.
pub open spec fn matches_query(query: Seq<char>) -> spec_fn(Inspiration) -> bool {
    |n: Inspiration| has_substring(n.content@, query) || has_substring(n.tags@, query)
}

/// Inserts `n` into `v`, ordered newest first, after every row at least as new.
fn insert_newest_first(v: &mut Vec<Inspiration>, n: Inspiration)
    requires
        newest_first(old(v)@),
    ensures
        newest_first(final(v)@),
        final(v)@.to_multiset() == old(v)@.to_multiset().insert(n),
{
    let mut p: usize = 0;
    while p < v.len() && v[p].created_at >= n.created_at
        invariant
            p <= v.len(),
            newest_first(v@),
            forall|k: int| 0 <= k < p ==> (#[trigger] v@[k]).created_at >= n.created_at,
        decreases v.len() - p,
    {
        p = p + 1;
    }
    let ghost before = v@;
    proof {
        vstd::seq_lib::to_multiset_insert(before, p as int, n);
    }
    v.insert(p, n);
    proof {
        let after = v@;
        assert forall|i: int, j: int| 0 <= i < j < after.len() implies (
        #[trigger] after[i]).created_at >= (#[trigger] after[j]).created_at by {
            if j < p {
                assert(after[i] == before[i] && after[j] == before[j]);
            } else if j == p {
                assert(after[i] == before[i]);
            } else if i < p {
                assert(after[i] == before[i] && after[j] == before[j - 1]);
            } else if i == p {
                assert(after[j] == before[j - 1]);
                assert(before[p as int].created_at >= before[j - 1].created_at);
            } else {
                assert(after[i] == before[i - 1] && after[j] == before[j - 1]);
            }
        }
    }
}

/// The position of the inspiration with id `id`, if any.
fn find_inspiration(rows: &Vec<Inspiration>, id: &String) -> (r: Option<usize>)
    ensures
        match r {
            Some(i) => i < rows@.len() && rows@[i as int].id@ == id@,
            None => !has_inspiration(rows@, id@),
        },
{
    let mut i: usize = 0;
    while i < rows.len()
        invariant
            i <= rows@.len(),
            forall|k: int| 0 <= k < i ==> #[trigger] rows@[k].id@ != id@,
        decreases rows.len() - i,
    {
        if rows[i].id == *id {
            return Some(i);
        }
        i = i + 1;
    }
    None
}

/// Stores a new inspiration with the given id, content, encoded tag text
/// and creation time. Fails with `DuplicateId`, and changes nothing, when
/// that id is taken.
pub fn insert_inspiration(db: &mut Db, id: String, content: String, tags: String, now: i64) -> (r:
    Result<Inspiration, StoreError>)
    requires
        old(db).wf(),
    ensures
        final(db).wf(),
        final(db).todos == old(db).todos,
        match r {
            Ok(n) => {
                &&& !has_inspiration(old(db).inspirations@, id@)
                &&& n == (Inspiration { id, content, tags, created_at: now })
                &&& final(db).inspirations@ == old(db).inspirations@.push(n)
            },
            Err(e) => {
                &&& e == StoreError::DuplicateId
                &&& has_inspiration(old(db).inspirations@, id@)
                &&& final(db).inspirations@ == old(db).inspirations@
            },
        },
{
    let n = Inspiration { id, content, tags, created_at: now };
    let r = n.copy_row();
    match restore_inspiration(db, n) {
        Ok(()) => Ok(r),
        Err(e) => Err(e),
    }
}

/// Puts a stored row into the table as it is, as when the table is loaded
/// from durable storage. Fails with `DuplicateId`, and changes nothing, when
/// its id is taken.
pub fn restore_inspiration(db: &mut Db, row: Inspiration) -> (r: Result<(), StoreError>)
    requires
        old(db).wf(),
    ensures
        final(db).wf(),
        final(db).todos == old(db).todos,
        r is Ok <==> !has_inspiration(old(db).inspirations@, row.id@),
        r is Ok ==> final(db).inspirations@ == old(db).inspirations@.push(row),
        r is Err ==> r == Err::<(), StoreError>(StoreError::DuplicateId)
            && final(db).inspirations@ == old(db).inspirations@,
{
    if find_inspiration(&db.inspirations, &row.id).is_some() {
        return Err(StoreError::DuplicateId);
    }
    let ghost before = db.inspirations@;
    db.inspirations.push(row);
    proof {
        let rows = db.inspirations@;
        assert forall|i: int, j: int|
            0 <= i < rows.len() && 0 <= j < rows.len() && i != j implies rows[i].id@
            != rows[j].id@ by {
            if i < before.len() && j < before.len() {
                assert(rows[i] == before[i] && rows[j] == before[j]);
            } else if i < before.len() {
                assert(rows[i] == before[i]);
            } else {
                assert(rows[j] == before[j]);
            }
        }
    }
    Ok(())
}

/// Creates an inspiration with a fresh random id and the current time; its
/// tags are stored as the JSON text of the ordered list. It can fail only
/// on a taken id, so never on an empty table.
pub fn create_inspiration(db: &mut Db, request: CreateInspirationRequest) -> (r: Result<
    Inspiration,
    StoreError,
>)
    requires
        old(db).wf(),
    ensures
        final(db).wf(),
        final(db).todos == old(db).todos,
        match r {
            Ok(n) => {
                &&& n.content == request.content
                &&& n.tags@ == json_of_tags(tag_views(request.tags@))
                &&& final(db).inspirations@ == old(db).inspirations@.push(n)
            },
            Err(e) => e == StoreError::DuplicateId && final(db).inspirations@
                == old(db).inspirations@,
        },
        r is Err ==> old(db).inspirations@.len() > 0,
{
    let id = fresh_id();
    let now = now_millis();
    let tags = tags_to_json(&request.tags);
    insert_inspiration(db, id, request.content, tags, now)
}

/// The inspirations whose content or stored tag text contains `query`,
/// case-sensitively, newest first. The empty query matches every row.
pub fn search_inspirations(db: &Db, query: String) -> (r: Vec<Inspiration>)
    ensures
        r@.to_multiset() == db.inspirations@.filter(matches_query(query@)).to_multiset(),
        newest_first(r@),
{
    let rows = &db.inspirations;
    let mut r: Vec<Inspiration> = Vec::new();
    let mut i: usize = 0;
    proof {
        reveal(Seq::filter);
        assert(rows@.subrange(0, 0).filter(matches_query(query@)) =~= r@);
    }
    while i < rows.len()
        invariant
            rows == &db.inspirations,
            i <= rows@.len(),
            newest_first(r@),
            r@.to_multiset() == rows@.subrange(0, i as int).filter(
                matches_query(query@),
            ).to_multiset(),
        decreases rows.len() - i,
    {
        let ghost seen = rows@.subrange(0, i as int).filter(matches_query(query@));
        proof {
            reveal(Seq::filter);
            assert(rows@.subrange(0, i + 1).drop_last() =~= rows@.subrange(0, i as int));
            vstd::seq_lib::to_multiset_build(seen, rows@[i as int]);
        }
        let n = &rows[i];
        if text_contains(n.content.as_str(), query.as_str()) || text_contains(
            n.tags.as_str(),
            query.as_str(),
        ) {
            insert_newest_first(&mut r, n.copy_row());
        }
        i = i + 1;
    }
    assert(rows@.subrange(0, rows@.len() as int) =~= rows@);
    r
}

/// Every inspiration, newest first.
pub fn get_inspirations(db: &Db) -> (r: Vec<Inspiration>)
    ensures
        r@.to_multiset() == db.inspirations@.to_multiset(),
        newest_first(r@),
{
    let rows = &db.inspirations;
    let mut r: Vec<Inspiration> = Vec::new();
    let mut i: usize = 0;
    assert(rows@.subrange(0, 0) =~= r@);
    while i < rows.len()
        invariant
            rows == &db.inspirations,
            i <= rows@.len(),
            newest_first(r@),
            r@.to_multiset() == rows@.subrange(0, i as int).to_multiset(),
        decreases rows.len() - i,
    {
        proof {
            assert(rows@.subrange(0, i + 1) =~= rows@.subrange(0, i as int).push(rows@[i as int]));
            vstd::seq_lib::to_multiset_build(rows@.subrange(0, i as int), rows@[i as int]);
        }
        insert_newest_first(&mut r, rows[i].copy_row());
        i = i + 1;
    }
    assert(rows@.subrange(0, rows@.len() as int) =~= rows@);
    r
}

/// Removes the inspiration with id `id`; when there is none, nothing changes
/// and no error is raised.
pub fn delete_inspiration(db: &mut Db, id: String) -> (r: Result<(), StoreError>)
    requires
        old(db).wf(),
    ensures
        r == Ok::<(), StoreError>(()),
        final(db).wf(),
        final(db).todos == old(db).todos,
        !has_inspiration(final(db).inspirations@, id@),
        has_inspiration(old(db).inspirations@, id@) ==> exists|i: int|
            0 <= i < old(db).inspirations@.len() && #[trigger] old(db).inspirations@[i].id@ == id@
                && final(db).inspirations@ == old(db).inspirations@.remove(i),
        !has_inspiration(old(db).inspirations@, id@) ==> final(db).inspirations@
            == old(db).inspirations@,
{
    match find_inspiration(&db.inspirations, &id) {
        Some(idx) => {
            let ghost before = db.inspirations@;
            db.inspirations.remove(idx);
            proof {
                let rows = db.inspirations@;
                assert forall|i: int, j: int|
                    0 <= i < rows.len() && 0 <= j < rows.len() && i != j implies rows[i].id@
                    != rows[j].id@ by {
                    let bi = if i < idx { i } else { i + 1 };
                    let bj = if j < idx { j } else { j + 1 };
                    assert(rows[i] == before[bi] && rows[j] == before[bj]);
                }
                if has_inspiration(rows, id@) {
                    let k = choose|k: int| 0 <= k < rows.len() && #[trigger] rows[k].id@ == id@;
                    let bk = if k < idx { k } else { k + 1 };
                    assert(rows[k] == before[bk]);
                }
            }
        },
        None => {},
    }
    Ok(())
}

} // verus!
