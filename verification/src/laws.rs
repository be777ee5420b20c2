//! Laws of the store: what holds of every sequence of operations.
//!
//! Each law is stated over the store model of [`crate::models`]: the
//! transition functions `spec_create`, `spec_update`, `spec_toggle` and
//! `spec_delete`, and the lookup `find_task`, the same spec functions the
//! executable operations are proved against.

use vstd::prelude::*;

use crate::models::contains_id;
use crate::models::edited;
use crate::models::find_idx;
use crate::models::find_task;
use crate::models::lemma_delete_inv;
use crate::models::lemma_find_idx_basics;
use crate::models::lemma_find_idx_is;
use crate::models::lemma_insert_inv;
use crate::models::lemma_replace_inv;
use crate::models::spec_create;
use crate::models::spec_delete;
use crate::models::spec_toggle;
use crate::models::spec_update;
use crate::models::store_inv;
use crate::models::toggled;
use crate::models::TodoView;

verus! {

/// A record just created is found at once under its identifier: after a
/// create of the well-formed record `t`, looking `t.id` up yields exactly
/// `t`, and the store invariant still holds.
pub proof fn lemma_get_after_create(s: Seq<TodoView>, t: TodoView)
    requires
        store_inv(s),
        t.wf(),
    ensures
        store_inv(spec_create(s, t)),
        find_task(spec_create(s, t), t.id) == Some(t),
{
    lemma_delete_inv(s, t.id);
    lemma_insert_inv(spec_delete(s, t.id), t);
}

/// The listing order: under the store invariant the records stand sorted
/// by creation time, newest first — so every listing of a store built by
/// creates comes out in that order.
pub proof fn lemma_list_sorted(s: Seq<TodoView>)
    requires
        store_inv(s),
    ensures
        forall|i: int, j: int| 0 <= i < j < s.len() ==> s[i].created_at >= s[j].created_at,
{
}

/// Toggling the same record twice returns its completion flag to where it
/// was, and, when the clock advances across both calls, the update time
/// strictly increases at each of them.
pub proof fn lemma_toggle_twice(s: Seq<TodoView>, id: u128, n1: i64, n2: i64)
    requires
        store_inv(s),
        contains_id(s, id),
        find_task(s, id).unwrap().updated_at < n1,
        n1 < n2,
    ensures
        ({
            let t0 = find_task(s, id).unwrap();
            let s1 = spec_toggle(s, id, n1);
            let s2 = spec_toggle(s1, id, n2);
            &&& store_inv(s1)
            &&& store_inv(s2)
            &&& find_task(s1, id) == Some(toggled(t0, n1))
            &&& find_task(s2, id).unwrap().completed == t0.completed
            &&& t0.updated_at < find_task(s1, id).unwrap().updated_at
            &&& find_task(s1, id).unwrap().updated_at < find_task(s2, id).unwrap().updated_at
        }),
{
    let t0 = find_task(s, id).unwrap();
    lemma_find_idx_basics(s, id);
    assert(t0.id == id);
    assert(t0.wf());
    lemma_replace_inv(s, toggled(t0, n1));
    let s1 = spec_toggle(s, id, n1);
    let t1 = toggled(t0, n1);
    assert(find_task(s1, id) == Some(t1));
    assert(t1.updated_at == n1);
    lemma_find_idx_basics(s1, id);
    lemma_replace_inv(s1, toggled(t1, n2));
    let t2 = toggled(t1, n2);
    assert(find_task(spec_toggle(s1, id, n2), id) == Some(t2));
    assert(t2.updated_at == n2);
    assert(t2.completed == t0.completed);
}

/// A deleted identifier is no longer found, and deleting an absent
/// identifier removes nothing and changes nothing.
pub proof fn lemma_delete_then_get(s: Seq<TodoView>, id: u128)
    requires
        store_inv(s),
    ensures
        store_inv(spec_delete(s, id)),
        find_task(spec_delete(s, id), id) == None::<TodoView>,
        !contains_id(s, id) ==> spec_delete(s, id) == s,
{
    lemma_delete_inv(s, id);
}

/// Updating an unknown identifier returns nothing and inserts nothing:
/// the store is left exactly as it was.
pub proof fn lemma_update_unknown(
    s: Seq<TodoView>,
    id: u128,
    title: Seq<char>,
    description: Option<Seq<char>>,
    now: i64,
)
    requires
        !contains_id(s, id),
    ensures
        find_task(s, id) == None::<TodoView>,
        spec_update(s, id, title, description, now) == s,
{
}

} // verus!
