//! Task records and the in-memory service that stores them.
//!
//! A [`Todo`] is one task: an opaque numeric identifier, a title, an
//! optional description, a completion flag and two timestamps (microseconds
//! since the Unix epoch). A [`TodoService`] owns a collection of tasks,
//! kept sorted by creation time, newest first, with pairwise-distinct
//! identifiers; every operation returns copies, never references into the
//! store.

use vstd::prelude::*;

verus! {

/// Mathematical model of one task record.
pub struct TodoView {
    pub id: u128,
    pub title: Seq<char>,
    pub description: Option<Seq<char>>,
    pub completed: bool,
    pub created_at: i64,
    pub updated_at: i64,
}

/// One task record. Timestamps are microseconds since the Unix epoch.
#[derive(Debug)]
pub struct Todo {
    pub id: u128,
    pub title: String,
    pub description: Option<String>,
    pub completed: bool,
    pub created_at: i64,
    pub updated_at: i64,
}

impl View for Todo {
    type V = TodoView;

    open spec fn view(&self) -> TodoView {
        TodoView {
            id: self.id,
            title: self.title@,
            description: self.description.deep_view(),
            completed: self.completed,
            created_at: self.created_at,
            updated_at: self.updated_at,
        }
    }
}

impl Clone for Todo {
    fn clone(&self) -> (res: Self)
        ensures
            res == *self,
    {
        Todo {
            id: self.id,
            title: self.title.clone(),
            description: match &self.description {
                Some(d) => Some(d.clone()),
                None => None,
            },
            completed: self.completed,
            created_at: self.created_at,
            updated_at: self.updated_at,
        }
    }
}

impl TodoView {
    /// A record is well formed when it was never updated before it was made.
    pub open spec fn wf(self) -> bool {
        self.created_at <= self.updated_at
    }
}

/// The records stand sorted by creation time, newest first.
pub open spec fn sorted_desc(s: Seq<TodoView>) -> bool {
    forall|i: int, j: int| 0 <= i < j < s.len() ==> s[i].created_at >= s[j].created_at
}

/// No two records share an identifier.
pub open spec fn distinct_ids(s: Seq<TodoView>) -> bool {
    forall|i: int, j: int| 0 <= i < j < s.len() ==> s[i].id != s[j].id
}

/// Every record is well formed.
pub open spec fn all_wf(s: Seq<TodoView>) -> bool {
    forall|i: int| 0 <= i < s.len() ==> s[i].wf()
}

/// The store invariant: sorted newest first, identifiers distinct,
/// every record well formed.
pub open spec fn store_inv(s: Seq<TodoView>) -> bool {
    sorted_desc(s) && distinct_ids(s) && all_wf(s)
}

/// Index of the first record carrying `id`; the length when there is none.
pub open spec fn find_idx(s: Seq<TodoView>, id: u128) -> int
    decreases s.len(),
{
    if s.len() == 0 {
        0
    } else if s[0].id == id {
        0
    } else {
        1 + find_idx(s.drop_first(), id)
    }
}

/// Whether some record carries `id`.
pub open spec fn contains_id(s: Seq<TodoView>, id: u128) -> bool {
    find_idx(s, id) < s.len()
}

/// The record carrying `id`, if any.
pub open spec fn find_task(s: Seq<TodoView>, id: u128) -> Option<TodoView> {
    if contains_id(s, id) {
        Some(s[find_idx(s, id)])
    } else {
        None
    }
}

/// Index of the first record created no later than `c`; the length when
/// every record is newer. Inserting at this index keeps the newest-first
/// order.
pub open spec fn insert_pos(s: Seq<TodoView>, c: i64) -> int
    decreases s.len(),
{
    if s.len() == 0 {
        0
    } else if s[0].created_at <= c {
        0
    } else {
        1 + insert_pos(s.drop_first(), c)
    }
}

/// The store after removing the record carrying `id`, if any.
pub open spec fn spec_delete(s: Seq<TodoView>, id: u128) -> Seq<TodoView> {
    if contains_id(s, id) {
        s.remove(find_idx(s, id))
    } else {
        s
    }
}

/// The store after placing `t` at its sorted position.
pub open spec fn spec_insert(s: Seq<TodoView>, t: TodoView) -> Seq<TodoView> {
    s.insert(insert_pos(s, t.created_at), t)
}

/// The store after creating `t`: any old record under the same identifier
/// gives way, and `t` enters at its sorted position.
pub open spec fn spec_create(s: Seq<TodoView>, t: TodoView) -> Seq<TodoView> {
    spec_insert(spec_delete(s, t.id), t)
}

/// The store after overwriting the record that carries `t.id` with `t`.
/// Meaningful only when such a record exists.
pub open spec fn spec_replace(s: Seq<TodoView>, t: TodoView) -> Seq<TodoView> {
    s.update(find_idx(s, t.id), t)
}

/// The update time a mutation at clock reading `now` leaves behind: `now`,
/// held back to the creation time if the clock ran backwards past it.
pub open spec fn stamped(t: TodoView, now: i64) -> i64 {
    if now <= t.created_at {
        t.created_at
    } else {
        now
    }
}

/// `t` with its completion flag flipped at clock reading `now`.
pub open spec fn toggled(t: TodoView, now: i64) -> TodoView {
    TodoView { completed: !t.completed, updated_at: stamped(t, now), ..t }
}

/// `t` with a new title and description at clock reading `now`.
pub open spec fn edited(
    t: TodoView,
    title: Seq<char>,
    description: Option<Seq<char>>,
    now: i64,
) -> TodoView {
    TodoView { title, description, updated_at: stamped(t, now), ..t }
}

/// The store after flipping the completion flag of the record carrying
/// `id`; unchanged when there is none.
pub open spec fn spec_toggle(s: Seq<TodoView>, id: u128, now: i64) -> Seq<TodoView> {
    match find_task(s, id) {
        Some(t) => spec_replace(s, toggled(t, now)),
        None => s,
    }
}

/// The store after rewriting title and description of the record carrying
/// `id`; unchanged when there is none.
pub open spec fn spec_update(
    s: Seq<TodoView>,
    id: u128,
    title: Seq<char>,
    description: Option<Seq<char>>,
    now: i64,
) -> Seq<TodoView> {
    match find_task(s, id) {
        Some(t) => spec_replace(s, edited(t, title, description, now)),
        None => s,
    }
}

/// The view of an optional record.
pub open spec fn opt_view(o: Option<Todo>) -> Option<TodoView> {
    match o {
        Some(t) => Some(t@),
        None => None,
    }
}

/// `find_idx` points at the first record carrying `id`: nothing before it
/// matches, and it matches unless it is the length.
pub proof fn lemma_find_idx_basics(s: Seq<TodoView>, id: u128)
    ensures
        0 <= find_idx(s, id) <= s.len(),
        forall|j: int| 0 <= j < find_idx(s, id) ==> s[j].id != id,
        find_idx(s, id) < s.len() ==> s[find_idx(s, id)].id == id,
    decreases s.len(),
{
    if s.len() > 0 && s[0].id != id {
        lemma_find_idx_basics(s.drop_first(), id);
        assert forall|j: int| 0 <= j < find_idx(s, id) implies s[j].id != id by {
            if j > 0 {
                assert(s.drop_first()[j - 1] == s[j]);
            }
        }
        if find_idx(s, id) < s.len() {
            assert(s.drop_first()[find_idx(s, id) - 1] == s[find_idx(s, id)]);
        }
    }
}

/// Any index with nothing matching before it, and a match at it unless it
/// is the length, is `find_idx`.
pub proof fn lemma_find_idx_is(s: Seq<TodoView>, id: u128, k: int)
    requires
        0 <= k <= s.len(),
        forall|j: int| 0 <= j < k ==> s[j].id != id,
        k < s.len() ==> s[k].id == id,
    ensures
        find_idx(s, id) == k,
{
    lemma_find_idx_basics(s, id);
}

/// `insert_pos` points at the first record created no later than `c`:
/// everything before it is newer, and it is no newer unless it is the
/// length.
pub proof fn lemma_insert_pos_basics(s: Seq<TodoView>, c: i64)
    ensures
        0 <= insert_pos(s, c) <= s.len(),
        forall|j: int| 0 <= j < insert_pos(s, c) ==> s[j].created_at > c,
        insert_pos(s, c) < s.len() ==> s[insert_pos(s, c)].created_at <= c,
    decreases s.len(),
{
    if s.len() > 0 && s[0].created_at > c {
        lemma_insert_pos_basics(s.drop_first(), c);
        assert forall|j: int| 0 <= j < insert_pos(s, c) implies s[j].created_at > c by {
            if j > 0 {
                assert(s.drop_first()[j - 1] == s[j]);
            }
        }
        if insert_pos(s, c) < s.len() {
            assert(s.drop_first()[insert_pos(s, c) - 1] == s[insert_pos(s, c)]);
        }
    }
}

/// Any index with only newer records before it, and one no newer at it
/// unless it is the length, is `insert_pos`.
pub proof fn lemma_insert_pos_is(s: Seq<TodoView>, c: i64, k: int)
    requires
        0 <= k <= s.len(),
        forall|j: int| 0 <= j < k ==> s[j].created_at > c,
        k < s.len() ==> s[k].created_at <= c,
    ensures
        insert_pos(s, c) == k,
{
    lemma_insert_pos_basics(s, c);
}

/// Deleting keeps the invariant and leaves nothing under the deleted
/// identifier.
pub proof fn lemma_delete_inv(s: Seq<TodoView>, id: u128)
    requires
        store_inv(s),
    ensures
        store_inv(spec_delete(s, id)),
        !contains_id(spec_delete(s, id), id),
{
    lemma_find_idx_basics(s, id);
    if contains_id(s, id) {
        let k = find_idx(s, id);
        let s2 = s.remove(k);
        s.remove_ensures(k);
        assert forall|j: int| 0 <= j < s2.len() implies s2[j].id != id by {
            if j >= k {
                assert(s2[j] == s[j + 1]);
                assert(s[k].id != s[j + 1].id);
            }
        }
        lemma_find_idx_is(s2, id, s2.len() as int);
        assert forall|i: int, j: int| 0 <= i < j < s2.len() implies s2[i].created_at
            >= s2[j].created_at && s2[i].id != s2[j].id by {
            let i2: int = if i < k {
                i
            } else {
                i + 1
            };
            let j2: int = if j < k {
                j
            } else {
                j + 1
            };
            assert(s2[i] == s[i2]);
            assert(s2[j] == s[j2]);
            assert(s[i2].created_at >= s[j2].created_at);
            assert(s[i2].id != s[j2].id);
        }
        assert forall|i: int| 0 <= i < s2.len() implies s2[i].wf() by {
            let i2: int = if i < k {
                i
            } else {
                i + 1
            };
            assert(s2[i] == s[i2]);
            assert(s[i2].wf());
        }
    }
}

/// Inserting a well-formed record under a fresh identifier keeps the
/// invariant, and the record is then found under its identifier.
pub proof fn lemma_insert_inv(s: Seq<TodoView>, t: TodoView)
    requires
        store_inv(s),
        !contains_id(s, t.id),
        t.wf(),
    ensures
        store_inv(spec_insert(s, t)),
        find_task(spec_insert(s, t), t.id) == Some(t),
{
    lemma_find_idx_basics(s, t.id);
    lemma_insert_pos_basics(s, t.created_at);
    let c = t.created_at;
    let p = insert_pos(s, c);
    let s2 = s.insert(p, t);
    s.insert_ensures(p, t);
    assert forall|j: int| 0 <= j < p implies s2[j].id != t.id by {
        assert(s2[j] == s[j]);
    }
    lemma_find_idx_is(s2, t.id, p);
    assert(find_task(s2, t.id) == Some(t));
    assert forall|i: int, j: int| 0 <= i < j < s2.len() implies s2[i].created_at
        >= s2[j].created_at && s2[i].id != s2[j].id by {
        if i < p && j < p {
            assert(s2[i] == s[i]);
            assert(s2[j] == s[j]);
        } else if i < p && j == p {
            assert(s2[i] == s[i]);
            assert(s[i].created_at > c);
        } else if i < p && j > p {
            assert(s2[i] == s[i]);
            assert(s2[j] == s[j - 1]);
        } else if i == p {
            assert(s2[j] == s[j - 1]);
            assert(p <= j - 1 < s.len());
            if p < j - 1 {
                assert(s[p].created_at >= s[j - 1].created_at);
            }
            assert(s[p].created_at <= c);
            assert(s[j - 1].id != t.id);
        } else {
            assert(s2[i] == s[i - 1]);
            assert(s2[j] == s[j - 1]);
        }
    }
    assert forall|i: int| 0 <= i < s2.len() implies s2[i].wf() by {
        if i < p {
            assert(s2[i] == s[i]);
        } else if i > p {
            assert(s2[i] == s[i - 1]);
        }
    }
}

/// Overwriting the record that carries an identifier with a well-formed
/// record of the same identifier and creation time keeps the invariant;
/// the new record is then found under the identifier, and every other
/// identifier still finds what it found before.
pub proof fn lemma_replace_inv(s: Seq<TodoView>, t: TodoView)
    requires
        store_inv(s),
        contains_id(s, t.id),
        t.wf(),
        t.created_at == s[find_idx(s, t.id)].created_at,
    ensures
        store_inv(spec_replace(s, t)),
        find_task(spec_replace(s, t), t.id) == Some(t),
        forall|id2: u128| id2 != t.id ==> find_task(spec_replace(s, t), id2) == find_task(s, id2),
{
    lemma_find_idx_basics(s, t.id);
    let k = find_idx(s, t.id);
    let s2 = s.update(k, t);
    lemma_find_idx_is(s2, t.id, k);
    assert(find_task(s2, t.id) == Some(t));
    assert forall|i: int, j: int| 0 <= i < j < s2.len() implies s2[i].created_at
        >= s2[j].created_at && s2[i].id != s2[j].id by {
        assert(s[i].created_at >= s[j].created_at);
        assert(s[i].id != s[j].id);
    }
    assert forall|i: int| 0 <= i < s2.len() implies s2[i].wf() by {
        if i != k {
            assert(s2[i] == s[i]);
        }
    }
    assert forall|id2: u128| id2 != t.id implies find_task(s2, id2) == find_task(s, id2) by {
        lemma_find_idx_basics(s, id2);
        let f = find_idx(s, id2);
        assert forall|j: int| 0 <= j < f implies s2[j].id != id2 by {
            if j != k {
                assert(s2[j] == s[j]);
            }
        }
        if f < s.len() {
            assert(s[f].id == id2);
            assert(f != k);
            assert(s2[f] == s[f]);
        }
        lemma_find_idx_is(s2, id2, f);
    }
}

/// Payload for creating a task: a title and an optional description.
#[derive(Debug)]
pub struct CreateTodoRequest {
    pub title: String,
    pub description: Option<String>,
}

/// Payload for rewriting a task: a title and an optional description.
#[derive(Debug)]
pub struct UpdateTodoRequest {
    pub title: String,
    pub description: Option<String>,
}

/// Relies on uuid's `Uuid::new_v4` for a freshly drawn random identifier,
/// read out as an integer with `Uuid::as_u128`. The value is random:
/// nothing is promised of it.
#[verifier::external_body]
fn fresh_id() -> u128 {
    uuid::Uuid::new_v4().as_u128()
}

/// Relies on chrono's `Utc::now` for the current wall-clock time, read out
/// with `DateTime::timestamp_micros` as microseconds since the Unix epoch.
/// The value depends on the clock: nothing is promised of it.
#[verifier::external_body]
fn now_micros() -> i64 {
    chrono::Utc::now().timestamp_micros()
}

impl Todo {
    /// Build a task from an already-chosen identifier and clock reading.
    pub fn new_at(id: u128, now: i64, title: String, description: Option<String>) -> (todo: Todo)
        ensures
            todo@ == (TodoView {
                id,
                title: title@,
                description: description.deep_view(),
                completed: false,
                created_at: now,
                updated_at: now,
            }),
            todo@.wf(),
    {
        Todo { id, title, description, completed: false, created_at: now, updated_at: now }
    }

    /// Whether the task carries a description.
    pub fn has_description(&self) -> (r: bool)
        ensures
            r == self@.description.is_some(),
    {
        self.description.is_some()
    }

    /// The description, or the empty string when there is none.
    pub fn description_text(&self) -> (r: String)
        ensures
            r@ == match self@.description {
                Some(d) => d,
                None => Seq::<char>::empty(),
            },
    {
        match &self.description {
            Some(d) => d.clone(),
            None => String::new(),
        }
    }

    /// Build a task with a fresh random identifier, stamped with the
    /// current clock reading.
    pub fn new(title: String, description: Option<String>) -> (todo: Todo)
        ensures
            todo@.title == title@,
            todo@.description == description.deep_view(),
            !todo@.completed,
            todo@.created_at == todo@.updated_at,
            todo@.wf(),
    {
        let id = fresh_id();
        let now = now_micros();
        Todo::new_at(id, now, title, description)
    }

    /// Flip the completion flag at clock reading `now`.
    pub fn toggle_completed_at(&mut self, now: i64)
        ensures
            final(self)@ == toggled(old(self)@, now),
    {
        self.completed = !self.completed;
        if now <= self.created_at {
            self.updated_at = self.created_at;
        } else {
            self.updated_at = now;
        }
    }

    /// Flip the completion flag, stamping the current clock reading.
    pub fn toggle_completed(&mut self)
        ensures
            exists|now: i64| final(self)@ == toggled(old(self)@, now),
    {
        let now = now_micros();
        self.toggle_completed_at(now);
    }

    /// Rewrite title and description at clock reading `now`.
    pub fn update_at(&mut self, now: i64, title: String, description: Option<String>)
        ensures
            final(self)@ == edited(old(self)@, title@, description.deep_view(), now),
    {
        self.title = title;
        self.description = description;
        if now <= self.created_at {
            self.updated_at = self.created_at;
        } else {
            self.updated_at = now;
        }
    }

    /// Rewrite title and description, stamping the current clock reading.
    pub fn update(&mut self, title: String, description: Option<String>)
        ensures
            exists|now: i64| final(self)@ == edited(old(self)@, title@, description.deep_view(), now),
    {
        let now = now_micros();
        self.update_at(now, title, description);
    }
}

/// The outcome of an update at some clock reading `now`: the store moved
/// from `pre` to `post` as [`spec_update`] says, and `r` is a copy of the
/// rewritten record, or nothing when the identifier was unknown.
pub open spec fn update_outcome(
    pre: Seq<TodoView>,
    post: Seq<TodoView>,
    r: Option<Todo>,
    id: u128,
    title: Seq<char>,
    description: Option<Seq<char>>,
    now: i64,
) -> bool {
    &&& post == spec_update(pre, id, title, description, now)
    &&& opt_view(r) == match find_task(pre, id) {
        Some(t) => Some(edited(t, title, description, now)),
        None => None::<TodoView>,
    }
}

/// The outcome of a toggle at some clock reading `now`: the store moved
/// from `pre` to `post` as [`spec_toggle`] says, and `r` is a copy of the
/// flipped record, or nothing when the identifier was unknown.
pub open spec fn toggle_outcome(
    pre: Seq<TodoView>,
    post: Seq<TodoView>,
    r: Option<Todo>,
    id: u128,
    now: i64,
) -> bool {
    &&& post == spec_toggle(pre, id, now)
    &&& opt_view(r) == match find_task(pre, id) {
        Some(t) => Some(toggled(t, now)),
        None => None::<TodoView>,
    }
}

/// The in-memory store of tasks. It owns every record; operations hand out
/// copies only. The records are kept sorted by creation time, newest
/// first, with pairwise-distinct identifiers.
pub struct TodoService {
    tasks: Vec<Todo>,
}

impl View for TodoService {
    type V = Seq<TodoView>;

    closed spec fn view(&self) -> Seq<TodoView> {
        self.tasks@.map_values(|t: Todo| t@)
    }
}

impl TodoService {
    /// The store invariant, established by [`TodoService::new`] and kept
    /// by every operation.
    pub open spec fn wf(&self) -> bool {
        store_inv(self@)
    }

    /// An empty store.
    pub fn new() -> (s: Self)
        ensures
            s@ == Seq::<TodoView>::empty(),
            s.wf(),
    {
        let s = TodoService { tasks: Vec::new() };
        proof {
            assert(s@ =~= Seq::<TodoView>::empty());
        }
        s
    }

    /// Index of the first stored record carrying `id`; the length when
    /// there is none.
    fn find_index(&self, id: u128) -> (k: usize)
        ensures
            k as int == find_idx(self@, id),
            self@.len() == self.tasks@.len(),
    {
        let n = self.tasks.len();
        let mut k: usize = 0;
        while k < n
            invariant
                n == self.tasks.len(),
                k <= n,
                self@.len() == self.tasks@.len(),
                forall|j: int| 0 <= j < k ==> self@[j].id != id,
            decreases n - k,
        {
            if self.tasks[k].id == id {
                proof {
                    assert(self@[k as int].id == id);
                    lemma_find_idx_is(self@, id, k as int);
                }
                return k;
            }
            proof {
                assert(self@[k as int].id != id);
            }
            k = k + 1;
        }
        proof {
            lemma_find_idx_is(self@, id, n as int);
        }
        k
    }

    /// Index of the first stored record created no later than `c`; the
    /// length when every record is newer.
    fn insert_position(&self, c: i64) -> (k: usize)
        ensures
            k as int == insert_pos(self@, c),
            k <= self.tasks@.len(),
            self@.len() == self.tasks@.len(),
    {
        let n = self.tasks.len();
        let mut k: usize = 0;
        while k < n
            invariant
                n == self.tasks.len(),
                k <= n,
                self@.len() == self.tasks@.len(),
                forall|j: int| 0 <= j < k ==> self@[j].created_at > c,
            decreases n - k,
        {
            if self.tasks[k].created_at <= c {
                proof {
                    assert(self@[k as int].created_at <= c);
                    lemma_insert_pos_is(self@, c, k as int);
                }
                return k;
            }
            proof {
                assert(self@[k as int].created_at > c);
            }
            k = k + 1;
        }
        proof {
            lemma_insert_pos_is(self@, c, n as int);
        }
        k
    }

    /// A copy of every record, sorted by creation time, newest first.
    pub fn get_all(&self) -> (r: Vec<Todo>)
        ensures
            r@.map_values(|t: Todo| t@) == self@,
    {
        let n = self.tasks.len();
        let mut r: Vec<Todo> = Vec::new();
        let mut k: usize = 0;
        while k < n
            invariant
                n == self.tasks.len(),
                k <= n,
                self@.len() == n,
                r@.len() == k,
                forall|j: int| 0 <= j < k ==> r@[j]@ == self@[j],
            decreases n - k,
        {
            r.push(self.tasks[k].clone());
            k = k + 1;
        }
        proof {
            assert(r@.map_values(|t: Todo| t@) =~= self@);
        }
        r
    }

    /// A copy of the record carrying `id`, or nothing when there is none.
    pub fn get_by_id(&self, id: u128) -> (r: Option<Todo>)
        ensures
            opt_view(r) == find_task(self@, id),
    {
        let k = self.find_index(id);
        if k < self.tasks.len() {
            let t = self.tasks[k].clone();
            proof {
                assert(t@ == self@[k as int]);
            }
            Some(t)
        } else {
            None
        }
    }

    /// Create a record from an already-chosen identifier and clock
    /// reading; any old record under the same identifier gives way. The
    /// returned copy is the record as stored.
    pub fn create_at(&mut self, id: u128, now: i64, request: CreateTodoRequest) -> (todo: Todo)
        requires
            old(self).wf(),
        ensures
            final(self).wf(),
            todo@ == (TodoView {
                id,
                title: request.title@,
                description: request.description.deep_view(),
                completed: false,
                created_at: now,
                updated_at: now,
            }),
            final(self)@ == spec_create(old(self)@, todo@),
    {
        let todo = Todo::new_at(id, now, request.title, request.description);
        let ret = todo.clone();
        self.delete(id);
        let ghost mid = self@;
        let ghost mid_tasks = self.tasks@;
        let k = self.insert_position(now);
        self.tasks.insert(k, todo);
        proof {
            mid.insert_ensures(k as int, ret@);
            mid_tasks.insert_ensures(k as int, ret);
            assert(self@ =~= mid.insert(k as int, ret@));
            lemma_delete_inv(old(self)@, id);
            lemma_insert_inv(mid, ret@);
        }
        ret
    }

    /// Create a record under a fresh random identifier, stamped with the
    /// current clock reading. The returned copy is the record as stored.
    pub fn create(&mut self, request: CreateTodoRequest) -> (todo: Todo)
        requires
            old(self).wf(),
        ensures
            final(self).wf(),
            todo@.title == request.title@,
            todo@.description == request.description.deep_view(),
            !todo@.completed,
            todo@.created_at == todo@.updated_at,
            final(self)@ == spec_create(old(self)@, todo@),
    {
        let id = fresh_id();
        let now = now_micros();
        self.create_at(id, now, request)
    }

    /// Rewrite title and description of the record carrying `id` at clock
    /// reading `now`; nothing is touched when the identifier is unknown.
    pub fn update_at(&mut self, id: u128, now: i64, request: UpdateTodoRequest) -> (r: Option<
        Todo,
    >)
        requires
            old(self).wf(),
        ensures
            final(self).wf(),
            update_outcome(
                old(self)@,
                final(self)@,
                r,
                id,
                request.title@,
                request.description.deep_view(),
                now,
            ),
    {
        let k = self.find_index(id);
        if k < self.tasks.len() {
            let mut t = self.tasks[k].clone();
            proof {
                assert(t@ == self@[k as int]);
            }
            t.update_at(now, request.title, request.description);
            let ret = t.clone();
            let ghost tv = t@;
            self.tasks.set(k, t);
            proof {
                lemma_find_idx_basics(old(self)@, id);
                assert(self@ =~= old(self)@.update(k as int, tv));
                lemma_replace_inv(old(self)@, tv);
            }
            Some(ret)
        } else {
            None
        }
    }

    /// Rewrite title and description of the record carrying `id`,
    /// stamping the current clock reading; nothing is touched when the
    /// identifier is unknown.
    pub fn update(&mut self, id: u128, request: UpdateTodoRequest) -> (r: Option<Todo>)
        requires
            old(self).wf(),
        ensures
            final(self).wf(),
            r.is_some() == contains_id(old(self)@, id),
            exists|now: i64|
                update_outcome(
                    old(self)@,
                    final(self)@,
                    r,
                    id,
                    request.title@,
                    request.description.deep_view(),
                    now,
                ),
    {
        let now = now_micros();
        let r = self.update_at(id, now, request);
        proof {
            lemma_find_idx_basics(old(self)@, id);
        }
        r
    }

    /// Flip the completion flag of the record carrying `id` at clock
    /// reading `now`; nothing is touched when the identifier is unknown.
    pub fn toggle_completed_at(&mut self, id: u128, now: i64) -> (r: Option<Todo>)
        requires
            old(self).wf(),
        ensures
            final(self).wf(),
            toggle_outcome(old(self)@, final(self)@, r, id, now),
    {
        let k = self.find_index(id);
        if k < self.tasks.len() {
            let mut t = self.tasks[k].clone();
            proof {
                assert(t@ == self@[k as int]);
            }
            t.toggle_completed_at(now);
            let ret = t.clone();
            let ghost tv = t@;
            self.tasks.set(k, t);
            proof {
                lemma_find_idx_basics(old(self)@, id);
                assert(self@ =~= old(self)@.update(k as int, tv));
                lemma_replace_inv(old(self)@, tv);
            }
            Some(ret)
        } else {
            None
        }
    }

    /// Flip the completion flag of the record carrying `id`, stamping the
    /// current clock reading; nothing is touched when the identifier is
    /// unknown.
    pub fn toggle_completed(&mut self, id: u128) -> (r: Option<Todo>)
        requires
            old(self).wf(),
        ensures
            final(self).wf(),
            r.is_some() == contains_id(old(self)@, id),
            exists|now: i64| toggle_outcome(old(self)@, final(self)@, r, id, now),
    {
        let now = now_micros();
        let r = self.toggle_completed_at(id, now);
        proof {
            lemma_find_idx_basics(old(self)@, id);
        }
        r
    }

    /// Remove the record carrying `id`; whether a removal occurred.
    pub fn delete(&mut self, id: u128) -> (r: bool)
        requires
            old(self).wf(),
        ensures
            final(self).wf(),
            r == contains_id(old(self)@, id),
            final(self)@ == spec_delete(old(self)@, id),
    {
        let k = self.find_index(id);
        if k < self.tasks.len() {
            self.tasks.remove(k);
            proof {
                old(self)@.remove_ensures(k as int);
                old(self).tasks@.remove_ensures(k as int);
                assert(self@ =~= old(self)@.remove(k as int));
                lemma_delete_inv(old(self)@, id);
            }
            true
        } else {
            proof {
                lemma_find_idx_basics(old(self)@, id);
            }
            false
        }
    }
}

} // verus!
