//! The task store: every task of every user, in the order of their ids.

use crate::error::ApiError;
use crate::models::{clone_opt_text, opt_text, Todo, TodoPatch, TodoView, UpdateTodoRequest};
use crate::time::Timestamp;
use vstd::prelude::*;
use vstd::string::StrSliceExecFns;

verus! {

/// The views of a sequence of tasks.
pub open spec fn todo_views(todos: Seq<Todo>) -> Seq<TodoView> {
    Seq::new(todos.len(), |i: int| todos[i]@)
}

/// What holds of each task of a store: its id is positive, its title is
/// not empty, and it was not updated before it was created.
pub open spec fn todo_wf(todo: TodoView) -> bool {
    &&& 1 <= todo.id <= i64::MAX
    &&& todo.title.len() > 0
    &&& todo.created_at <= todo.updated_at
}

/// What holds of the tasks of a store: each is well formed, and ids grow
/// along the sequence.
pub open spec fn todos_wf(todos: Seq<TodoView>) -> bool {
    &&& forall|i: int| 0 <= i < todos.len() ==> todo_wf(#[trigger] todos[i])
    &&& forall|i: int, j: int|
        0 <= i < j < todos.len() ==> (#[trigger] todos[i]).id < (#[trigger] todos[j]).id
}

/// The id that the next task of a store loaded from `todos` receives.
pub open spec fn next_todo_after(todos: Seq<TodoView>) -> int {
    if todos.len() == 0 {
        1
    } else {
        todos.last().id + 1
    }
}

/// Whether the task at index `i` has this id and, where an owner is
/// given, this owner.
pub open spec fn is_at(todos: Seq<TodoView>, i: int, id: int, owner: Option<int>) -> bool {
    &&& 0 <= i < todos.len()
    &&& todos[i].id == id
    &&& owner matches Some(user_id) ==> todos[i].user_id == user_id
}

/// Whether the store holds a task with this id and, where an owner is
/// given, this owner.
pub open spec fn holds(todos: Seq<TodoView>, id: int, owner: Option<int>) -> bool {
    exists|i: int| is_at(todos, i, id, owner)
}

/// The task that a successful creation adds.
pub open spec fn created_todo(
    id: int,
    owner: int,
    title: Seq<char>,
    description: Option<Seq<char>>,
    emoji: Seq<char>,
    now: int,
) -> TodoView {
    TodoView {
        id,
        user_id: owner,
        title,
        description,
        emoji,
        completed: false,
        created_at: now,
        updated_at: now,
    }
}

/// Whether a patch may be applied: a title, where one is given, is not empty.
pub open spec fn valid_patch(patch: TodoPatch) -> bool {
    patch.title matches Some(title) ==> title.len() > 0
}

/// The time of update that a change at `now` leaves on a task created at
/// `created_at`: `now`, but never a time before the creation.
pub open spec fn bumped(created_at: int, now: int) -> int {
    if now >= created_at {
        now
    } else {
        created_at
    }
}

/// A task after a patch at time `now`. Fields that the patch leaves out
/// stay; a description, once set, can be replaced but not removed.
pub open spec fn patched(todo: TodoView, patch: TodoPatch, now: int) -> TodoView {
    TodoView {
        title: match patch.title {
            Some(title) => title,
            None => todo.title,
        },
        description: match patch.description {
            Some(description) => Some(description),
            None => todo.description,
        },
        emoji: match patch.emoji {
            Some(emoji) => emoji,
            None => todo.emoji,
        },
        completed: match patch.completed {
            Some(completed) => completed,
            None => todo.completed,
        },
        updated_at: bumped(todo.created_at, now),
        ..todo
    }
}

/// In a well-formed sequence the id at index `i` is at least `i + 1`.
pub proof fn lemma_ids_bound_at(todos: Seq<TodoView>, i: int)
    requires
        todos_wf(todos),
        0 <= i < todos.len(),
    ensures
        todos[i].id >= i + 1,
    decreases i,
{
    if i > 0 {
        lemma_ids_bound_at(todos, i - 1);
    }
}

/// A well-formed sequence holds no more tasks than there are ids.
pub proof fn lemma_len_bounded(todos: Seq<TodoView>)
    requires
        todos_wf(todos),
    ensures
        todos.len() <= i64::MAX,
{
    if todos.len() > 0 {
        lemma_ids_bound_at(todos, todos.len() - 1);
    }
}

/// The order of a listing: by time of creation, and by id among tasks
/// created at the same instant.
pub open spec fn earlier(a: TodoView, b: TodoView) -> bool {
    a.created_at < b.created_at || (a.created_at == b.created_at && a.id < b.id)
}

/// Whether a listing for `owner`, and for the day `day` where one is
/// given, includes `todo`.
pub open spec fn in_scope(todo: TodoView, owner: int, day: Option<int>) -> bool {
    &&& todo.user_id == owner
    &&& day matches Some(d) ==> crate::time::day_of(todo.created_at) == d
}

/// Whether `todo` stands among the first `k` elements of `todos`.
pub open spec fn occurs(todos: Seq<TodoView>, k: int, todo: TodoView) -> bool {
    exists|m: int| 0 <= m < k && #[trigger] todos[m] == todo
}

/// Whether `listing` lists the tasks in scope among the first `k` of
/// `todos`: each of them once, nothing else, from the earliest to the latest.
pub open spec fn is_listing_of_prefix(
    todos: Seq<TodoView>,
    k: int,
    owner: int,
    day: Option<int>,
    listing: Seq<TodoView>,
) -> bool {
    &&& forall|i: int, j: int|
        0 <= i < j < listing.len() ==> earlier(#[trigger] listing[i], #[trigger] listing[j])
    &&& forall|i: int|
        0 <= i < listing.len() ==> occurs(todos, k, #[trigger] listing[i]) && in_scope(
            listing[i],
            owner,
            day,
        )
    &&& forall|m: int|
        0 <= m < k && in_scope(#[trigger] todos[m], owner, day) ==> occurs(
            listing,
            listing.len() as int,
            todos[m],
        )
}

/// Whether `listing` lists the tasks of `owner` in `todos`, or those of
/// them created on `day` where one is given: each of them once, nothing
/// else, from the earliest to the latest.
pub open spec fn is_listing(
    todos: Seq<TodoView>,
    owner: int,
    day: Option<int>,
    listing: Seq<TodoView>,
) -> bool {
    is_listing_of_prefix(todos, todos.len() as int, owner, day, listing)
}

/// A store has one listing only: two listings of the same scope are equal.
pub proof fn lemma_listing_unique(
    todos: Seq<TodoView>,
    owner: int,
    day: Option<int>,
    a: Seq<TodoView>,
    b: Seq<TodoView>,
)
    requires
        is_listing(todos, owner, day, a),
        is_listing(todos, owner, day, b),
    ensures
        a == b,
{
    let before = |x: TodoView, y: TodoView| earlier(x, y);
    assert forall|i: int| 0 <= i < a.len() implies b.contains(#[trigger] a[i]) by {
        lemma_listed_in_both(todos, owner, day, a, b, i);
    }
    assert forall|i: int| 0 <= i < b.len() implies a.contains(#[trigger] b[i]) by {
        lemma_listed_in_both(todos, owner, day, b, a, i);
    }
    assert(crate::order::ascending(a, before));
    assert(crate::order::ascending(b, before));
    crate::order::lemma_ascending_unique(a, b, before);
}

/// What one listing holds, another listing of the same scope holds too.
proof fn lemma_listed_in_both(
    todos: Seq<TodoView>,
    owner: int,
    day: Option<int>,
    a: Seq<TodoView>,
    b: Seq<TodoView>,
    i: int,
)
    requires
        is_listing(todos, owner, day, a),
        is_listing(todos, owner, day, b),
        0 <= i < a.len(),
    ensures
        b.contains(a[i]),
{
    assert(occurs(todos, todos.len() as int, a[i]));
    let m = choose|m: int| 0 <= m < todos.len() && #[trigger] todos[m] == a[i];
    assert(in_scope(todos[m], owner, day));
    assert(occurs(b, b.len() as int, todos[m]));
    let k = choose|k: int| 0 <= k < b.len() && #[trigger] b[k] == todos[m];
    assert(b[k] == a[i]);
}

/// The laws of deletion. Where the task at index `i` has id `id` and
/// belongs to `owner`: no other user owns a task with this id, so deleting
/// it for anyone else finds nothing; and once it is removed, exactly one
/// task is gone and no task with this id is left, so a repeated deletion
/// finds nothing either.
pub proof fn lemma_delete_laws(todos: Seq<TodoView>, i: int, id: int, owner: int)
    requires
        todos_wf(todos),
        is_at(todos, i, id, Some(owner)),
    ensures
        forall|other: int| other != owner ==> !holds(todos, id, Some(other)),
        todos.remove(i).len() == todos.len() - 1,
        !holds(todos.remove(i), id, None),
        !holds(todos.remove(i), id, Some(owner)),
        todos_wf(todos.remove(i)),
{
    assert forall|other: int| other != owner implies !holds(todos, id, Some(other)) by {
        if holds(todos, id, Some(other)) {
            let j = choose|j: int| is_at(todos, j, id, Some(other));
            assert(todos[j].id == todos[i].id);
            if j < i {
                assert(todos[j].id < todos[i].id);
            } else if i < j {
                assert(todos[i].id < todos[j].id);
            }
        }
    }
    let rest = todos.remove(i);
    assert forall|j: int| 0 <= j < rest.len() implies (#[trigger] rest[j]).id != id by {
        if j < i {
            assert(rest[j] == todos[j]);
            assert(todos[j].id < todos[i].id);
        } else {
            assert(rest[j] == todos[j + 1]);
            assert(todos[i].id < todos[j + 1].id);
        }
    }
    assert(!holds(rest, id, None)) by {
        if holds(rest, id, None) {
            let j = choose|j: int| is_at(rest, j, id, None);
            assert(rest[j].id != id);
        }
    }
    assert(!holds(rest, id, Some(owner))) by {
        if holds(rest, id, Some(owner)) {
            let j = choose|j: int| is_at(rest, j, id, Some(owner));
            assert(rest[j].id != id);
        }
    }
    assert forall|a: int| 0 <= a < rest.len() implies todo_wf(#[trigger] rest[a]) by {
        if a < i {
            assert(rest[a] == todos[a]);
        } else {
            assert(rest[a] == todos[a + 1]);
        }
    }
    assert forall|a: int, b: int| 0 <= a < b < rest.len() implies (#[trigger] rest[a]).id < (
    #[trigger] rest[b]).id by {
        let from_a = if a < i {
            a
        } else {
            a + 1
        };
        let from_b = if b < i {
            b
        } else {
            b + 1
        };
        assert(rest[a] == todos[from_a]);
        assert(rest[b] == todos[from_b]);
    }
}

/// A patch changes neither the id, nor the owner, nor the time of
/// creation of a task, and leaves it well formed where the patch is valid.
pub proof fn lemma_patch_keeps_identity(todo: TodoView, patch: TodoPatch, now: int)
    requires
        todo_wf(todo),
        valid_patch(patch),
    ensures
        patched(todo, patch, now).id == todo.id,
        patched(todo, patch, now).user_id == todo.user_id,
        patched(todo, patch, now).created_at == todo.created_at,
        patched(todo, patch, now).updated_at >= todo.created_at,
        todo_wf(patched(todo, patch, now)),
{
}

/// The tasks of the service.
pub struct TodoStore {
    todos: Vec<Todo>,
    next_id: u64,
}

impl View for TodoStore {
    type V = Seq<TodoView>;

    /// The tasks, in the order of their ids.
    closed spec fn view(&self) -> Seq<TodoView> {
        todo_views(self.todos@)
    }
}

impl TodoStore {
    /// The id that the next created task receives.
    pub closed spec fn next_id(&self) -> int {
        self.next_id as int
    }

    /// The invariant of the store: its tasks are well formed, and every id
    /// in use lies below the next one to be given out.
    pub open spec fn wf(&self) -> bool {
        &&& todos_wf(self@)
        &&& 1 <= self.next_id() <= i64::MAX + 1
        &&& forall|i: int| 0 <= i < self@.len() ==> (#[trigger] self@[i]).id < self.next_id()
    }

    /// A store without tasks, whose first task will have id 1.
    pub fn new() -> (store: Self)
        ensures
            store.wf(),
            store@ == Seq::<TodoView>::empty(),
            store.next_id() == 1,
    {
        let store = TodoStore { todos: Vec::new(), next_id: 1 };
        assert(store@ =~= Seq::<TodoView>::empty());
        store
    }

    /// The store that holds exactly `todos`, if they are well formed.
    pub fn from_rows(todos: Vec<Todo>) -> (loaded: Option<Self>)
        ensures
            loaded is Some <==> todos_wf(todo_views(todos@)),
            loaded matches Some(store) ==> {
                &&& store.wf()
                &&& store@ == todo_views(todos@)
                &&& store.next_id() == next_todo_after(todo_views(todos@))
            },
    {
        let ghost rows = todo_views(todos@);
        let n = todos.len();
        let mut j: usize = 0;
        while j < n
            invariant
                j <= n,
                n == todos.len(),
                rows == todo_views(todos@),
                forall|i: int| 0 <= i < j ==> todo_wf(#[trigger] rows[i]),
                forall|a: int, b: int|
                    0 <= a < b < j ==> (#[trigger] rows[a]).id < (#[trigger] rows[b]).id,
            decreases n - j,
        {
            let todo = &todos[j];
            assert(rows[j as int] == todo@);
            if todo.id < 1 || todo.title.as_str().unicode_len() == 0 || todo.created_at.millis()
                > todo.updated_at.millis() {
                return None;
            }
            if j > 0 {
                assert(rows[j - 1] == todos@[j - 1]@);
                if todos[j - 1].id >= todo.id {
                    return None;
                }
            }
            j += 1;
        }
        let next_id: u64 = if n == 0 {
            1
        } else {
            assert(rows[n - 1] == todos@[n - 1]@);
            todos[n - 1].id as u64 + 1
        };
        Some(TodoStore { todos, next_id })
    }

    /// The number of tasks.
    pub fn len(&self) -> (n: usize)
        ensures
            n == self@.len(),
    {
        self.todos.len()
    }

    fn index_of(&self, id: i64, owner: Option<i64>) -> (found: Option<usize>)
        ensures
            match found {
                Some(i) => is_at(self@, i as int, id as int, owner_view(owner)),
                None => !holds(self@, id as int, owner_view(owner)),
            },
    {
        let mut i: usize = 0;
        while i < self.todos.len()
            invariant
                i <= self.todos.len(),
                forall|j: int| 0 <= j < i ==> !is_at(self@, j, id as int, owner_view(owner)),
            decreases self.todos.len() - i,
        {
            assert(self@[i as int] == self.todos@[i as int]@);
            let todo = &self.todos[i];
            let owned = match owner {
                Some(user_id) => todo.user_id == user_id,
                None => true,
            };
            if todo.id == id && owned {
                return Some(i);
            }
            i += 1;
        }
        None
    }

    /// The task with this id, whoever owns it.
    pub fn find(&self, id: i64) -> (found: Option<Todo>)
        ensures
            match found {
                Some(todo) => exists|i: int| is_at(self@, i, id as int, None) && self@[i] == todo@,
                None => !holds(self@, id as int, None),
            },
    {
        match self.index_of(id, None) {
            Some(i) => {
                assert(self@[i as int] == self.todos@[i as int]@);
                Some(self.todos[i].clone())
            },
            None => None,
        }
    }

    /// Adds a task for `owner_id`, not completed, created and updated at `now`.
    ///
    /// Fails with `ValidationFailed` on an empty title, else with
    /// `StorageFailure` where no id is left. Otherwise the new task takes
    /// the next id and stands last in the store.
    pub fn create(
        &mut self,
        owner_id: i64,
        title: String,
        description: Option<String>,
        emoji: String,
        now: Timestamp,
    ) -> (r: Result<Todo, ApiError>)
        requires
            old(self).wf(),
        ensures
            final(self).wf(),
            r is Err ==> final(self)@ == old(self)@ && final(self).next_id() == old(
                self,
            ).next_id(),
            if title@.len() == 0 {
                r == Err::<Todo, ApiError>(ApiError::ValidationFailed)
            } else if old(self).next_id() > i64::MAX {
                r == Err::<Todo, ApiError>(ApiError::StorageFailure)
            } else {
                &&& r matches Ok(todo)
                &&& todo@ == created_todo(
                    old(self).next_id(),
                    owner_id as int,
                    title@,
                    opt_text(description),
                    emoji@,
                    now@,
                )
                &&& final(self)@ == old(self)@.push(todo@)
                &&& final(self).next_id() == old(self).next_id() + 1
            },
    {
        if title.as_str().unicode_len() == 0 {
            return Err(ApiError::ValidationFailed);
        }
        if self.next_id > i64::MAX as u64 {
            return Err(ApiError::StorageFailure);
        }
        let ghost before = self@;
        let todo = Todo {
            id: self.next_id as i64,
            user_id: owner_id,
            title,
            description,
            emoji,
            completed: false,
            created_at: now,
            updated_at: now,
        };
        let added = todo.clone();
        self.todos.push(todo);
        self.next_id = self.next_id + 1;
        assert(self@ =~= before.push(added@));
        Ok(added)
    }

    /// Changes the task with id `todo_id`, whoever owns it, as `patch` says,
    /// and bumps its time of update to `now`.
    ///
    /// Fails with `ValidationFailed` where the patch gives an empty title,
    /// else with `NotFound` where no task has this id. No other task changes.
    pub fn update(&mut self, todo_id: i64, patch: &UpdateTodoRequest, now: Timestamp) -> (r: Result<
        Todo,
        ApiError,
    >)
        requires
            old(self).wf(),
        ensures
            final(self).wf(),
            final(self).next_id() == old(self).next_id(),
            r is Err ==> final(self)@ == old(self)@,
            if !valid_patch(patch@) {
                r == Err::<Todo, ApiError>(ApiError::ValidationFailed)
            } else if !holds(old(self)@, todo_id as int, None) {
                r == Err::<Todo, ApiError>(ApiError::NotFound)
            } else {
                &&& r matches Ok(todo)
                &&& exists|i: int|
                    {
                        &&& is_at(old(self)@, i, todo_id as int, None)
                        &&& todo@ == patched(old(self)@[i], patch@, now@)
                        &&& final(self)@ == old(self)@.update(i, todo@)
                    }
            },
    {
        let new_title: Option<String> = match &patch.title {
            Some(title) => {
                if title.as_str().unicode_len() == 0 {
                    return Err(ApiError::ValidationFailed);
                }
                Some(title.clone())
            },
            None => None,
        };
        match self.index_of(todo_id, None) {
            None => Err(ApiError::NotFound),
            Some(i) => {
                let ghost before = self@;
                assert(before[i as int] == self.todos@[i as int]@);
                let current = &self.todos[i];
                let updated_at = if now.millis() >= current.created_at.millis() {
                    now
                } else {
                    current.created_at
                };
                let todo = Todo {
                    id: current.id,
                    user_id: current.user_id,
                    title: match new_title {
                        Some(title) => title,
                        None => current.title.clone(),
                    },
                    description: match &patch.description {
                        Some(description) => Some(description.clone()),
                        None => clone_opt_text(&current.description),
                    },
                    emoji: match &patch.emoji {
                        Some(emoji) => emoji.clone(),
                        None => current.emoji.clone(),
                    },
                    completed: match patch.completed {
                        Some(completed) => completed,
                        None => current.completed,
                    },
                    created_at: current.created_at,
                    updated_at,
                };
                let changed = todo.clone();
                assert(changed@ == patched(before[i as int], patch@, now@));
                self.todos.set(i, todo);
                assert(self@ =~= before.update(i as int, changed@));
                assert(is_at(before, i as int, todo_id as int, None));
                Ok(changed)
            },
        }
    }

    /// The tasks of `owner_id`, from the earliest to the latest.
    pub fn sorted_for_owner(&self, owner_id: i64) -> (listing: Vec<Todo>)
        requires
            self.wf(),
        ensures
            is_listing(self@, owner_id as int, None, todo_views(listing@)),
            listing@.len() <= self@.len(),
    {
        let mut listing: Vec<Todo> = Vec::new();
        let ghost owner = owner_id as int;
        let mut k: usize = 0;
        while k < self.todos.len()
            invariant
                self.wf(),
                owner == owner_id as int,
                k <= self.todos.len(),
                listing@.len() <= k,
                is_listing_of_prefix(self@, k as int, owner, None, todo_views(listing@)),
            decreases self.todos.len() - k,
        {
            let ghost before = todo_views(listing@);
            assert(self@[k as int] == self.todos@[k as int]@);
            let todo = &self.todos[k];
            if todo.user_id == owner_id {
                let mut p: usize = listing.len();
                while p > 0 && !Self::comes_before(&listing[p - 1], todo)
                    invariant
                        p <= listing@.len(),
                        before == todo_views(listing@),
                        forall|q: int|
                            p <= q < before.len() ==> !earlier(#[trigger] before[q], todo@),
                    decreases p,
                {
                    assert(before[p - 1] == listing@[p - 1]@);
                    p -= 1;
                }
                if p > 0 {
                    assert(before[p - 1] == listing@[p - 1]@);
                }
                listing.insert(p, todo.clone());
                let ghost after = todo_views(listing@);
                assert(after =~= before.insert(p as int, todo@));
                proof {
                    let t = todo@;
                    assert forall|i: int, j: int| 0 <= i < j < after.len() implies earlier(
                        #[trigger] after[i],
                        #[trigger] after[j],
                    ) by {
                        if i < p && j == p {
                            // what precedes the slot precedes its left neighbour, which precedes the task
                            if i < p - 1 {
                                assert(earlier(before[i], before[p - 1]));
                            }
                        } else if i == p {
                            let q = j - 1;
                            assert(!earlier(before[q], t));
                            assert(occurs(self@, k as int, before[q]));
                            let m = choose|m: int| 0 <= m < k && #[trigger] self@[m] == before[q];
                            assert(self@[m].id < self@[k as int].id);
                        } else if i < p && j > p {
                            assert(earlier(before[i], before[j - 1]));
                        } else if i > p {
                            assert(earlier(before[i - 1], before[j - 1]));
                        } else {
                            assert(earlier(before[i], before[j]));
                        }
                    }
                    assert forall|i: int| 0 <= i < after.len() implies occurs(
                        self@,
                        k + 1,
                        #[trigger] after[i],
                    ) && in_scope(after[i], owner, None) by {
                        if i == p {
                            assert(self@[k as int] == after[i]);
                        } else {
                            let old_i = if i < p {
                                i
                            } else {
                                i - 1
                            };
                            assert(after[i] == before[old_i]);
                            assert(occurs(self@, k as int, before[old_i]));
                            let m = choose|m: int|
                                0 <= m < k && #[trigger] self@[m] == before[old_i];
                            assert(self@[m] == after[i]);
                        }
                    }
                    assert forall|m: int|
                        0 <= m < k + 1 && in_scope(#[trigger] self@[m], owner, None) implies occurs(
                        after,
                        after.len() as int,
                        self@[m],
                    ) by {
                        if m == k {
                            assert(after[p as int] == self@[m]);
                        } else {
                            assert(occurs(before, before.len() as int, self@[m]));
                            let i = choose|i: int|
                                0 <= i < before.len() && #[trigger] before[i] == self@[m];
                            let new_i = if i < p {
                                i
                            } else {
                                i + 1
                            };
                            assert(after[new_i] == self@[m]);
                        }
                    }
                }
            } else {
                proof {
                    assert forall|i: int| 0 <= i < before.len() implies occurs(
                        self@,
                        k + 1,
                        #[trigger] before[i],
                    ) by {
                        assert(occurs(self@, k as int, before[i]));
                        let m = choose|m: int| 0 <= m < k && #[trigger] self@[m] == before[i];
                        assert(self@[m] == before[i]);
                    }
                }
            }
            k += 1;
        }
        listing
    }

    /// Whether `a` comes before `b` in a listing.
    fn comes_before(a: &Todo, b: &Todo) -> (before: bool)
        ensures
            before == earlier(a@, b@),
    {
        let created_a = a.created_at.millis();
        let created_b = b.created_at.millis();
        created_a < created_b || (created_a == created_b && a.id < b.id)
    }

    /// The tasks of `owner_id`, newest first. Among tasks created at the
    /// same instant the one with the higher id comes first.
    pub fn list_for_owner(&self, owner_id: i64) -> (listing: Vec<Todo>)
        requires
            self.wf(),
        ensures
            is_listing(self@, owner_id as int, None, todo_views(listing@).reverse()),
    {
        let sorted = self.sorted_for_owner(owner_id);
        let mut listing: Vec<Todo> = Vec::new();
        let mut i: usize = sorted.len();
        while i > 0
            invariant
                i <= sorted@.len(),
                listing@.len() == sorted@.len() - i,
                forall|j: int|
                    0 <= j < listing@.len() ==> (#[trigger] listing@[j])@ == sorted@[
                        sorted@.len() - 1 - j
                    ]@,
            decreases i,
        {
            i -= 1;
            listing.push(sorted[i].clone());
        }
        assert(todo_views(listing@).reverse() =~= todo_views(sorted@));
        listing
    }

    /// Removes the task with id `todo_id` if `owner_id` owns it.
    ///
    /// Fails with `NotFound` where there is no such task, and equally
    /// where the task is another user's. No other task changes.
    pub fn delete(&mut self, todo_id: i64, owner_id: i64) -> (r: Result<(), ApiError>)
        requires
            old(self).wf(),
        ensures
            final(self).wf(),
            final(self).next_id() == old(self).next_id(),
            if holds(old(self)@, todo_id as int, Some(owner_id as int)) {
                &&& r is Ok
                &&& exists|i: int|
                    {
                        &&& is_at(old(self)@, i, todo_id as int, Some(owner_id as int))
                        &&& final(self)@ == old(self)@.remove(i)
                    }
            } else {
                r == Err::<(), ApiError>(ApiError::NotFound) && final(self)@ == old(self)@
            },
    {
        match self.index_of(todo_id, Some(owner_id)) {
            None => Err(ApiError::NotFound),
            Some(i) => {
                let ghost before = self@;
                self.todos.remove(i);
                assert(self@ =~= before.remove(i as int));
                assert(is_at(before, i as int, todo_id as int, Some(owner_id as int)));
                Ok(())
            },
        }
    }
}

/// The view of an owner that may be absent.
pub open spec fn owner_view(owner: Option<i64>) -> Option<int> {
    match owner {
        Some(user_id) => Some(user_id as int),
        None => None,
    }
}

} // verus!
