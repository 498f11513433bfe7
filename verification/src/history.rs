//! The history of a user: the tasks of the trailing window, a bucket for
//! each calendar day on which any was created.

use crate::models::{
    history_views, responses_of, HistoryDay, HistoryDayView, Todo, TodoResponse, TodoView,
};
use crate::time::{day_of, Timestamp, MAX_DAY};
use crate::todos::{earlier, in_scope, is_listing, occurs, todo_views, TodoStore};
use vstd::prelude::*;

verus! {

/// The number of days, before today, that a history reaches back by default.
pub const HISTORY_WINDOW_DAYS: u32 = 365;

/// The text `YYYY-MM-DD` of the day `day`, counted from 1970-01-01 as day
/// 0, as `chrono::NaiveDate` prints it.
pub uninterp spec fn date_text(day: int) -> Seq<char>;

/// Calls `chrono::NaiveDate::from_epoch_days` and prints the date.
/// Trusted: the text is the one named by [`date_text`], and every day from
/// 1970-01-01 to 9999-12-31 has one.
#[verifier::external_body]
fn calendar_label(day: i32) -> (label: Option<String>)
    ensures
        label matches Some(text) ==> text@ == date_text(day as int),
        0 <= day <= MAX_DAY ==> label is Some,
{
    match chrono::NaiveDate::from_epoch_days(day) {
        Some(date) => Some(date.to_string()),
        None => None,
    }
}

/// The tasks of one user created on one day.
#[derive(Debug)]
pub struct DayBucket {
    /// The day, counted from 1970-01-01 as day 0.
    pub day: i64,
    /// How many tasks were created on the day.
    pub count: i64,
    /// How many of them are completed.
    pub completed_count: i64,
    /// The tasks themselves, from the earliest to the latest.
    pub tasks: Vec<Todo>,
}

/// What a [`DayBucket`] is, mathematically.
pub ghost struct DayBucketView {
    pub day: int,
    pub count: int,
    pub completed_count: int,
    pub tasks: Seq<TodoView>,
}

impl View for DayBucket {
    type V = DayBucketView;

    open spec fn view(&self) -> DayBucketView {
        DayBucketView {
            day: self.day as int,
            count: self.count as int,
            completed_count: self.completed_count as int,
            tasks: todo_views(self.tasks@),
        }
    }
}

/// The views of a sequence of buckets.
pub open spec fn bucket_views(buckets: Seq<DayBucket>) -> Seq<DayBucketView> {
    Seq::new(buckets.len(), |i: int| buckets[i]@)
}

/// How many of `tasks` are completed.
pub open spec fn completed_in(tasks: Seq<TodoView>) -> int
    decreases tasks.len(),
{
    if tasks.len() == 0 {
        0
    } else {
        completed_in(tasks.drop_last()) + if tasks.last().completed {
            1int
        } else {
            0int
        }
    }
}

/// The first day of a window that reaches `window_days` days back from
/// the day of `now`.
pub open spec fn window_start(now: int, window_days: int) -> int {
    day_of(now) - window_days
}

/// Whether `bucket` is the bucket of its day for `owner`: the day is in
/// the window, the tasks are those that `owner` created on it, there is at
/// least one, and the counts are theirs.
pub open spec fn is_bucket(
    todos: Seq<TodoView>,
    owner: int,
    first_day: int,
    bucket: DayBucketView,
) -> bool {
    &&& bucket.day >= first_day
    &&& bucket.tasks.len() > 0
    &&& is_listing(todos, owner, Some(bucket.day), bucket.tasks)
    &&& bucket.count == bucket.tasks.len()
    &&& bucket.completed_count == completed_in(bucket.tasks)
}

/// Whether some bucket is for the day `day`.
pub open spec fn has_day(buckets: Seq<DayBucketView>, day: int) -> bool {
    exists|b: int| 0 <= b < buckets.len() && (#[trigger] buckets[b]).day == day
}

/// Whether `buckets` is the history of `owner` from `first_day` on: one
/// bucket for each day of the window on which `owner` created a task, in
/// the order of the days.
pub open spec fn is_history(
    todos: Seq<TodoView>,
    owner: int,
    first_day: int,
    buckets: Seq<DayBucketView>,
) -> bool {
    &&& forall|a: int, b: int|
        0 <= a < b < buckets.len() ==> (#[trigger] buckets[a]).day < (#[trigger] buckets[b]).day
    &&& forall|b: int|
        0 <= b < buckets.len() ==> is_bucket(todos, owner, first_day, #[trigger] buckets[b])
    &&& forall|m: int|
        0 <= m < todos.len() && (#[trigger] todos[m]).user_id == owner && day_of(
            todos[m].created_at,
        ) >= first_day ==> has_day(buckets, day_of(todos[m].created_at))
}

/// A bucket as it is sent out: the day as text, the tasks without their owner.
pub open spec fn labeled(bucket: DayBucketView) -> HistoryDayView {
    HistoryDayView {
        date: date_text(bucket.day),
        count: bucket.count,
        completed_count: bucket.completed_count,
        tasks: responses_of(bucket.tasks),
    }
}

/// A history as it is sent out.
pub open spec fn labeled_history(buckets: Seq<DayBucketView>) -> Seq<HistoryDayView> {
    Seq::new(buckets.len(), |i: int| labeled(buckets[i]))
}

/// A later instant falls on the same day or a later one.
pub proof fn lemma_day_monotone(a: int, b: int)
    requires
        a <= b,
    ensures
        day_of(a) <= day_of(b),
{
    vstd::arithmetic::div_mod::lemma_div_is_ordered(a, b, crate::time::MILLIS_PER_DAY as int);
}

/// The days of a sequence of buckets.
pub open spec fn days_of(buckets: Seq<DayBucketView>) -> Seq<int> {
    Seq::new(buckets.len(), |i: int| buckets[i].day)
}

/// A store has one history only: two histories of the same owner over the
/// same window are equal.
pub proof fn lemma_history_unique(
    todos: Seq<TodoView>,
    owner: int,
    first_day: int,
    a: Seq<DayBucketView>,
    b: Seq<DayBucketView>,
)
    requires
        is_history(todos, owner, first_day, a),
        is_history(todos, owner, first_day, b),
    ensures
        a == b,
{
    let before = |x: int, y: int| x < y;
    assert forall|i: int| 0 <= i < days_of(a).len() implies days_of(b).contains(
        #[trigger] days_of(a)[i],
    ) by {
        lemma_day_in_both(todos, owner, first_day, a, b, i);
    }
    assert forall|i: int| 0 <= i < days_of(b).len() implies days_of(a).contains(
        #[trigger] days_of(b)[i],
    ) by {
        lemma_day_in_both(todos, owner, first_day, b, a, i);
    }
    assert forall|i: int, j: int| 0 <= i < j < days_of(a).len() implies before(
        #[trigger] days_of(a)[i],
        #[trigger] days_of(a)[j],
    ) by {
        assert(a[i].day < a[j].day);
    }
    assert forall|i: int, j: int| 0 <= i < j < days_of(b).len() implies before(
        #[trigger] days_of(b)[i],
        #[trigger] days_of(b)[j],
    ) by {
        assert(b[i].day < b[j].day);
    }
    crate::order::lemma_ascending_unique(days_of(a), days_of(b), before);
    assert(a.len() == days_of(a).len());
    assert(b.len() == days_of(b).len());
    assert forall|i: int| 0 <= i < a.len() implies a[i] == b[i] by {
        assert(days_of(a)[i] == days_of(b)[i]);
        assert(is_bucket(todos, owner, first_day, a[i]));
        assert(is_bucket(todos, owner, first_day, b[i]));
        crate::todos::lemma_listing_unique(todos, owner, Some(a[i].day), a[i].tasks, b[i].tasks);
    }
    assert(a =~= b);
}

/// The day of a bucket of one history is the day of a bucket of another.
proof fn lemma_day_in_both(
    todos: Seq<TodoView>,
    owner: int,
    first_day: int,
    a: Seq<DayBucketView>,
    b: Seq<DayBucketView>,
    i: int,
)
    requires
        is_history(todos, owner, first_day, a),
        is_history(todos, owner, first_day, b),
        0 <= i < a.len(),
    ensures
        days_of(b).contains(days_of(a)[i]),
{
    assert(is_bucket(todos, owner, first_day, a[i]));
    let task = a[i].tasks[0];
    assert(occurs(todos, todos.len() as int, task));
    let m = choose|m: int| 0 <= m < todos.len() && #[trigger] todos[m] == task;
    assert(in_scope(todos[m], owner, Some(a[i].day)));
    assert(has_day(b, day_of(todos[m].created_at)));
    let k = choose|k: int| 0 <= k < b.len() && (#[trigger] b[k]).day == a[i].day;
    assert(days_of(b)[k] == days_of(a)[i]);
}

/// The outward shapes of `todos`, in the same order.
pub fn to_responses(todos: &Vec<Todo>) -> (responses: Vec<TodoResponse>)
    ensures
        crate::models::response_views(responses@) == responses_of(todo_views(todos@)),
{
    let mut responses: Vec<TodoResponse> = Vec::new();
    let mut i: usize = 0;
    while i < todos.len()
        invariant
            i <= todos.len(),
            responses@.len() == i,
            forall|j: int|
                0 <= j < i ==> (#[trigger] responses@[j])@ == crate::models::response_of(
                    todos@[j]@,
                ),
        decreases todos.len() - i,
    {
        let response: TodoResponse = todos[i].clone().into();
        responses.push(response);
        i += 1;
    }
    assert(crate::models::response_views(responses@) =~= responses_of(todo_views(todos@)));
    responses
}

/// Sends a bucket out: names its day and drops the owner from its tasks.
fn label_bucket(bucket: &DayBucket) -> (day: HistoryDay)
    requires
        0 <= bucket.day <= MAX_DAY,
    ensures
        day@ == labeled(bucket@),
{
    let date = match calendar_label(bucket.day as i32) {
        Some(text) => text,
        None => String::new(),
    };
    HistoryDay {
        date,
        count: bucket.count,
        completed_count: bucket.completed_count,
        tasks: to_responses(&bucket.tasks),
    }
}

impl TodoStore {
    /// The history of `owner_id` as it is sent out: the buckets of
    /// [`TodoStore::day_buckets`], each with its day as text.
    pub fn history_for_owner(&self, owner_id: i64, window_days: u32, now: Timestamp) -> (history:
        Vec<HistoryDay>)
        requires
            self.wf(),
        ensures
            exists|buckets: Seq<DayBucketView>|
                {
                    &&& is_history(
                        self@,
                        owner_id as int,
                        window_start(now@, window_days as int),
                        buckets,
                    )
                    &&& history_views(history@) == labeled_history(buckets)
                },
    {
        let buckets = self.day_buckets(owner_id, window_days, now);
        let mut history: Vec<HistoryDay> = Vec::new();
        let mut i: usize = 0;
        while i < buckets.len()
            invariant
                i <= buckets.len(),
                history@.len() == i,
                forall|b: int|
                    0 <= b < buckets@.len() ==> 0 <= (#[trigger] buckets@[b]).day <= MAX_DAY,
                forall|j: int| 0 <= j < i ==> (#[trigger] history@[j])@ == labeled(buckets@[j]@),
            decreases buckets.len() - i,
        {
            history.push(label_bucket(&buckets[i]));
            i += 1;
        }
        assert(history_views(history@) =~= labeled_history(bucket_views(buckets@)));
        history
    }


    /// The history of `owner_id` over the window that reaches
    /// `window_days` days back from the day of `now`. The window has no
    /// end: a task created after `now` is part of it.
    pub fn day_buckets(&self, owner_id: i64, window_days: u32, now: Timestamp) -> (buckets: Vec<
        DayBucket,
    >)
        requires
            self.wf(),
        ensures
            is_history(
                self@,
                owner_id as int,
                window_start(now@, window_days as int),
                bucket_views(buckets@),
            ),
            forall|b: int| 0 <= b < buckets@.len() ==> 0 <= (#[trigger] buckets@[b]).day <= MAX_DAY,
    {
        let sorted = self.sorted_for_owner(owner_id);
        let first_day: i64 = now.epoch_day() - window_days as i64;
        let ghost owner = owner_id as int;
        let ghost first = window_start(now@, window_days as int);
        let ghost all = self@;
        let ghost s = todo_views(sorted@);
        proof {
            crate::todos::lemma_len_bounded(all);
        }
        let mut buckets: Vec<DayBucket> = Vec::new();
        let mut i: usize = 0;
        while i < sorted.len()
            invariant
                i <= sorted.len(),
                sorted@.len() <= i64::MAX,
                s == todo_views(sorted@),
                first == first_day,
                is_listing(all, owner, None, s),
                forall|b: int|
                    0 <= b < buckets@.len() ==> 0 <= (#[trigger] buckets@[b]).day <= MAX_DAY,
                forall|b: int|
                    0 <= b < buckets@.len() ==> is_bucket(
                        all,
                        owner,
                        first,
                        #[trigger] bucket_views(buckets@)[b],
                    ),
                forall|a: int, b: int|
                    0 <= a < b < buckets@.len() ==> (#[trigger] bucket_views(buckets@)[a]).day < (
                    #[trigger] bucket_views(buckets@)[b]).day,
                forall|b: int, m: int|
                    0 <= b < buckets@.len() && i <= m < s.len() ==> (#[trigger] bucket_views(
                        buckets@,
                    )[b]).day < day_of((#[trigger] s[m]).created_at),
                forall|m: int|
                    0 <= m < i && day_of((#[trigger] s[m]).created_at) >= first ==> has_day(
                        bucket_views(buckets@),
                        day_of(s[m].created_at),
                    ),
            decreases sorted.len() - i,
        {
            let ghost old_buckets = bucket_views(buckets@);
            assert(s[i as int] == sorted@[i as int]@);
            let day = sorted[i].created_at.epoch_day();
            if day >= first_day {
                let mut tasks: Vec<Todo> = Vec::new();
                let mut completed: i64 = 0;
                let mut j: usize = i;
                while j < sorted.len() && sorted[j].created_at.epoch_day() == day
                    invariant
                        i <= j <= sorted.len(),
                        sorted@.len() <= i64::MAX,
                        s == todo_views(sorted@),
                        todo_views(tasks@) == s.subrange(i as int, j as int),
                        forall|m: int| i <= m < j ==> day_of((#[trigger] s[m]).created_at) == day,
                        completed == completed_in(s.subrange(i as int, j as int)),
                        0 <= completed <= j - i,
                    decreases sorted.len() - j,
                {
                    assert(s[j as int] == sorted@[j as int]@);
                    let ghost run = s.subrange(i as int, j as int);
                    let ghost longer = s.subrange(i as int, j + 1);
                    assert(longer.drop_last() =~= run);
                    assert(longer.last() == s[j as int]);
                    if sorted[j].completed {
                        completed = completed + 1;
                    }
                    tasks.push(sorted[j].clone());
                    assert(todo_views(tasks@) =~= longer);
                    j += 1;
                }
                let ghost run = s.subrange(i as int, j as int);
                assert(j > i);
                assert(j < s.len() ==> s[j as int] == sorted@[j as int]@);
                let bucket = DayBucket {
                    day,
                    count: tasks.len() as i64,
                    completed_count: completed,
                    tasks,
                };
                proof {
                    let d = day as int;
                    // tasks before the run fall on earlier days
                    assert forall|q: int| 0 <= q < i implies day_of((#[trigger] s[q]).created_at)
                        != d by {
                        if day_of(s[q].created_at) == d {
                            assert(has_day(old_buckets, d));
                            let b = choose|b: int|
                                0 <= b < old_buckets.len() && (#[trigger] old_buckets[b]).day == d;
                            assert(old_buckets[b].day < day_of(s[i as int].created_at));
                        }
                    }
                    // tasks after the run fall on later days
                    assert forall|q: int| j <= q < s.len() implies day_of(
                        (#[trigger] s[q]).created_at,
                    ) > d by {
                        assert(earlier(s[i as int], s[j as int]));
                        lemma_day_monotone(s[i as int].created_at, s[j as int].created_at);
                        if q > j {
                            assert(earlier(s[j as int], s[q]));
                            lemma_day_monotone(s[j as int].created_at, s[q].created_at);
                        }
                    }
                    assert(bucket@.tasks == run);
                    assert forall|x: int, y: int| 0 <= x < y < run.len() implies earlier(
                        #[trigger] run[x],
                        #[trigger] run[y],
                    ) by {
                        assert(earlier(s[i + x], s[i + y]));
                    }
                    assert forall|x: int| 0 <= x < run.len() implies occurs(
                        all,
                        all.len() as int,
                        #[trigger] run[x],
                    ) && in_scope(run[x], owner, Some(d)) by {
                        assert(run[x] == s[i + x]);
                    }
                    assert forall|m: int|
                        0 <= m < all.len() && in_scope(
                            #[trigger] all[m],
                            owner,
                            Some(d),
                        ) implies occurs(run, run.len() as int, all[m]) by {
                        assert(in_scope(all[m], owner, None));
                        assert(occurs(s, s.len() as int, all[m]));
                        let q = choose|q: int| 0 <= q < s.len() && #[trigger] s[q] == all[m];
                        assert(i <= q < j);
                        assert(run[q - i] == all[m]);
                    }
                    assert(is_listing(all, owner, Some(d), run));
                    assert(is_bucket(all, owner, first, bucket@));
                }
                let ghost added = bucket@;
                buckets.push(bucket);
                let ghost new_buckets = bucket_views(buckets@);
                assert(new_buckets =~= old_buckets.push(added));
                proof {
                    assert forall|b: int| 0 <= b < new_buckets.len() implies is_bucket(
                        all,
                        owner,
                        first,
                        #[trigger] new_buckets[b],
                    ) by {
                        if b < old_buckets.len() {
                            assert(new_buckets[b] == old_buckets[b]);
                        }
                    }
                    assert forall|a: int, b: int| 0 <= a < b < new_buckets.len() implies (
                    #[trigger] new_buckets[a]).day < (#[trigger] new_buckets[b]).day by {
                        assert(new_buckets[a] == old_buckets[a]);
                        if b < old_buckets.len() {
                            assert(new_buckets[b] == old_buckets[b]);
                        } else {
                            assert(old_buckets[a].day < day_of(s[i as int].created_at));
                        }
                    }
                    assert forall|b: int, m: int|
                        0 <= b < new_buckets.len() && j <= m < s.len() implies (
                    #[trigger] new_buckets[b]).day < day_of((#[trigger] s[m]).created_at) by {
                        if b < old_buckets.len() {
                            assert(new_buckets[b] == old_buckets[b]);
                        }
                    }
                    assert forall|m: int|
                        0 <= m < j && day_of((#[trigger] s[m]).created_at) >= first implies has_day(
                        new_buckets,
                        day_of(s[m].created_at),
                    ) by {
                        if m < i {
                            assert(has_day(old_buckets, day_of(s[m].created_at)));
                            let b = choose|b: int|
                                0 <= b < old_buckets.len() && (#[trigger] old_buckets[b]).day
                                    == day_of(s[m].created_at);
                            assert(new_buckets[b] == old_buckets[b]);
                        } else {
                            assert(new_buckets[old_buckets.len() as int].day == day);
                        }
                    }
                }
                i = j;
            } else {
                i += 1;
            }
        }
        proof {
            let h = bucket_views(buckets@);
            assert forall|m: int|
                0 <= m < all.len() && (#[trigger] all[m]).user_id == owner && day_of(
                    all[m].created_at,
                ) >= first implies has_day(h, day_of(all[m].created_at)) by {
                assert(in_scope(all[m], owner, None));
                assert(occurs(s, s.len() as int, all[m]));
                let q = choose|q: int| 0 <= q < s.len() && #[trigger] s[q] == all[m];
                assert(has_day(h, day_of(s[q].created_at)));
            }
        }
        buckets
    }
}

} // verus!
