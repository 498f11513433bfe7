use todo_backend::history::{to_responses, HISTORY_WINDOW_DAYS};
use todo_backend::models::{Todo, UpdateTodoRequest};
use todo_backend::time::Timestamp;
use todo_backend::todos::TodoStore;

const DAY: i64 = 86_400_000;
/// 2024-01-15T00:00:00Z
const JAN_15: i64 = 1_705_276_800_000;

fn ts(millis: i64) -> Timestamp {
    Timestamp::from_millis(millis).unwrap()
}

fn add(store: &mut TodoStore, owner: i64, title: &str, at: i64) -> Todo {
    store.create(owner, title.to_string(), None, "📝".to_string(), ts(at)).unwrap()
}

fn complete(store: &mut TodoStore, id: i64, at: i64) {
    let patch = UpdateTodoRequest { title: None, description: None, emoji: None, completed: Some(true) };
    store.update(id, &patch, ts(at)).unwrap();
}

#[test]
fn default_window_is_a_year() {
    assert_eq!(HISTORY_WINDOW_DAYS, 365);
}

#[test]
fn history_buckets_by_day_with_counts_in_date_order() {
    let mut store = TodoStore::new();
    // day C, outside the window: 2023-01-14
    add(&mut store, 1, "old", JAN_15 - 366 * DAY + 1_000);
    // day A: 2024-01-14, two tasks, none completed
    add(&mut store, 1, "a1", JAN_15 - DAY + 1_000);
    add(&mut store, 1, "a2", JAN_15 - DAY + 2_000);
    // day B: 2024-01-15, one task, completed
    let b = add(&mut store, 1, "b1", JAN_15 + 1_000);
    complete(&mut store, b.id, JAN_15 + 2_000);
    let history = store.history_for_owner(1, 365, ts(JAN_15 + 12 * 3_600_000));
    assert_eq!(history.len(), 2);
    assert_eq!(history[0].date, "2024-01-14");
    assert_eq!(history[0].count, 2);
    assert_eq!(history[0].completed_count, 0);
    assert_eq!(history[0].tasks.len(), 2);
    assert_eq!(history[0].tasks[0].title, "a1");
    assert_eq!(history[0].tasks[1].title, "a2");
    assert_eq!(history[1].date, "2024-01-15");
    assert_eq!(history[1].count, 1);
    assert_eq!(history[1].completed_count, 1);
    assert_eq!(history[1].tasks.len(), 1);
    assert_eq!(history[1].tasks[0].title, "b1");
    assert!(history[1].tasks[0].completed);
}

#[test]
fn day_buckets_carry_the_day_number() {
    let mut store = TodoStore::new();
    add(&mut store, 1, "a1", JAN_15 - DAY + 1_000);
    add(&mut store, 1, "b1", JAN_15 + 1_000);
    add(&mut store, 1, "a2", JAN_15 - 1);
    let buckets = store.day_buckets(1, 365, ts(JAN_15));
    assert_eq!(buckets.len(), 2);
    assert_eq!(buckets[0].day, 19_736);
    assert_eq!(buckets[0].count, 2);
    assert_eq!(buckets[0].completed_count, 0);
    assert_eq!(buckets[0].tasks[0].title, "a1");
    assert_eq!(buckets[0].tasks[1].title, "a2");
    assert_eq!(buckets[1].day, 19_737);
    assert_eq!(buckets[1].count, 1);
    assert_eq!(buckets[1].tasks[0].title, "b1");
    assert_eq!(buckets[1].tasks[0].user_id, 1);
}

#[test]
fn window_includes_its_first_day_and_nothing_before() {
    let mut store = TodoStore::new();
    // 2023-01-14T23:59:59.999Z: one millisecond before the window
    add(&mut store, 1, "before", JAN_15 - 365 * DAY - 1);
    // 2023-01-15T00:00:00Z: the first instant of the window
    add(&mut store, 1, "first", JAN_15 - 365 * DAY);
    let history = store.history_for_owner(1, 365, ts(JAN_15 + DAY - 1));
    assert_eq!(history.len(), 1);
    assert_eq!(history[0].date, "2023-01-15");
    assert_eq!(history[0].count, 1);
    assert_eq!(history[0].tasks[0].title, "first");
}

#[test]
fn window_of_zero_days_keeps_today_and_later() {
    let mut store = TodoStore::new();
    add(&mut store, 1, "yesterday", JAN_15 - 1);
    add(&mut store, 1, "today", JAN_15);
    add(&mut store, 1, "tomorrow", JAN_15 + DAY);
    let history = store.history_for_owner(1, 0, ts(JAN_15 + 5));
    assert_eq!(history.len(), 2);
    assert_eq!(history[0].date, "2024-01-15");
    assert_eq!(history[1].date, "2024-01-16");
}

#[test]
fn window_longer_than_time_itself_keeps_everything() {
    let mut store = TodoStore::new();
    add(&mut store, 1, "epoch", 0);
    add(&mut store, 1, "end", 253_402_300_799_999);
    let history = store.history_for_owner(1, u32::MAX, ts(JAN_15));
    assert_eq!(history.len(), 2);
    assert_eq!(history[0].date, "1970-01-01");
    assert_eq!(history[1].date, "9999-12-31");
    let narrow = store.history_for_owner(1, 0, ts(0));
    assert_eq!(narrow.len(), 2);
}

#[test]
fn history_names_leap_days() {
    let mut store = TodoStore::new();
    add(&mut store, 1, "leap", 1_709_164_800_000 + 5);
    let history = store.history_for_owner(1, 365, ts(1_709_164_800_000 + 10));
    assert_eq!(history.len(), 1);
    assert_eq!(history[0].date, "2024-02-29");
}

#[test]
fn history_is_per_owner() {
    let mut store = TodoStore::new();
    add(&mut store, 1, "mine", JAN_15);
    add(&mut store, 2, "theirs", JAN_15 + 1);
    add(&mut store, 2, "theirs too", JAN_15 + 2);
    let mine = store.history_for_owner(1, 365, ts(JAN_15 + 3));
    assert_eq!(mine.len(), 1);
    assert_eq!(mine[0].count, 1);
    let theirs = store.history_for_owner(2, 365, ts(JAN_15 + 3));
    assert_eq!(theirs.len(), 1);
    assert_eq!(theirs[0].count, 2);
    assert!(store.history_for_owner(3, 365, ts(JAN_15 + 3)).is_empty());
}

#[test]
fn history_of_an_empty_store_is_empty() {
    let store = TodoStore::new();
    assert!(store.history_for_owner(1, 365, ts(JAN_15)).is_empty());
    assert!(store.day_buckets(1, 365, ts(JAN_15)).is_empty());
}

#[test]
fn history_groups_by_creation_even_when_ids_disagree() {
    let row = |id: i64, title: &str, created: i64, completed: bool| Todo {
        id,
        user_id: 1,
        title: title.to_string(),
        description: None,
        emoji: "📝".to_string(),
        completed,
        created_at: ts(created),
        updated_at: ts(created),
    };
    let store = TodoStore::from_rows(vec![
        row(1, "b-late", JAN_15 + 9_000, true),
        row(2, "a", JAN_15 - DAY, true),
        row(3, "b-early", JAN_15 + 1_000, false),
        row(4, "b-mid", JAN_15 + 5_000, true),
    ])
    .unwrap();
    let history = store.history_for_owner(1, 365, ts(JAN_15));
    assert_eq!(history.len(), 2);
    assert_eq!(history[0].date, "2024-01-14");
    assert_eq!(history[0].count, 1);
    assert_eq!(history[0].completed_count, 1);
    assert_eq!(history[1].date, "2024-01-15");
    assert_eq!(history[1].count, 3);
    assert_eq!(history[1].completed_count, 2);
    let order: Vec<&str> = history[1].tasks.iter().map(|t| t.title.as_str()).collect();
    assert_eq!(order, vec!["b-early", "b-mid", "b-late"]);
}

#[test]
fn to_responses_keeps_order_and_fields() {
    let mut store = TodoStore::new();
    add(&mut store, 1, "a", 1_000);
    add(&mut store, 1, "b", 2_000);
    let responses = to_responses(&store.sorted_for_owner(1));
    assert_eq!(responses.len(), 2);
    assert_eq!(responses[0].id, 1);
    assert_eq!(responses[0].title, "a");
    assert_eq!(responses[1].id, 2);
    assert_eq!(responses[1].created_at.millis(), 2_000);
    assert!(to_responses(&Vec::new()).is_empty());
}
