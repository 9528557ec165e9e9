use tasklist::store::TaskStore;
use tasklist::task::Task;

fn hyphenated(id: u128) -> String {
    uuid::Uuid::from_u128(id).hyphenated().to_string()
}

#[test]
fn new_store_is_empty() {
    let store = TaskStore::new();
    assert_eq!(store.len(), 0);
    assert!(store.list().is_empty());
}

#[test]
fn create_appends_task() {
    let mut store = TaskStore::new();
    let id = store.create("buy milk".to_string());
    assert_eq!(store.len(), 1);
    let tasks = store.list();
    assert_eq!(tasks[0].description, "buy milk");
    assert!(!tasks[0].complete);
    assert_eq!(tasks[0].id, id);
}

#[test]
fn create_keeps_existing_tasks() {
    let mut store = TaskStore::new();
    let first = store.create("first".to_string());
    store.create("second".to_string());
    assert_eq!(store.len(), 2);
    let tasks = store.list();
    assert_eq!(tasks[0].description, "first");
    assert_eq!(tasks[0].id, first);
    assert!(!tasks[0].complete);
    assert_eq!(tasks[1].description, "second");
}

#[test]
fn create_accepts_empty_description() {
    let mut store = TaskStore::new();
    store.create(String::new());
    let tasks = store.list();
    assert_eq!(tasks[0].description, "");
}

#[test]
fn create_then_list_round_trip() {
    let mut store = TaskStore::new();
    let earlier = store.create("earlier".to_string());
    let id = store.create("walk the dog".to_string());
    let tasks = store.list();
    assert_eq!(tasks[1].description, "walk the dog");
    assert_eq!(tasks[1].id, id);
    assert_ne!(id, earlier);
}

#[test]
fn delete_invalid_id_leaves_store_unchanged() {
    let mut store = TaskStore::new();
    store.create("keep me".to_string());
    let ok = store.delete("not-a-uuid");
    assert!(!ok);
    assert_eq!(store.len(), 1);
    assert_eq!(store.list()[0].description, "keep me");
}

#[test]
fn delete_empty_string_is_invalid() {
    let mut store = TaskStore::new();
    assert!(!store.delete(""));
    assert_eq!(store.len(), 0);
}

#[test]
fn delete_absent_valid_id_reports_success() {
    let mut store = TaskStore::new();
    let id = store.create("still here".to_string());
    let absent = id.wrapping_add(1);
    let ok = store.delete(&hyphenated(absent));
    assert!(ok);
    assert_eq!(store.len(), 1);
    assert_eq!(store.list()[0].description, "still here");
}

#[test]
fn delete_removes_matching_task() {
    let mut store = TaskStore::new();
    let first = store.create("doomed".to_string());
    let second = store.create("survivor".to_string());
    let ok = store.delete(&hyphenated(first));
    assert!(ok);
    assert_eq!(store.len(), 1);
    let tasks = store.list();
    assert_eq!(tasks[0].description, "survivor");
    assert_eq!(tasks[0].id, second);
}

#[test]
fn delete_accepts_simple_uuid_form() {
    let mut store = TaskStore::new();
    let id = store.create("gone".to_string());
    let simple = uuid::Uuid::from_u128(id).simple().to_string();
    assert!(store.delete(&simple));
    assert_eq!(store.len(), 0);
}

#[test]
fn update_invalid_id_leaves_store_unchanged() {
    let mut store = TaskStore::new();
    store.create("original".to_string());
    let replacement = Task { description: "changed".to_string(), complete: true, id: 7 };
    let ok = store.update("not-a-uuid", replacement);
    assert!(!ok);
    let tasks = store.list();
    assert_eq!(tasks[0].description, "original");
    assert!(!tasks[0].complete);
}

#[test]
fn update_absent_valid_id_reports_success() {
    let mut store = TaskStore::new();
    let id = store.create("untouched".to_string());
    let absent = id.wrapping_add(1);
    let replacement = Task { description: "changed".to_string(), complete: true, id: 7 };
    let ok = store.update(&hyphenated(absent), replacement);
    assert!(ok);
    let tasks = store.list();
    assert_eq!(tasks[0].description, "untouched");
    assert!(!tasks[0].complete);
    assert_eq!(tasks[0].id, id);
}

#[test]
fn update_replaces_all_fields_including_id() {
    let mut store = TaskStore::new();
    let id = store.create("draft".to_string());
    let replacement = Task { description: "final copy".to_string(), complete: true, id: 7 };
    let ok = store.update(&hyphenated(id), replacement);
    assert!(ok);
    assert_eq!(store.len(), 1);
    let tasks = store.list();
    assert_eq!(tasks[0].description, "final copy");
    assert!(tasks[0].complete);
    assert_eq!(tasks[0].id, 7);
}

#[test]
fn update_changes_only_matching_task() {
    let mut store = TaskStore::new();
    let first = store.create("left alone".to_string());
    let second = store.create("to rewrite".to_string());
    let replacement = Task { description: "rewritten".to_string(), complete: true, id: second };
    assert!(store.update(&hyphenated(second), replacement));
    let tasks = store.list();
    assert_eq!(tasks[0].description, "left alone");
    assert_eq!(tasks[0].id, first);
    assert!(!tasks[0].complete);
    assert_eq!(tasks[1].description, "rewritten");
    assert_eq!(tasks[1].id, second);
    assert!(tasks[1].complete);
}

#[test]
fn update_may_overwrite_identity_with_existing_id() {
    // A replacement carries its own identifier, so an update may hand one
    // task another task's identity; both then share it.
    let mut store = TaskStore::new();
    let first = store.create("one".to_string());
    let second = store.create("two".to_string());
    let replacement = Task { description: "one again".to_string(), complete: false, id: second };
    assert!(store.update(&hyphenated(first), replacement));
    let tasks = store.list();
    assert_eq!(tasks[0].id, second);
    assert_eq!(tasks[1].id, second);
}

#[test]
fn serialized_creates_each_succeed_with_distinct_ids() {
    let mut store = TaskStore::new();
    let mut ids: Vec<u128> = Vec::new();
    let mut k: usize = 0;
    while k < 8 {
        ids.push(store.create(format!("task {}", k)));
        k += 1;
    }
    assert_eq!(store.len(), 8);
    let mut i: usize = 0;
    while i < ids.len() {
        let mut j: usize = i + 1;
        while j < ids.len() {
            assert_ne!(ids[i], ids[j]);
            j += 1;
        }
        i += 1;
    }
    let tasks = store.list();
    let mut n: usize = 0;
    while n < 8 {
        assert_eq!(tasks[n].description, format!("task {}", n));
        assert_eq!(tasks[n].id, ids[n]);
        assert!(!tasks[n].complete);
        n += 1;
    }
}

#[test]
fn delete_removes_every_task_bearing_the_id() {
    // An update may leave two tasks with one identifier; deleting that
    // identifier then removes both.
    let mut store = TaskStore::new();
    let first = store.create("a".to_string());
    let second = store.create("b".to_string());
    store.create("c".to_string());
    let replacement = Task { description: "a as b".to_string(), complete: false, id: second };
    assert!(store.update(&hyphenated(first), replacement));
    assert!(store.delete(&hyphenated(second)));
    assert_eq!(store.len(), 1);
    assert_eq!(store.list()[0].description, "c");
}
