use todo_repository::repositories::{
    CreateTodo, RepositoryError, Todo, TodoDatas, TodoRepository, TodoRepositoryForMemory,
    UpdateTodo,
};

fn text_payload(text: &str) -> CreateTodo {
    CreateTodo::new(String::from(text))
}

#[test]
fn create_returns_fresh_record() {
    let repo = TodoRepositoryForMemory::new();
    let todo = repo.create(text_payload("water the plants"));
    assert_eq!(todo.completed, false);
    assert_eq!(todo.text, "water the plants");
    assert!(todo.id >= 1);
    let found = repo.find(todo.id);
    assert_eq!(found, Some(todo));
}

#[test]
fn find_on_empty_store_is_absent() {
    let repo = TodoRepositoryForMemory::new();
    assert_eq!(repo.find(1), None);
    assert!(repo.all().is_empty());
}

#[test]
fn all_after_creates_has_distinct_ids() {
    let repo = TodoRepositoryForMemory::new();
    let n = 5;
    for i in 0..n {
        let todo = repo.create(text_payload(&format!("task {}", i)));
        assert_eq!(todo.id, i + 1);
    }
    let all = repo.all();
    assert_eq!(all.len(), n as usize);
    let mut ids: Vec<i32> = all.iter().map(|t| t.id).collect();
    ids.sort();
    ids.dedup();
    assert_eq!(ids.len(), n as usize);
    for todo in &all {
        assert_eq!(repo.find(todo.id).as_ref(), Some(todo));
    }
}

#[test]
fn update_text_only_keeps_completed() {
    let repo = TodoRepositoryForMemory::new();
    let todo = repo.create(text_payload("old text"));
    repo.update(
        todo.id,
        UpdateTodo { text: None, completed: Some(true) },
    )
    .unwrap();
    let updated = repo
        .update(
            todo.id,
            UpdateTodo { text: Some(String::from("new text")), completed: None },
        )
        .unwrap();
    assert_eq!(updated.id, todo.id);
    assert_eq!(updated.text, "new text");
    assert_eq!(updated.completed, true);
    assert_eq!(repo.find(todo.id), Some(updated));
}

#[test]
fn update_completed_only_keeps_text() {
    let repo = TodoRepositoryForMemory::new();
    let todo = repo.create(text_payload("stays the same"));
    let updated = repo
        .update(
            todo.id,
            UpdateTodo { text: None, completed: Some(true) },
        )
        .unwrap();
    assert_eq!(updated.id, todo.id);
    assert_eq!(updated.text, "stays the same");
    assert_eq!(updated.completed, true);
}

#[test]
fn update_nonexistent_is_not_found_and_changes_nothing() {
    let repo = TodoRepositoryForMemory::new();
    let todo = repo.create(text_payload("untouched"));
    let err = repo
        .update(
            42,
            UpdateTodo { text: Some(String::from("ghost")), completed: Some(true) },
        )
        .unwrap_err();
    assert_eq!(err, RepositoryError::NotFound(42));
    let all = repo.all();
    assert_eq!(all.len(), 1);
    assert_eq!(all[0], todo);
}

#[test]
fn delete_nonexistent_is_not_found_and_changes_nothing() {
    let repo = TodoRepositoryForMemory::new();
    let todo = repo.create(text_payload("untouched"));
    let err = repo.delete(7).unwrap_err();
    assert_eq!(err, RepositoryError::NotFound(7));
    let all = repo.all();
    assert_eq!(all.len(), 1);
    assert_eq!(all[0], todo);
}

#[test]
fn delete_then_find_is_absent_and_all_excludes_id() {
    let repo = TodoRepositoryForMemory::new();
    let first = repo.create(text_payload("first"));
    let second = repo.create(text_payload("second"));
    repo.delete(first.id).unwrap();
    assert_eq!(repo.find(first.id), None);
    let all = repo.all();
    assert!(all.iter().all(|t| t.id != first.id));
    assert_eq!(all.len(), 1);
    assert_eq!(all[0], second);
}

#[test]
fn scenario_create_update_delete() {
    let repo = TodoRepositoryForMemory::new();
    let created = repo.create(text_payload("buy milk"));
    assert_eq!(created, Todo::new(1, String::from("buy milk")));
    assert_eq!(created.completed, false);
    let updated = repo
        .update(
            1,
            UpdateTodo { text: None, completed: Some(true) },
        )
        .unwrap();
    assert_eq!(updated.id, 1);
    assert_eq!(updated.text, "buy milk");
    assert_eq!(updated.completed, true);
    repo.delete(1).unwrap();
    assert_eq!(repo.find(1), None);
}

#[test]
fn cloned_handles_share_one_store() {
    let repo = TodoRepositoryForMemory::new();
    let other = repo.clone();
    let todo = repo.create(text_payload("shared"));
    assert_eq!(other.find(todo.id), Some(todo.clone()));
    other.delete(todo.id).unwrap();
    assert_eq!(repo.find(todo.id), None);
}

#[test]
fn create_after_delete_reuses_an_id() {
    // The id is derived from the current size, so after a delete the next
    // create reassigns an id that is already live and replaces that record.
    let repo = TodoRepositoryForMemory::new();
    repo.create(text_payload("one"));
    let second = repo.create(text_payload("two"));
    assert_eq!(second.id, 2);
    repo.delete(1).unwrap();
    let third = repo.create(text_payload("three"));
    assert_eq!(third.id, 2);
    let all = repo.all();
    assert_eq!(all.len(), 1);
    assert_eq!(all[0], third);
}

#[test]
fn sequential_store_behaves_like_the_repository() {
    let mut store = TodoDatas::new();
    assert_eq!(store.len(), 0);
    let todo = store.create(text_payload("direct"));
    assert_eq!(todo.id, 1);
    assert_eq!(store.len(), 1);
    assert_eq!(store.find(1), Some(todo));
    assert_eq!(store.all().len(), 1);
    store.delete(1).unwrap();
    assert_eq!(store.find(1), None);
    assert_eq!(store.len(), 0);
}

#[test]
fn not_found_error_carries_the_id() {
    let mut store = TodoDatas::new();
    match store.delete(9) {
        Err(RepositoryError::NotFound(id)) => assert_eq!(id, 9),
        other => panic!("expected NotFound, got {:?}", other),
    }
    match store.update(
        11,
        UpdateTodo { text: None, completed: None },
    ) {
        Err(RepositoryError::NotFound(id)) => assert_eq!(id, 11),
        other => panic!("expected NotFound, got {:?}", other),
    }
}

#[test]
fn payload_constructors_keep_their_fields() {
    let payload = CreateTodo::new(String::from("kept"));
    assert_eq!(payload.text, "kept");
    let todo = Todo::new(3, String::from("kept too"));
    assert_eq!(todo.id, 3);
    assert_eq!(todo.text, "kept too");
    assert_eq!(todo.completed, false);
}

fn create_via<R: TodoRepository>(repo: &R, text: &str) -> Todo {
    repo.create(CreateTodo::new(String::from(text)))
}

#[test]
fn any_backend_is_usable_through_the_contract() {
    let repo = TodoRepositoryForMemory::new();
    let todo = create_via(&repo, "through the trait");
    assert_eq!(todo.text, "through the trait");
    assert_eq!(repo.find(todo.id), Some(todo));
}
