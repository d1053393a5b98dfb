use todo_api::{
    CreateTodo, RepositoryError, Todo, TodoRepository, TodoRepositoryForMemory, UpdateTodo,
};

fn create(repo: &mut TodoRepositoryForMemory, text: &str) -> Todo {
    repo.create(CreateTodo { text: text.to_string() })
}

#[test]
fn todo_new_is_not_completed() {
    let t = Todo::new(7, "read".to_string());
    assert_eq!(t, Todo { id: 7, text: "read".to_string(), completed: false });
}

#[test]
fn new_repository_is_empty() {
    let repo = TodoRepositoryForMemory::new();
    assert!(repo.all().is_empty());
    assert_eq!(repo.find(1), None);
    assert!(repo.can_create());
}

#[test]
fn create_buy_milk_gets_first_id() {
    let mut repo = TodoRepositoryForMemory::new();
    let t = create(&mut repo, "buy milk");
    assert_eq!(t, Todo { id: 1, text: "buy milk".to_string(), completed: false });
}

#[test]
fn create_ids_strictly_increase() {
    let mut repo = TodoRepositoryForMemory::new();
    let ids: Vec<i32> = ["a", "b", "c", "d"].iter().map(|s| create(&mut repo, s).id).collect();
    assert_eq!(ids, vec![1, 2, 3, 4]);
}

#[test]
fn ids_are_not_reused_after_delete() {
    let mut repo = TodoRepositoryForMemory::new();
    create(&mut repo, "a");
    let b = create(&mut repo, "b");
    assert_eq!(repo.delete(b.id), Ok(()));
    let c = create(&mut repo, "c");
    assert_eq!(c.id, 3);
}

#[test]
fn find_after_create_returns_created() {
    let mut repo = TodoRepositoryForMemory::new();
    create(&mut repo, "x");
    let t = create(&mut repo, "y");
    assert_eq!(repo.find(t.id), Some(t));
    assert_eq!(repo.find(3), None);
}

#[test]
fn update_text_keeps_completed() {
    let mut repo = TodoRepositoryForMemory::new();
    let t = create(&mut repo, "old");
    repo.update(t.id, UpdateTodo { text: None, completed: Some(true) }).unwrap();
    let u = repo.update(t.id, UpdateTodo { text: Some("new".to_string()), completed: None });
    let expected = Todo { id: 1, text: "new".to_string(), completed: true };
    assert_eq!(u, Ok(expected.clone()));
    assert_eq!(repo.find(1), Some(expected));
}

#[test]
fn update_completed_keeps_text() {
    let mut repo = TodoRepositoryForMemory::new();
    create(&mut repo, "keep");
    let u = repo.update(1, UpdateTodo { text: None, completed: Some(true) });
    assert_eq!(u, Ok(Todo { id: 1, text: "keep".to_string(), completed: true }));
}

#[test]
fn empty_update_returns_current_record() {
    let mut repo = TodoRepositoryForMemory::new();
    let t = create(&mut repo, "same");
    let u = repo.update(t.id, UpdateTodo { text: None, completed: None });
    assert_eq!(u, Ok(t.clone()));
    assert_eq!(repo.all(), vec![t]);
}

#[test]
fn update_missing_is_not_found() {
    let mut repo = TodoRepositoryForMemory::new();
    create(&mut repo, "a");
    let u = repo.update(5, UpdateTodo { text: Some("b".to_string()), completed: None });
    assert_eq!(u, Err(RepositoryError::NotFound(5)));
    assert_eq!(repo.find(1).unwrap().text, "a");
}

#[test]
fn delete_then_find_is_absent() {
    let mut repo = TodoRepositoryForMemory::new();
    create(&mut repo, "a");
    create(&mut repo, "b");
    assert_eq!(repo.delete(1), Ok(()));
    assert_eq!(repo.find(1), None);
    assert_eq!(repo.all(), vec![Todo { id: 2, text: "b".to_string(), completed: false }]);
}

#[test]
fn delete_missing_is_not_found() {
    let mut repo = TodoRepositoryForMemory::new();
    assert_eq!(repo.delete(1), Err(RepositoryError::NotFound(1)));
    create(&mut repo, "a");
    assert_eq!(repo.delete(1), Ok(()));
    assert_eq!(repo.delete(1), Err(RepositoryError::NotFound(1)));
}

#[test]
fn all_after_creates_returns_each() {
    let mut repo = TodoRepositoryForMemory::new();
    let texts = ["one", "two", "three"];
    for t in texts.iter() {
        create(&mut repo, t);
    }
    repo.update(2, UpdateTodo { text: None, completed: Some(true) }).unwrap();
    let all = repo.all();
    assert_eq!(all.len(), 3);
    assert_eq!(all[0], Todo { id: 1, text: "one".to_string(), completed: false });
    assert_eq!(all[1], Todo { id: 2, text: "two".to_string(), completed: true });
    assert_eq!(all[2], Todo { id: 3, text: "three".to_string(), completed: false });
}
