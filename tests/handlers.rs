use todo_api::{create_user, root, CreateUser, User, USER_ID};

#[test]
fn should_return_hello_world() {
    let body = root();
    assert_eq!(body, "Hello, world!");
}

#[test]
fn should_return_user_data() {
    let user = create_user(CreateUser { username: "テスト 太郎".to_string() });
    assert_eq!(
        user,
        User {
            id: 100,
            username: "テスト 太郎".to_string(),
        }
    );
}

#[test]
fn create_user_alice_gets_fixed_id() {
    let user = create_user(CreateUser { username: "Alice".to_string() });
    assert_eq!(user.id, USER_ID);
    assert_eq!(user, User { id: 100, username: "Alice".to_string() });
}
