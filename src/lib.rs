//! An in-memory todo store with verified create / find / all / update / delete
//! operations, plus the pure parts of the HTTP handlers that sit in front of it.
pub mod handlers;
pub mod laws;
pub mod model;
pub mod repository;
pub mod todo;

pub use handlers::{create_user, root, CreateUser, User, USER_ID};
pub use model::RepoView;
pub use repository::{TodoRepository, TodoRepositoryForMemory};
pub use todo::{CreateTodo, RepositoryError, Todo, TodoView, UpdateTodo};
