//! A multi-tenant to-do service core: credential and task storage with
//! owner-scoped CRUD, and token-based session authentication.

mod auth;
mod error;
mod handlers;
mod laws;
mod store;
mod time;

pub use auth::{
    auth_user, authorize, bearer_of, decoded_claims, login, opt_str_view, session_expiry,
    token_expiry, verify_token, Claims, SESSION_SECONDS,
};
pub use error::ApiError;
pub use handlers::{add_todo, delete_todo, get_todos, init_store, toggle_done, update_todo};
pub use laws::{
    lemma_create_ids_distinct, lemma_create_then_list, lemma_owner_isolation,
    lemma_register_twice_conflicts, lemma_toggle_twice_restores, lemma_token_authenticates,
    lemma_update_without_title_rejected,
};
pub use store::{
    create_spec, delete_spec, has_task, has_user, opt_string_view, owned_tasks, register_spec,
    stored_password, task_index, task_result_view, tasks_view, toggle_spec, update_spec,
    user_index, users_view, Store, StoreView, Task, TaskView, User,
};
pub use time::current_timestamp;
