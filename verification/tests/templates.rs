use todo_axum_htmx::sessions::{self, LoginForm};
use todo_axum_htmx::todos::{
    render_index, render_todos, Todo, TodoLiTemplate, TodoUiState, TodosInnerTemplate,
    TodosUlTemplate,
};
use todo_axum_htmx::users::{self, UserForm};
use todo_axum_htmx::SESSION_COOKIE_NAME;

fn todo(id: i32, done: bool, description: &str, position: i32) -> Todo {
    Todo {
        id,
        done,
        description: String::from(description),
        position,
    }
}

#[test]
fn render_todos_without_editing() {
    let todos = vec![todo(1, false, "buy milk", 2), todo(2, true, "call home", 1)];
    let inner = render_todos(todos, None);
    assert!(!inner.editable);
    assert_eq!(inner.todos.len(), 2);
    assert_eq!(inner.todos[0].id, 1);
    assert_eq!(inner.todos[0].description, "buy milk");
    assert_eq!(inner.todos[0].ui_state, TodoUiState::Normal);
    assert_eq!(inner.todos[1].ui_state, TodoUiState::Normal);
}

#[test]
fn render_todos_with_one_editable() {
    let todos = vec![
        todo(1, false, "buy milk", 3),
        todo(2, true, "call home", 2),
        todo(3, false, "water plants", 1),
    ];
    let inner = render_todos(todos, Some(2));
    assert!(inner.editable);
    assert_eq!(inner.todos[0].ui_state, TodoUiState::Disabled);
    assert_eq!(inner.todos[1].ui_state, TodoUiState::Editable);
    assert_eq!(inner.todos[2].ui_state, TodoUiState::Disabled);
}

#[test]
fn render_todos_of_nothing() {
    let inner = render_todos(Vec::new(), None);
    assert_eq!(inner.todos.len(), 0);
    assert_eq!(inner.done_count(), 0);
    assert_eq!(inner.pending_count(), 0);
}

#[test]
fn counts_split_done_and_pending() {
    let todos = vec![
        todo(1, true, "a", 1),
        todo(2, false, "b", 2),
        todo(3, true, "c", 3),
        todo(4, true, "d", 4),
    ];
    let inner = render_todos(todos, None);
    assert_eq!(inner.done_count(), 3);
    assert_eq!(inner.pending_count(), 1);
    let ul = TodosUlTemplate { todos: inner };
    assert_eq!(ul.todos.done_count(), 3);
}

#[test]
fn list_entry_from_todo_starts_normal() {
    let li = TodoLiTemplate::from(todo(9, true, "x", 0));
    assert_eq!(li.id, 9);
    assert!(li.done);
    assert_eq!(li.description, "x");
    assert_eq!(li.ui_state, TodoUiState::Normal);
}

#[test]
fn ui_state_labels() {
    assert_eq!(TodoUiState::Normal.label(), "normal");
    assert_eq!(TodoUiState::Editable.label(), "editable");
    assert_eq!(TodoUiState::Disabled.label(), "disabled");
}

#[test]
fn render_index_builds() {
    let _ = render_index();
    assert_eq!(SESSION_COOKIE_NAME, "SESSION");
}

#[test]
fn users_render_new_echoes_or_blanks() {
    let form = UserForm {
        email: String::from("a@b.com"),
        password: String::from("longenough1"),
        email_errors: String::from("e"),
        password_errors: String::from("p"),
        password_confirmation: String::from("longenough1"),
    };
    let echoed = users::render_new(Some(form));
    assert_eq!(echoed.users_form.email, "a@b.com");
    assert_eq!(echoed.users_form.email_errors, "e");
    let blank = users::render_new(None);
    assert_eq!(blank.users_form.email, "");
    assert_eq!(blank.users_form.password_errors, "");
}

#[test]
fn sessions_render_new_echoes_or_blanks() {
    let form = LoginForm {
        email: String::from("a@b.com"),
        password: String::from("pw"),
        email_errors: String::from("e"),
        password_errors: String::new(),
    };
    let echoed = sessions::render_new(Some(form));
    assert_eq!(echoed.login_form.email, "a@b.com");
    assert_eq!(echoed.login_form.email_errors, "e");
    let blank = sessions::render_new(None);
    assert_eq!(blank.login_form.email, "");
    assert_eq!(blank.login_form.password, "");
}

#[test]
fn validate_sets_exact_messages_and_is_valid_tracks_them() {
    let form = UserForm {
        email: String::from("a@b.com"),
        password: String::from("longenough1"),
        email_errors: String::new(),
        password_errors: String::new(),
        password_confirmation: String::from("longenough1"),
    };
    let ok = form.validate(false);
    assert!(ok.is_valid());
    assert_eq!(ok.password_errors, "");
    assert_eq!(ok.email_errors, "");

    let taken = UserForm {
        email: String::from("a@b.com"),
        password: String::from("longenough1"),
        email_errors: String::new(),
        password_errors: String::new(),
        password_confirmation: String::from("longenough1"),
    }
    .validate(true);
    assert!(!taken.is_valid());
    assert_eq!(taken.email_errors, "A user with this email already exists");

    let broken = UserForm {
        email: String::from("a@b.com"),
        password: String::from("short1"),
        email_errors: String::new(),
        password_errors: String::new(),
        password_confirmation: String::from("other1"),
    }
    .validate(false);
    assert!(!broken.is_valid());
    assert_eq!(
        broken.password_errors,
        "passwords must be at least 10 characters long, \
         password and password confirmation must match"
    );
}
