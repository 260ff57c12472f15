use tplan::codec::TodoFile;
use tplan::editor::{App, Key, Mode};
use tplan::task::Task;

fn cs(s: &str) -> Vec<char> {
    s.chars().collect()
}

fn task(summary: &str, completed: bool) -> Task {
    Task { summary: cs(summary), completed }
}

fn session(tasks: Vec<Task>, mode: Mode) -> App {
    App { todo_file: TodoFile { tasks }, mode, is_running: true, is_dirty: false }
}

#[test]
fn load_starts_browsing_and_clean() {
    let app = App::load(&cs("x buy milk\ncook dinner\n"));
    assert!(matches!(app.mode, Mode::View));
    assert!(app.is_running);
    assert!(!app.is_dirty);
    assert_eq!(app.todo_file.tasks.len(), 2);
}

#[test]
fn scenario_append_after_first_enters_edit() {
    let mut app = session(vec![task("one", false), task("two", false)], Mode::Select(0));
    app.append_task();
    assert_eq!(app.todo_file.tasks.len(), 3);
    assert!(!app.todo_file.tasks[1].completed);
    assert_eq!(app.todo_file.tasks[1].summary, cs(""));
    match &app.mode {
        Mode::Edit { item, cursor, text } => {
            assert_eq!(*item, 1);
            assert_eq!(*cursor, 0);
            assert_eq!(*text, cs(""));
        }
        _ => panic!("expected an edit of the inserted task"),
    }
}

#[test]
fn scenario_typing_then_commit_and_save() {
    let mut app = session(
        vec![task("one", false), task("", false)],
        Mode::Edit { item: 1, cursor: 0, text: cs("") },
    );
    app.insert_char('e');
    app.insert_char('a');
    app.insert_char('t');
    app.save_edit();
    assert_eq!(app.todo_file.tasks[1].summary, cs("eat"));
    assert!(!app.todo_file.tasks[1].completed);
    assert!(matches!(app.mode, Mode::Select(1)));
    assert!(app.is_dirty);
    let contents = app.save();
    assert!(!app.is_dirty);
    assert_eq!(contents, cs("  one\n  eat\n"));
}

#[test]
fn scenario_delete_last_remaining_task() {
    let mut app = session(vec![task("only", false)], Mode::Select(0));
    app.delete_selected();
    assert_eq!(app.todo_file.tasks.len(), 0);
    assert!(matches!(app.mode, Mode::View));
    assert!(app.is_dirty);
    // Further navigation and toggling on the emptied session are no-ops.
    app.select_next();
    assert!(matches!(app.mode, Mode::View));
    app.complete_selected();
    assert_eq!(app.todo_file.tasks.len(), 0);
    assert!(matches!(app.mode, Mode::View));
}

#[test]
fn delete_clamps_selection_to_last_index() {
    let mut app = session(vec![task("a", false), task("b", false)], Mode::Select(1));
    app.delete_selected();
    assert_eq!(app.todo_file.tasks.len(), 1);
    assert!(matches!(app.mode, Mode::Select(0)));
    assert_eq!(app.todo_file.tasks[0].summary, cs("a"));
}

#[test]
fn select_next_is_clamped() {
    let mut app = session(vec![task("a", false), task("b", false)], Mode::View);
    app.select_next();
    assert!(matches!(app.mode, Mode::Select(0)));
    app.select_next();
    assert!(matches!(app.mode, Mode::Select(1)));
    app.select_next();
    assert!(matches!(app.mode, Mode::Select(1)));
    app.select_next();
    assert!(matches!(app.mode, Mode::Select(1)));
}

#[test]
fn select_prev_is_clamped() {
    let mut app = session(vec![task("a", false), task("b", false)], Mode::Select(1));
    app.select_prev();
    assert!(matches!(app.mode, Mode::Select(0)));
    app.select_prev();
    assert!(matches!(app.mode, Mode::Select(0)));
}

#[test]
fn select_on_empty_document_stays_browsing() {
    let mut app = session(Vec::new(), Mode::View);
    app.select_first();
    assert!(matches!(app.mode, Mode::View));
    app.select_last();
    assert!(matches!(app.mode, Mode::View));
    app.select_next();
    assert!(matches!(app.mode, Mode::View));
}

#[test]
fn select_first_and_last() {
    let mut app = session(vec![task("a", false), task("b", false), task("c", false)], Mode::View);
    app.select_last();
    assert!(matches!(app.mode, Mode::Select(2)));
    app.select_first();
    assert!(matches!(app.mode, Mode::Select(0)));
}

#[test]
fn toggle_twice_restores_flag() {
    let mut app = session(vec![task("a", false), task("b", true)], Mode::Select(1));
    app.complete_selected();
    assert!(!app.todo_file.tasks[1].completed);
    app.complete_selected();
    assert!(app.todo_file.tasks[1].completed);
    assert!(matches!(app.mode, Mode::Select(1)));
}

#[test]
fn toggle_marks_dirty() {
    let mut app = session(vec![task("a", false)], Mode::Select(0));
    assert!(!app.is_dirty);
    app.complete_selected();
    assert!(app.todo_file.tasks[0].completed);
    assert!(app.is_dirty);
}

#[test]
fn edit_then_commit_preserves_order() {
    let mut app = session(
        vec![task("a", false), task("b", true), task("c", false)],
        Mode::Select(1),
    );
    app.edit_task();
    match &app.mode {
        Mode::Edit { item, cursor, text } => {
            assert_eq!(*item, 1);
            assert_eq!(*cursor, 1);
            assert_eq!(*text, cs("b"));
        }
        _ => panic!("expected an edit of the selected task"),
    }
    app.save_edit();
    assert!(matches!(app.mode, Mode::Select(1)));
    assert_eq!(app.todo_file.tasks.len(), 3);
    assert_eq!(app.todo_file.tasks[0].summary, cs("a"));
    assert_eq!(app.todo_file.tasks[1].summary, cs("b"));
    assert!(app.todo_file.tasks[1].completed);
    assert_eq!(app.todo_file.tasks[2].summary, cs("c"));
}

#[test]
fn cancel_edit_keeps_document() {
    let mut app = session(vec![task("keep", false)], Mode::Select(0));
    app.edit_task();
    app.insert_char('?');
    app.cancel_edit();
    assert!(matches!(app.mode, Mode::Select(0)));
    assert_eq!(app.todo_file.tasks[0].summary, cs("keep"));
    assert!(!app.is_dirty);
}

#[test]
fn cancel_after_append_leaves_placeholder() {
    let mut app = session(vec![task("one", false)], Mode::Select(0));
    app.append_task();
    app.cancel_edit();
    assert_eq!(app.todo_file.tasks.len(), 2);
    assert_eq!(app.todo_file.tasks[1].summary, cs(""));
    assert!(!app.todo_file.tasks[1].completed);
    assert!(matches!(app.mode, Mode::Select(1)));
}

#[test]
fn insert_goes_before_selection() {
    let mut app = session(vec![task("a", false), task("b", false)], Mode::Select(1));
    app.insert_task();
    assert_eq!(app.todo_file.tasks.len(), 3);
    assert_eq!(app.todo_file.tasks[0].summary, cs(""));
    assert_eq!(app.todo_file.tasks[1].summary, cs("a"));
    match &app.mode {
        Mode::Edit { item, .. } => assert_eq!(*item, 0),
        _ => panic!("expected an edit of the inserted task"),
    }
}

#[test]
fn append_outside_selection_goes_to_end() {
    let mut app = session(vec![task("a", false), task("b", false)], Mode::View);
    app.append_task();
    assert_eq!(app.todo_file.tasks.len(), 3);
    assert_eq!(app.todo_file.tasks[2].summary, cs(""));
    match &app.mode {
        Mode::Edit { item, .. } => assert_eq!(*item, 2),
        _ => panic!("expected an edit of the appended task"),
    }
}

#[test]
fn buffer_editing_operations() {
    let mut app = session(
        vec![task("", false)],
        Mode::Edit { item: 0, cursor: 0, text: cs("") },
    );
    app.insert_char('a');
    app.insert_char('b');
    app.insert_char('c');
    app.cursor_left();
    app.backspace();
    // "abc" with cursor before 'c', backspace removes 'b'.
    match &app.mode {
        Mode::Edit { cursor, text, .. } => {
            assert_eq!(*text, cs("ac"));
            assert_eq!(*cursor, 1);
        }
        _ => panic!("expected an edit in progress"),
    }
    app.delete_char();
    match &app.mode {
        Mode::Edit { cursor, text, .. } => {
            assert_eq!(*text, cs("a"));
            assert_eq!(*cursor, 1);
        }
        _ => panic!("expected an edit in progress"),
    }
    app.backspace();
    app.backspace();
    match &app.mode {
        Mode::Edit { cursor, text, .. } => {
            assert_eq!(*text, cs(""));
            assert_eq!(*cursor, 0);
        }
        _ => panic!("expected an edit in progress"),
    }
}

#[test]
fn cursor_moves_are_clamped() {
    let mut app = session(
        vec![task("ab", false)],
        Mode::Edit { item: 0, cursor: 0, text: cs("ab") },
    );
    app.cursor_left();
    match &app.mode {
        Mode::Edit { cursor, .. } => assert_eq!(*cursor, 0),
        _ => panic!("expected an edit in progress"),
    }
    app.cursor_right();
    app.cursor_right();
    app.cursor_right();
    match &app.mode {
        Mode::Edit { cursor, .. } => assert_eq!(*cursor, 2),
        _ => panic!("expected an edit in progress"),
    }
}

#[test]
fn keys_in_browsing_mode() {
    let mut app = session(vec![task("a", false)], Mode::View);
    let redraw = app.handle_key(Key::Down);
    assert!(redraw);
    assert!(matches!(app.mode, Mode::Select(0)));
    let mut quitter = session(vec![task("a", false)], Mode::View);
    quitter.handle_key(Key::Char('q'));
    assert!(!quitter.is_running);
}

#[test]
fn keys_in_selecting_mode() {
    let mut app = session(vec![task("a", false), task("b", false)], Mode::Select(0));
    assert!(app.handle_key(Key::Char('j')));
    assert!(matches!(app.mode, Mode::Select(1)));
    assert!(app.handle_key(Key::Enter));
    assert!(app.todo_file.tasks[1].completed);
    assert!(app.handle_key(Key::Char('e')));
    assert!(matches!(app.mode, Mode::Edit { item: 1, .. }));
}

#[test]
fn keys_in_editing_mode_type_text() {
    let mut app = session(
        vec![task("", false)],
        Mode::Edit { item: 0, cursor: 0, text: cs("") },
    );
    // Characters that navigate elsewhere are plain text here.
    assert!(app.handle_key(Key::Char('q')));
    assert!(app.is_running);
    assert!(app.handle_key(Key::Char('j')));
    assert!(app.handle_key(Key::Enter));
    assert!(matches!(app.mode, Mode::Select(0)));
    assert_eq!(app.todo_file.tasks[0].summary, cs("qj"));
}

#[test]
fn escape_cancels_edit() {
    let mut app = session(
        vec![task("orig", false)],
        Mode::Edit { item: 0, cursor: 0, text: cs("draft") },
    );
    assert!(app.handle_key(Key::Esc));
    assert!(matches!(app.mode, Mode::Select(0)));
    assert_eq!(app.todo_file.tasks[0].summary, cs("orig"));
}

#[test]
fn backspace_at_start_requests_no_redraw() {
    let mut app = session(
        vec![task("", false)],
        Mode::Edit { item: 0, cursor: 0, text: cs("") },
    );
    assert!(!app.handle_key(Key::Backspace));
    assert!(!app.handle_key(Key::Delete));
    assert!(!app.handle_key(Key::Left));
    assert!(!app.handle_key(Key::Right));
}

#[test]
fn delete_key_in_selecting_mode_removes_task() {
    let mut app = session(vec![task("a", false), task("b", false)], Mode::Select(0));
    assert!(app.handle_key(Key::Delete));
    assert_eq!(app.todo_file.tasks.len(), 1);
    assert_eq!(app.todo_file.tasks[0].summary, cs("b"));
    assert!(matches!(app.mode, Mode::Select(0)));
}
