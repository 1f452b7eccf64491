use todo_tui::app::{App, Key, Step};

fn app_with(todos: &[&str], index: usize) -> App {
    let mut app = App::default();
    app.todos = todos.iter().map(|t| t.to_string()).collect();
    app.index = index;
    app
}

#[test]
fn default_is_empty() {
    let app = App::default();
    assert_eq!(app.input, "");
    assert!(app.todos.is_empty());
    assert_eq!(app.index, 0);
    assert!(!app.show_popup);
}

#[test]
fn commit_buy_milk() {
    let mut app = App::default();
    for c in "buy milk".chars() {
        app.handle_key(Key::Char(c), "May 01 09:30 AM");
    }
    assert_eq!(app.handle_key(Key::Enter, "May 01 09:30 AM"), Step::Continue);
    assert_eq!(app.todos, vec!["buy milk [May 01 09:30 AM]".to_string()]);
    assert_eq!(app.input, "");
    assert!(!app.show_popup);
}

#[test]
fn commit_adds_one_entry_starting_with_input() {
    let mut app = app_with(&["a", "b"], 0);
    app.input = "call bob".to_string();
    app.commit_input("June 12 04:05 PM");
    assert_eq!(app.todos.len(), 3);
    assert!(app.todos[2].starts_with("call bob"));
    assert_eq!(app.todos[2], "call bob [June 12 04:05 PM]");
    assert_eq!(app.input, "");
}

#[test]
fn commit_with_current_time_label() {
    let mut app = App::default();
    app.on_key(Key::Char('x'));
    assert_eq!(app.on_key(Key::Enter), Step::Continue);
    assert_eq!(app.todos.len(), 1);
    assert!(app.todos[0].starts_with("x ["));
    assert!(app.todos[0].ends_with("]"));
    assert!(app.todos[0].ends_with("AM]") || app.todos[0].ends_with("PM]"));
}

#[test]
fn commit_empty_toggles_overlay() {
    let mut app = app_with(&["a"], 0);
    app.commit_input("t");
    assert!(app.show_popup);
    assert_eq!(app.todos.len(), 1);
    app.commit_input("t");
    assert!(!app.show_popup);
    assert_eq!(app.todos.len(), 1);
}

#[test]
fn next_wraps_after_n_moves() {
    for start in 0..4 {
        let mut app = app_with(&["a", "b", "c", "d"], start);
        for _ in 0..4 {
            app.next();
        }
        assert_eq!(app.index, start);
    }
    let mut app = app_with(&["a", "b", "c"], 2);
    app.next();
    assert_eq!(app.index, 0);
}

#[test]
fn previous_wraps_to_last() {
    let mut app = app_with(&["a", "b", "c"], 0);
    app.previous();
    assert_eq!(app.index, 2);
    app.previous();
    assert_eq!(app.index, 1);
}

#[test]
fn moves_on_empty_list_do_nothing() {
    let mut app = App::default();
    app.handle_key(Key::Up, "t");
    app.handle_key(Key::Down, "t");
    app.handle_key(Key::Tab, "t");
    assert_eq!(app.index, 0);
    assert!(app.todos.is_empty());
}

#[test]
fn remove_middle_keeps_index() {
    let mut app = app_with(&["a", "b", "c"], 1);
    app.handle_key(Key::Tab, "t");
    assert_eq!(app.todos, vec!["a".to_string(), "c".to_string()]);
    assert_eq!(app.index, 1);
    assert_eq!(app.todos[app.index], "c");
}

#[test]
fn remove_last_moves_selection_up() {
    let mut app = app_with(&["a", "b", "c"], 2);
    app.remove_selected();
    assert_eq!(app.todos, vec!["a".to_string(), "b".to_string()]);
    assert_eq!(app.index, 1);
}

#[test]
fn remove_only_entry_empties_list() {
    let mut app = app_with(&["a"], 0);
    app.remove_selected();
    assert!(app.todos.is_empty());
}

#[test]
fn remove_with_selection_past_end_clamps() {
    let mut app = app_with(&["a", "b"], 5);
    app.remove_selected();
    assert_eq!(app.todos.len(), 2);
    assert_eq!(app.index, 1);
}

#[test]
fn typing_and_erasing() {
    let mut app = App::default();
    app.handle_key(Key::Backspace, "t");
    assert_eq!(app.input, "");
    app.handle_key(Key::Char('h'), "t");
    app.handle_key(Key::Char('é'), "t");
    assert_eq!(app.input, "hé");
    app.handle_key(Key::Backspace, "t");
    assert_eq!(app.input, "h");
}

#[test]
fn esc_exits_and_other_keys_continue() {
    let mut app = app_with(&["x", "y"], 0);
    assert_eq!(app.handle_key(Key::Other, "t"), Step::Continue);
    assert_eq!(app.handle_key(Key::Esc, "t"), Step::Exit);
    assert_eq!(app.todos.len(), 2);
}

#[test]
fn overlay_shows_selected_entry_only_when_on() {
    let mut app = app_with(&["a", "b"], 1);
    assert_eq!(app.overlay_entry(), None);
    app.commit_input("t");
    assert_eq!(app.overlay_entry(), Some(&"b".to_string()));
    app.index = 2;
    assert_eq!(app.overlay_entry(), None);
}

#[test]
fn list_lines_are_numbered_from_one() {
    let names: Vec<String> = (0..10).map(|i| format!("item {}", i)).collect();
    let refs: Vec<&str> = names.iter().map(|s| s.as_str()).collect();
    let app = app_with(&refs, 0);
    let lines = app.list_lines();
    assert_eq!(lines.len(), 10);
    assert_eq!(lines[0], "1: item 0");
    assert_eq!(lines[9], "10: item 9");
    assert!(App::default().list_lines().is_empty());
}
