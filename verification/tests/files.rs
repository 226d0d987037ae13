use idk::files::{open_file_modal, save_current_file, DialogEvent};
use idk::{FileState, OpenFile};

fn entries(state: &FileState) -> Vec<(String, bool)> {
    state.open_files.iter().map(|file| (file.file_path.clone(), file.current_file)).collect()
}

fn entry(path: &str, active: bool) -> (String, bool) {
    (path.to_string(), active)
}

fn writes_of(state: &FileState, text: &str) -> Vec<(String, String)> {
    save_current_file(state, &text.to_string())
        .into_iter()
        .map(|write| (write.path, write.contents))
        .collect()
}

#[test]
fn new_registry_tracks_no_file() {
    let state = FileState::new();
    assert!(state.open_files.is_empty());
    assert!(state.active_files().is_empty());
}

#[test]
fn insert_file_appends_an_active_entry() {
    let mut state = FileState::new();
    state.insert_file("notes.txt".to_string());
    assert_eq!(entries(&state), vec![entry("notes.txt", true)]);
    state.insert_file("todo.txt".to_string());
    assert_eq!(entries(&state), vec![entry("notes.txt", false), entry("todo.txt", true)]);
}

#[test]
fn insert_file_records_a_path_again() {
    let mut state = FileState::new();
    state.insert_file("notes.txt".to_string());
    state.insert_file("notes.txt".to_string());
    assert_eq!(entries(&state), vec![entry("notes.txt", false), entry("notes.txt", true)]);
    assert_eq!(state.active_files(), vec!["notes.txt".to_string()]);
}

#[test]
fn insert_file_deactivates_every_earlier_entry() {
    let mut state = FileState {
        open_files: vec![
            OpenFile { file_path: "a.txt".to_string(), current_file: true },
            OpenFile { file_path: "b.txt".to_string(), current_file: false },
            OpenFile { file_path: "c.txt".to_string(), current_file: true },
        ],
    };
    state.insert_file("d.txt".to_string());
    assert_eq!(
        entries(&state),
        vec![entry("a.txt", false), entry("b.txt", false), entry("c.txt", false), entry("d.txt", true)]
    );
    assert_eq!(state.active_files(), vec!["d.txt".to_string()]);
}

#[test]
fn save_after_two_inserts_writes_the_last_file_only() {
    let mut state = FileState::new();
    state.insert_file("a.txt".to_string());
    state.insert_file("b.txt".to_string());
    assert_eq!(writes_of(&state, "x"), vec![("b.txt".to_string(), "x".to_string())]);
}

#[test]
fn insert_file_leaves_inactive_entries_inactive() {
    let mut state = FileState {
        open_files: vec![OpenFile { file_path: "old.txt".to_string(), current_file: false }],
    };
    state.insert_file("new.txt".to_string());
    assert_eq!(entries(&state), vec![entry("old.txt", false), entry("new.txt", true)]);
}

#[test]
fn active_files_lists_the_active_paths_in_order() {
    let state = FileState {
        open_files: vec![
            OpenFile { file_path: "a.txt".to_string(), current_file: true },
            OpenFile { file_path: "b.txt".to_string(), current_file: false },
            OpenFile { file_path: "c.txt".to_string(), current_file: true },
        ],
    };
    assert_eq!(state.active_files(), vec!["a.txt".to_string(), "c.txt".to_string()]);
}

#[test]
fn deactivate_all_keeps_paths_and_order() {
    let mut state = FileState::new();
    state.insert_file("a.txt".to_string());
    state.insert_file("b.txt".to_string());
    state.deactivate_all();
    assert_eq!(entries(&state), vec![entry("a.txt", false), entry("b.txt", false)]);
    assert!(state.active_files().is_empty());
    state.deactivate_all();
    assert_eq!(entries(&state), vec![entry("a.txt", false), entry("b.txt", false)]);
}

#[test]
fn save_plans_one_write_per_active_file() {
    let state = FileState {
        open_files: vec![
            OpenFile { file_path: "a.txt".to_string(), current_file: true },
            OpenFile { file_path: "b.txt".to_string(), current_file: false },
            OpenFile { file_path: "c.txt".to_string(), current_file: true },
        ],
    };
    assert_eq!(
        writes_of(&state, "hello"),
        vec![
            ("a.txt".to_string(), "hello".to_string()),
            ("c.txt".to_string(), "hello".to_string()),
        ]
    );
}

#[test]
fn save_without_an_active_file_plans_nothing() {
    assert!(writes_of(&FileState::new(), "hello").is_empty());
    let mut state = FileState::new();
    state.insert_file("a.txt".to_string());
    state.deactivate_all();
    assert!(writes_of(&state, "hello").is_empty());
}

#[test]
fn save_carries_the_text_unchanged() {
    let mut state = FileState::new();
    state.insert_file("a.txt".to_string());
    let text = "line one\nline two\r\n\ttabbed — ünïcödé\n";
    assert_eq!(writes_of(&state, text), vec![("a.txt".to_string(), text.to_string())]);
    assert_eq!(writes_of(&state, ""), vec![("a.txt".to_string(), String::new())]);
}

#[test]
fn opening_notes_then_saving_writes_notes_only() {
    let mut state = FileState::new();
    let mut show_modal = true;
    let event = DialogEvent::Opened { path: "notes.txt".to_string(), content: "hello".to_string() };
    let text = open_file_modal(event, &mut show_modal, &mut state);
    assert_eq!(text, Some("hello".to_string()));
    assert!(!show_modal);
    assert_eq!(
        writes_of(&state, "hello world"),
        vec![("notes.txt".to_string(), "hello world".to_string())]
    );
}

#[test]
fn opening_a_second_file_leaves_it_the_only_active_one() {
    let mut state = FileState::new();
    let mut show_modal = true;
    let first = DialogEvent::Opened { path: "a.txt".to_string(), content: "one".to_string() };
    assert_eq!(open_file_modal(first, &mut show_modal, &mut state), Some("one".to_string()));
    show_modal = true;
    let second = DialogEvent::Opened { path: "b.txt".to_string(), content: "two".to_string() };
    assert_eq!(open_file_modal(second, &mut show_modal, &mut state), Some("two".to_string()));
    assert_eq!(entries(&state), vec![entry("a.txt", false), entry("b.txt", true)]);
    assert_eq!(state.active_files(), vec!["b.txt".to_string()]);
    assert_eq!(writes_of(&state, "text"), vec![("b.txt".to_string(), "text".to_string())]);
}

#[test]
fn opening_an_empty_file_returns_its_empty_text() {
    let mut state = FileState::new();
    let mut show_modal = true;
    let event = DialogEvent::Opened { path: "empty.txt".to_string(), content: String::new() };
    assert_eq!(open_file_modal(event, &mut show_modal, &mut state), Some(String::new()));
    assert_eq!(entries(&state), vec![entry("empty.txt", true)]);
}

#[test]
fn idle_dialog_changes_nothing() {
    let mut state = FileState::new();
    state.insert_file("a.txt".to_string());
    let mut show_modal = true;
    assert_eq!(open_file_modal(DialogEvent::Idle, &mut show_modal, &mut state), None);
    assert!(show_modal);
    assert_eq!(entries(&state), vec![entry("a.txt", true)]);
    let mut closed = false;
    assert_eq!(open_file_modal(DialogEvent::Idle, &mut closed, &mut state), None);
    assert!(!closed);
}

#[test]
fn cancel_closes_the_dialog_and_keeps_the_registry() {
    let mut state = FileState::new();
    state.insert_file("a.txt".to_string());
    let mut show_modal = true;
    assert_eq!(open_file_modal(DialogEvent::Cancelled, &mut show_modal, &mut state), None);
    assert!(!show_modal);
    assert_eq!(entries(&state), vec![entry("a.txt", true)]);
}

#[test]
fn dismissed_picker_closes_the_dialog_and_keeps_the_registry() {
    let mut state = FileState::new();
    state.insert_file("a.txt".to_string());
    let mut show_modal = true;
    assert_eq!(open_file_modal(DialogEvent::Dismissed, &mut show_modal, &mut state), None);
    assert!(!show_modal);
    assert_eq!(entries(&state), vec![entry("a.txt", true)]);
}

#[test]
fn failed_read_closes_the_dialog_and_keeps_the_registry() {
    let mut state = FileState::new();
    state.insert_file("a.txt".to_string());
    let mut show_modal = true;
    assert_eq!(open_file_modal(DialogEvent::ReadFailed, &mut show_modal, &mut state), None);
    assert!(!show_modal);
    assert_eq!(entries(&state), vec![entry("a.txt", true)]);
    assert_eq!(writes_of(&state, "x"), vec![("a.txt".to_string(), "x".to_string())]);
}
