use markup_swift::app::{mode_button_label, switcher_rows, App, Card, InputEvent, Key, Mode, Outcome, Tab};

fn down(key: Key, ctrl: bool, shift: bool) -> InputEvent {
    InputEvent::KeyDown { key, ctrl, shift }
}

fn tab_with_path(path: &str, dirty: bool) -> Tab {
    Tab { markdown: String::new(), file_path: Some(path.to_string()), dirty }
}

#[test]
fn new_app_has_one_untitled_tab() {
    let app = App::new();
    assert_eq!(app.tabs.len(), 1);
    assert_eq!(app.active_tab, 0);
    assert_eq!(app.mode, Mode::Writing);
    assert_eq!(app.file_name(), "Untitled");
    assert_eq!(app.title_text(), "Untitled");
    assert!(!app.active_dirty());
    assert_eq!(app.current_markdown(), "");
}

#[test]
fn file_names_and_labels() {
    assert_eq!(tab_with_path("/home/u/notes.md", false).file_name(), "notes.md");
    assert_eq!(tab_with_path("/home/u/notes.md", true).marked_name(), "notes.md *");
    assert_eq!(tab_with_path("/home/u/notes.md", true).card_label(), "notes.md *");
    assert_eq!(tab_with_path("/tmp/a_long_file_name.md", false).card_label(), "a_long_fi\u{2026}");
    assert_eq!(tab_with_path("/tmp/..", false).file_name(), "Untitled");
    assert_eq!(Tab::new().file_name(), "Untitled");
}

#[test]
fn add_and_remove_tabs() {
    let mut app = App::new();
    assert_eq!(app.add_tab(), 1);
    assert_eq!(app.add_tab(), 2);
    app.active_tab = 2;
    app.remove_tab(2);
    assert_eq!(app.tabs.len(), 2);
    assert_eq!(app.active_tab, 1);
    app.remove_tab(0);
    assert_eq!(app.tabs.len(), 1);
    assert_eq!(app.active_tab, 0);
    app.remove_tab(0);
    assert_eq!(app.tabs.len(), 1, "the last tab stays");
}

#[test]
fn toggle_mode_twice() {
    let mut app = App::new();
    app.toggle_mode();
    assert_eq!(app.mode, Mode::Focus);
    assert_eq!(mode_button_label(app.mode), "Write");
    app.toggle_mode();
    assert_eq!(app.mode, Mode::Writing);
    assert_eq!(mode_button_label(app.mode), "Focus");
}

#[test]
fn shortcuts() {
    let mut app = App::new();
    assert!(matches!(app.handle_event(down(Key::O, true, false), false), Outcome::OpenFile));
    assert!(matches!(app.handle_event(down(Key::S, true, false), false), Outcome::SaveAs));
    assert!(matches!(app.handle_event(down(Key::N, true, false), false), Outcome::Consumed));
    assert_eq!((app.tabs.len(), app.active_tab), (2, 1));
    assert!(matches!(app.handle_event(down(Key::W, true, false), false), Outcome::Consumed));
    assert_eq!((app.tabs.len(), app.active_tab), (1, 0));
    assert!(matches!(app.handle_event(down(Key::F11, false, false), false), Outcome::Consumed));
    assert_eq!(app.mode, Mode::Focus);
    assert!(matches!(app.handle_event(down(Key::Escape, false, false), false), Outcome::Consumed));
    assert_eq!(app.mode, Mode::Writing);
    assert!(matches!(app.handle_event(down(Key::Escape, false, false), false), Outcome::PassOn));
    assert!(matches!(app.handle_event(down(Key::F, true, true), false), Outcome::Consumed));
    assert_eq!(app.mode, Mode::Focus);
    assert!(matches!(app.handle_event(down(Key::F, true, false), false), Outcome::PassOn));
    assert!(matches!(app.handle_event(down(Key::Other, true, false), false), Outcome::PassOn));
    assert!(matches!(app.handle_event(InputEvent::KeyUp, false), Outcome::PassOn));
    assert!(matches!(app.handle_event(InputEvent::Other, false), Outcome::PassOn));
}

#[test]
fn save_then_save_again_writes_the_same_file() {
    let mut app = App::new();
    app.tabs[0].dirty = true;
    app.mark_saved("/tmp/x.md".to_string());
    assert!(!app.active_dirty());
    assert_eq!(app.file_name(), "x.md");
    match app.handle_event(down(Key::S, true, false), false) {
        Outcome::WriteFile(p) => assert_eq!(p, "/tmp/x.md"),
        _ => panic!("expected a write to the saved path"),
    }
    assert!(matches!(app.handle_event(down(Key::S, true, true), false), Outcome::SaveAs));
}

#[test]
fn tab_switcher_navigation() {
    let mut app = App::new();
    app.add_tab();
    app.add_tab();
    assert!(matches!(app.handle_event(down(Key::Tab, true, false), false), Outcome::Consumed));
    assert!(app.show_tab_switcher);
    assert_eq!(app.tab_switcher_selection, 3);
    app.handle_event(down(Key::ArrowRight, false, false), true);
    assert_eq!(app.tab_switcher_selection, 0);
    app.handle_event(down(Key::ArrowLeft, false, false), true);
    assert_eq!(app.tab_switcher_selection, 3);
    app.handle_event(down(Key::Tab, false, false), true);
    assert_eq!(app.tab_switcher_selection, 0);
    app.handle_event(down(Key::Tab, false, true), true);
    assert_eq!(app.tab_switcher_selection, 3);
    app.handle_event(down(Key::ArrowDown, false, false), true);
    assert_eq!(app.tab_switcher_selection, 3);
    app.handle_event(down(Key::ArrowUp, false, false), true);
    assert_eq!(app.tab_switcher_selection, 3);
    assert!(matches!(app.handle_event(down(Key::O, false, false), true), Outcome::PassOn));
    assert!(matches!(app.handle_event(InputEvent::KeyUp, true), Outcome::Consumed));
    assert!(matches!(app.handle_event(down(Key::Enter, false, false), true), Outcome::Consumed));
    assert!(!app.show_tab_switcher);
    assert_eq!((app.tabs.len(), app.active_tab), (4, 3));
}

#[test]
fn tab_switcher_rows_up_and_down() {
    let mut app = App::new();
    for _ in 0..6 {
        app.add_tab();
    }
    app.show_tab_switcher = true;
    app.tab_switcher_selection = 1;
    app.switcher_key(Key::ArrowDown, false);
    assert_eq!(app.tab_switcher_selection, 5);
    app.switcher_key(Key::ArrowDown, false);
    assert_eq!(app.tab_switcher_selection, 5);
    app.switcher_key(Key::ArrowUp, false);
    assert_eq!(app.tab_switcher_selection, 1);
    app.switcher_key(Key::Enter, false);
    assert_eq!(app.active_tab, 1);
    assert!(!app.show_tab_switcher);
    app.show_tab_switcher = true;
    assert!(app.switcher_key(Key::Escape, false));
    assert!(!app.show_tab_switcher);
}

#[test]
fn opening_a_file_twice_adds_one_tab() {
    let mut app = App::new();
    app.open_document("/tmp/a.md".to_string(), "# A".to_string());
    assert_eq!((app.tabs.len(), app.active_tab), (2, 1));
    assert_eq!(app.current_markdown(), "# A");
    app.active_tab = 0;
    app.open_document("/tmp/a.md".to_string(), "changed".to_string());
    assert_eq!((app.tabs.len(), app.active_tab), (2, 1));
    assert_eq!(app.current_markdown(), "# A");
    app.open_document("/tmp/./a.md".to_string(), "other".to_string());
    assert_eq!(app.tabs.len(), 2, "paths compare by component");
}

#[test]
fn switcher_clicks() {
    let mut app = App::new();
    app.add_tab();
    app.add_tab();
    app.show_tab_switcher = true;
    app.tab_switcher_selection = 3;
    app.switcher_clicks(true, Some(0), None, false);
    assert!(!app.show_tab_switcher);
    assert_eq!(app.tabs.len(), 3, "a click outside does nothing else");
    app.show_tab_switcher = true;
    app.switcher_clicks(false, Some(0), None, false);
    assert_eq!(app.tabs.len(), 2);
    assert_eq!(app.tab_switcher_selection, 1);
    assert!(app.show_tab_switcher);
    app.switcher_clicks(false, None, Some(0), false);
    assert_eq!(app.active_tab, 0);
    assert!(!app.show_tab_switcher);
    app.show_tab_switcher = true;
    app.switcher_clicks(false, None, None, true);
    assert_eq!((app.tabs.len(), app.active_tab), (3, 2));
    assert!(!app.show_tab_switcher);
}

#[test]
fn switcher_grid() {
    let mut app = App::new();
    for _ in 0..4 {
        app.add_tab();
    }
    app.tab_switcher_selection = 5;
    assert_eq!(switcher_rows(app.tabs.len()), 2);
    assert_eq!(switcher_rows(3), 1);
    assert_eq!(switcher_rows(4), 2);
    assert_eq!(
        app.card_at(0, 0),
        Card::Tab { index: 0, selected: false, active: true, closable: true }
    );
    assert_eq!(
        app.card_at(1, 0),
        Card::Tab { index: 4, selected: false, active: false, closable: true }
    );
    assert_eq!(app.card_at(1, 1), Card::NewTab { selected: true });
    assert_eq!(app.card_at(1, 2), Card::Empty);
    assert_eq!(app.card_at(0, 4), Card::Empty);
    let single = App::new();
    assert_eq!(
        single.card_at(0, 0),
        Card::Tab { index: 0, selected: true, active: true, closable: false }
    );
}

#[test]
fn preview_frame_checks_and_renders() {
    let mut app = App::new();
    app.current_markdown_mut().push_str("# Hi");
    let (changed, blocks) = app.preview_frame();
    assert!(changed);
    assert_eq!(blocks.len(), 1);
    let (changed, _) = app.preview_frame();
    assert!(!changed);
}
