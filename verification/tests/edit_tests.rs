use markup_swift::app::App;
use markup_swift::edit::{
    first_wrap_trigger, line_start, menu_edit, menu_label, prepend_line, wrap_pair, wrap_range, wrap_typed,
    MenuEdit, MenuItem,
};

#[test]
fn wrap_range_either_direction() {
    let mut t = "hello world".to_string();
    wrap_range(&mut t, 6, 11, "**", "**");
    assert_eq!(t, "hello **world**");
    let mut t = "hello world".to_string();
    wrap_range(&mut t, 5, 0, "[", "](url)");
    assert_eq!(t, "[hello](url) world");
}

#[test]
fn line_starts() {
    assert_eq!(line_start("ab\ncd", 4), 3);
    assert_eq!(line_start("ab\ncd", 3), 3);
    assert_eq!(line_start("ab\ncd", 2), 0);
    assert_eq!(line_start("", 0), 0);
}

#[test]
fn prepend_at_line_start() {
    let mut t = "one\ntwo".to_string();
    prepend_line(&mut t, 5, "# ");
    assert_eq!(t, "one\n# two");
    let mut t = "one".to_string();
    prepend_line(&mut t, 1, "> ");
    assert_eq!(t, "> one");
}

#[test]
fn typed_wrap_characters() {
    assert_eq!(wrap_pair("("), Some(('(', ')')));
    assert_eq!(wrap_pair("*"), Some(('*', '*')));
    assert_eq!(wrap_pair("<"), Some(('<', '>')));
    assert_eq!(wrap_pair("a"), None);
    assert_eq!(wrap_pair("**"), None);
    let mut t = "abc".to_string();
    assert!(wrap_typed(&mut t, "{", 1, 2));
    assert_eq!(t, "a{b}c");
    assert!(!wrap_typed(&mut t, "{", 1, 1));
    assert!(!wrap_typed(&mut t, "x", 0, 2));
    assert_eq!(t, "a{b}c");
    let typed = vec!["x".to_string(), "`".to_string(), "(".to_string()];
    assert_eq!(first_wrap_trigger(&typed), Some(1));
    assert_eq!(first_wrap_trigger(&vec!["ab".to_string()]), None);
}

#[test]
fn menu_entries() {
    assert!(matches!(menu_edit(MenuItem::Bold), MenuEdit::Wrap("**", "**")));
    assert!(matches!(menu_edit(MenuItem::Link), MenuEdit::Wrap("[", "](url)")));
    assert!(matches!(menu_edit(MenuItem::Heading3), MenuEdit::Prepend("### ")));
    assert_eq!(menu_label(MenuItem::InlineCode), "Inline Code");

    let mut app = App::new();
    app.current_markdown_mut().push_str("title\nbody");
    app.apply_menu_item(MenuItem::Italic, 3, 3);
    assert_eq!(app.current_markdown(), "title\nbody");
    assert!(!app.active_dirty());
    app.apply_menu_item(MenuItem::Strikethrough, 10, 6);
    assert_eq!(app.current_markdown(), "title\n~~body~~");
    assert!(app.active_dirty());
    app.apply_menu_item(MenuItem::Heading1, 2, 2);
    assert_eq!(app.current_markdown(), "# title\n~~body~~");
    app.apply_menu_item(MenuItem::BulletList, 9, 0);
    assert_eq!(app.current_markdown(), "# title\n- ~~body~~");
}

#[test]
fn positions_are_byte_positions() {
    // "é" takes two bytes, so the "a" after it runs from byte 2 to byte 3.
    let mut t = "éa".to_string();
    wrap_range(&mut t, 2, 3, "*", "*");
    assert_eq!(t, "é*a*");
    let mut t = "éa".to_string();
    wrap_range(&mut t, 0, 2, "`", "`");
    assert_eq!(t, "`é`a");
    assert_eq!(line_start("é\nb", 4), 3);
    assert_eq!(line_start("é\nb", 2), 0);
    let mut t = "é\nb".to_string();
    prepend_line(&mut t, 4, "# ");
    assert_eq!(t, "é\n# b");
    let mut t = "ü ok".to_string();
    assert!(wrap_typed(&mut t, "(", 3, 5));
    assert_eq!(t, "ü (ok)");

    let mut app = App::new();
    app.current_markdown_mut().push_str("ñu bold");
    app.apply_menu_item(MenuItem::Bold, 4, 8);
    assert_eq!(app.current_markdown(), "ñu **bold**");
}
