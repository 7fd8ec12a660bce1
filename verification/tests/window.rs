use selected_text::window::{
    get_window_meta, in_finder_or_empty_window, names_file_manager, names_no_active_app,
    ActiveWindow, FILE_MANAGER, NO_ACTIVE_APP,
};

fn focused_window(app_name: &str, title: &str) -> Option<ActiveWindow> {
    Some(ActiveWindow { app_name: app_name.to_string(), title: title.to_string() })
}

#[test]
fn the_two_names() {
    assert_eq!(FILE_MANAGER, "Finder");
    assert_eq!(NO_ACTIVE_APP, "Empty Window");
}

#[test]
fn a_reported_window_is_passed_on() {
    assert_eq!(
        get_window_meta(focused_window("Notes", "Shopping list")),
        (String::from("Notes"), String::from("Shopping list"))
    );
    assert_eq!(get_window_meta(focused_window("", "")), (String::new(), String::new()));
}

#[test]
fn no_window_gives_the_sentinel_twice() {
    assert_eq!(
        get_window_meta(None),
        (String::from("Empty Window"), String::from("Empty Window"))
    );
}

#[test]
fn finder_and_no_window_list_files() {
    assert!(in_finder_or_empty_window(focused_window("Finder", "Downloads")));
    assert!(in_finder_or_empty_window(focused_window("Empty Window", "Empty Window")));
    assert!(in_finder_or_empty_window(focused_window("Empty Window", "anything")));
    assert!(in_finder_or_empty_window(None));
}

#[test]
fn other_applications_do_not_list_files() {
    assert!(!in_finder_or_empty_window(focused_window("Notes", "Finder")));
    assert!(!in_finder_or_empty_window(focused_window("finder", "Downloads")));
    assert!(!in_finder_or_empty_window(focused_window("Finder ", "Downloads")));
    assert!(!in_finder_or_empty_window(focused_window("EmptyWindow", "Empty Window")));
    assert!(!in_finder_or_empty_window(focused_window("", "")));
}

#[test]
fn names_are_compared_whole() {
    assert!(names_file_manager(&String::from("Finder")));
    assert!(!names_file_manager(&String::from("Finde")));
    assert!(!names_file_manager(&String::from("Empty Window")));
    assert!(names_no_active_app(&String::from("Empty Window")));
    assert!(!names_no_active_app(&String::from("Empty window")));
    assert!(!names_no_active_app(&String::from("Finder")));
}
