use selected_text::cache::{MethodCache, Outcome};
use selected_text::selection::get_selected_text;
use selected_text::selector::{ExtractionError, Method, Reading, SelectedText};
use selected_text::window::ActiveWindow;
use std::cell::RefCell;



/// Three methods with fixed answers, and the order in which they were run.
struct Desk {
    file_paths: Reading,
    accessibility: Reading,
    clipboard: Reading,
    log: RefCell<Vec<Method>>,
}

fn desk(file_paths: Reading, accessibility: Reading, clipboard: Reading) -> Desk {
    Desk { file_paths, accessibility, clipboard, log: RefCell::new(Vec::new()) }
}

fn text(value: &str) -> Reading {
    Ok(value.to_string())
}

fn not_found() -> Reading {
    Err(ExtractionError::NotFound)
}

fn script_error(message: &str) -> Reading {
    Err(ExtractionError::ScriptExecution(message.to_string()))
}

fn in_app(app_name: &str) -> Option<ActiveWindow> {
    Some(ActiveWindow { app_name: app_name.to_string(), title: String::from("a window") })
}

fn call(cache: &mut MethodCache, window: Option<ActiveWindow>, desk: &Desk) -> Result<SelectedText, ExtractionError> {
    desk.log.borrow_mut().clear();
    get_selected_text(
        cache,
        window,
        |for_empty_window| {
            desk.log.borrow_mut().push(Method::FilePaths { for_empty_window });
            desk.file_paths.clone()
        },
        || {
            desk.log.borrow_mut().push(Method::Accessibility);
            desk.accessibility.clone()
        },
        || {
            desk.log.borrow_mut().push(Method::ClipboardScript);
            desk.clipboard.clone()
        },
    )
}

fn ran(desk: &Desk) -> Vec<Method> {
    desk.log.borrow().clone()
}

fn plain(app_name: &str, value: &str) -> SelectedText {
    SelectedText {
        is_file_paths: false,
        app_name: app_name.to_string(),
        text: vec![value.to_string()],
    }
}

fn known(cache: &mut MethodCache, app_name: &str) -> Option<Outcome> {
    cache.get(app_name)
}

#[test]
fn notes_unseen_accessibility_returns_hello() {
    let mut cache = MethodCache::new();
    let methods = desk(script_error("unused"), text("hello"), script_error("unused"));
    let result = call(&mut cache, in_app("Notes"), &methods);
    assert_eq!(
        result,
        Ok(SelectedText {
            is_file_paths: false,
            app_name: String::from("Notes"),
            text: vec![String::from("hello")],
        })
    );
    assert_eq!(ran(&methods), vec![Method::Accessibility]);
    assert_eq!(known(&mut cache, "Notes"), Some(Outcome::PreferAccessibility));
    assert_eq!(cache.len(), 1);
}

#[test]
fn finder_with_two_selected_files() {
    let mut cache = MethodCache::new();
    let methods = desk(text("/a.txt\n/b.txt"), text("unused"), text("unused"));
    let result = call(&mut cache, in_app("Finder"), &methods);
    assert_eq!(
        result,
        Ok(SelectedText {
            is_file_paths: true,
            app_name: String::from("Finder"),
            text: vec![String::from("/a.txt"), String::from("/b.txt")],
        })
    );
    assert_eq!(ran(&methods), vec![Method::FilePaths { for_empty_window: false }]);
    assert_eq!(cache.len(), 0);
}

#[test]
fn desktop_listing_fails_and_clipboard_gives_fallback_text() {
    let mut cache = MethodCache::new();
    let methods = desk(script_error("Finder got an error"), not_found(), text("fallback text"));
    let result = call(&mut cache, in_app("Empty Window"), &methods);
    assert_eq!(
        result,
        Ok(SelectedText {
            is_file_paths: false,
            app_name: String::from("Empty Window"),
            text: vec![String::from("fallback text")],
        })
    );
    assert_eq!(
        ran(&methods),
        vec![
            Method::FilePaths { for_empty_window: true },
            Method::Accessibility,
            Method::ClipboardScript
        ]
    );
    assert_eq!(known(&mut cache, "Empty Window"), Some(Outcome::PreferClipboardScript));
}

#[test]
fn desktop_with_nothing_selected_is_an_empty_listing() {
    let mut cache = MethodCache::new();
    let methods = desk(text(""), not_found(), text("fallback text"));
    let result = call(&mut cache, in_app("Empty Window"), &methods);
    assert_eq!(
        result,
        Ok(SelectedText {
            is_file_paths: true,
            app_name: String::from("Empty Window"),
            text: vec![String::new()],
        })
    );
    assert_eq!(ran(&methods), vec![Method::FilePaths { for_empty_window: true }]);
    assert_eq!(cache.len(), 0);
}

#[test]
fn no_window_at_all_is_the_desktop() {
    let mut cache = MethodCache::new();
    let methods = desk(text("\"/Users/me/Desktop/a.png\""), not_found(), not_found());
    let result = call(&mut cache, None, &methods);
    assert_eq!(
        result,
        Ok(SelectedText {
            is_file_paths: true,
            app_name: String::from("Empty Window"),
            text: vec![String::from("\"/Users/me/Desktop/a.png\"")],
        })
    );
    assert_eq!(ran(&methods), vec![Method::FilePaths { for_empty_window: true }]);
}

#[test]
fn as_many_paths_as_files_were_listed() {
    for count in 1..12usize {
        let paths: Vec<String> = (0..count).map(|n| format!("\"/tmp/file {n}.txt\"")).collect();
        let mut cache = MethodCache::new();
        let methods = desk(Ok(paths.join("\n")), not_found(), not_found());
        let selected = call(&mut cache, in_app("Finder"), &methods).unwrap();
        assert!(selected.is_file_paths);
        assert_eq!(selected.text.len(), count);
        assert_eq!(selected.text, paths);
    }
}

#[test]
fn first_call_asks_accessibility_before_the_clipboard() {
    let mut cache = MethodCache::new();
    let methods = desk(script_error("unused"), text(""), text("copied"));
    let result = call(&mut cache, in_app("Terminal"), &methods);
    assert_eq!(result, Ok(plain("Terminal", "copied")));
    assert_eq!(ran(&methods), vec![Method::Accessibility, Method::ClipboardScript]);
    assert_eq!(known(&mut cache, "Terminal"), Some(Outcome::PreferClipboardScript));
}

#[test]
fn after_accessibility_worked_the_clipboard_is_left_alone() {
    let mut cache = MethodCache::new();
    let first = desk(script_error("unused"), text("hello"), text("copied"));
    assert_eq!(call(&mut cache, in_app("Notes"), &first), Ok(plain("Notes", "hello")));
    let second = desk(script_error("unused"), text("again"), text("copied"));
    assert_eq!(call(&mut cache, in_app("Notes"), &second), Ok(plain("Notes", "again")));
    assert_eq!(ran(&second), vec![Method::Accessibility]);
    assert_eq!(known(&mut cache, "Notes"), Some(Outcome::PreferAccessibility));
}

#[test]
fn after_the_clipboard_worked_accessibility_is_never_asked() {
    let mut cache = MethodCache::new();
    let first = desk(script_error("unused"), not_found(), text("copied"));
    assert_eq!(call(&mut cache, in_app("Terminal"), &first), Ok(plain("Terminal", "copied")));
    assert_eq!(ran(&first), vec![Method::Accessibility, Method::ClipboardScript]);
    let second = desk(script_error("unused"), text("now it answers"), text("copied again"));
    assert_eq!(call(&mut cache, in_app("Terminal"), &second), Ok(plain("Terminal", "copied again")));
    assert_eq!(ran(&second), vec![Method::ClipboardScript]);
    let third = desk(script_error("unused"), text("now it answers"), text(""));
    assert_eq!(call(&mut cache, in_app("Terminal"), &third), Ok(plain("Terminal", "")));
    assert_eq!(ran(&third), vec![Method::ClipboardScript]);
    assert_eq!(known(&mut cache, "Terminal"), Some(Outcome::PreferClipboardScript));
}

#[test]
fn preference_for_accessibility_survives_a_miss() {
    let mut cache = MethodCache::new();
    let first = desk(script_error("unused"), text("hello"), text("copied"));
    assert_eq!(call(&mut cache, in_app("Notes"), &first), Ok(plain("Notes", "hello")));
    let miss = desk(script_error("unused"), text(""), text("copied"));
    assert_eq!(call(&mut cache, in_app("Notes"), &miss), Ok(plain("Notes", "copied")));
    assert_eq!(ran(&miss), vec![Method::Accessibility, Method::ClipboardScript]);
    let third = desk(script_error("unused"), text("back"), text("copied"));
    assert_eq!(call(&mut cache, in_app("Notes"), &third), Ok(plain("Notes", "back")));
    assert_eq!(ran(&third), vec![Method::Accessibility]);
    assert_eq!(known(&mut cache, "Notes"), Some(Outcome::PreferAccessibility));
}

#[test]
fn nothing_selected_anywhere_is_empty_text_and_stays_unknown() {
    let mut cache = MethodCache::new();
    let methods = desk(script_error("unused"), text(""), text(""));
    assert_eq!(call(&mut cache, in_app("Safari"), &methods), Ok(plain("Safari", "")));
    assert_eq!(ran(&methods), vec![Method::Accessibility, Method::ClipboardScript]);
    assert_eq!(cache.len(), 0);
    assert_eq!(call(&mut cache, in_app("Safari"), &methods), Ok(plain("Safari", "")));
    assert_eq!(ran(&methods), vec![Method::Accessibility, Method::ClipboardScript]);
}

#[test]
fn only_the_last_error_reaches_the_caller() {
    let mut cache = MethodCache::new();
    let methods = desk(
        script_error("listing failed"),
        not_found(),
        script_error("copy failed"),
    );
    assert_eq!(
        call(&mut cache, in_app("Finder"), &methods),
        Err(ExtractionError::ScriptExecution(String::from("copy failed")))
    );
    assert_eq!(
        ran(&methods),
        vec![
            Method::FilePaths { for_empty_window: false },
            Method::Accessibility,
            Method::ClipboardScript
        ]
    );
    assert_eq!(cache.len(), 0);
    assert_eq!(
        call(&mut cache, in_app("Notes"), &desk(not_found(), not_found(), Err(ExtractionError::Decode))),
        Err(ExtractionError::Decode)
    );
}

#[test]
fn accessibility_error_is_never_the_result() {
    let mut cache = MethodCache::new();
    let methods = desk(script_error("unused"), not_found(), text(""));
    assert_eq!(call(&mut cache, in_app("Notes"), &methods), Ok(plain("Notes", "")));
    assert_eq!(cache.len(), 0);
}

#[test]
fn file_manager_falls_back_by_what_the_cache_remembers() {
    let mut cache = MethodCache::new();
    let first = desk(script_error("listing failed"), text("a label"), text("copied"));
    assert_eq!(call(&mut cache, in_app("Finder"), &first), Ok(plain("Finder", "a label")));
    assert_eq!(known(&mut cache, "Finder"), Some(Outcome::PreferAccessibility));
    let second = desk(text("/a.txt"), text("a label"), text("copied"));
    let listed = call(&mut cache, in_app("Finder"), &second).unwrap();
    assert!(listed.is_file_paths);
    assert_eq!(ran(&second), vec![Method::FilePaths { for_empty_window: false }]);
}

#[test]
fn the_hundred_and_first_application_makes_the_first_unknown_again() {
    let mut cache = MethodCache::new();
    let copies = desk(script_error("unused"), not_found(), text("copied"));
    for number in 0..101 {
        let app_name = format!("app-{number}");
        assert_eq!(call(&mut cache, in_app(&app_name), &copies), Ok(plain(&app_name, "copied")));
    }
    assert_eq!(cache.len(), 100);
    assert_eq!(call(&mut cache, in_app("app-1"), &copies), Ok(plain("app-1", "copied")));
    assert_eq!(ran(&copies), vec![Method::ClipboardScript]);
    assert_eq!(call(&mut cache, in_app("app-0"), &copies), Ok(plain("app-0", "copied")));
    assert_eq!(ran(&copies), vec![Method::Accessibility, Method::ClipboardScript]);
}
