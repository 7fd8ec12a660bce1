//! The application that has the focus, and the two names that send a
//! selection to the file listing.

use vstd::prelude::*;

verus! {

/// The name under which the file manager reports itself.
pub const FILE_MANAGER: &'static str = "Finder";

/// The name that stands for "no application has the focus": the user is
/// looking at the desktop.
pub const NO_ACTIVE_APP: &'static str = "Empty Window";

/// What the window system reports of the focused window.
#[derive(Clone, Debug, PartialEq, Eq)]
pub struct ActiveWindow {
    pub app_name: String,
    pub title: String,
}

/// The name is that of the file manager.
pub open spec fn is_file_manager(app_name: Seq<char>) -> bool {
    app_name == FILE_MANAGER@
}

/// The name stands for "no application has the focus".
pub open spec fn is_no_active_app(app_name: Seq<char>) -> bool {
    app_name == NO_ACTIVE_APP@
}

/// A selection under this name is looked for among files first.
pub open spec fn lists_files(app_name: Seq<char>) -> bool {
    is_file_manager(app_name) || is_no_active_app(app_name)
}

/// The name and title that stand for the report of the window system.
pub open spec fn window_meta(active_window: Option<ActiveWindow>) -> (Seq<char>, Seq<char>) {
    match active_window {
        Some(window) => (window.app_name@, window.title@),
        None => (NO_ACTIVE_APP@, NO_ACTIVE_APP@),
    }
}

/// Whether the name is that of the file manager.
pub fn names_file_manager(app_name: &String) -> (yes: bool)
    ensures
        yes == is_file_manager(app_name@),
{
    *app_name == FILE_MANAGER.to_owned()
}

/// Whether the name stands for "no application has the focus".
pub fn names_no_active_app(app_name: &String) -> (yes: bool)
    ensures
        yes == is_no_active_app(app_name@),
{
    *app_name == NO_ACTIVE_APP.to_owned()
}

/// The application name and window title of the focused window. Where the
/// window system reported no window, both are `NO_ACTIVE_APP`.
pub fn get_window_meta(active_window: Option<ActiveWindow>) -> (meta: (String, String))
    ensures
        (meta.0@, meta.1@) == window_meta(active_window),
{
    match active_window {
        Some(window) => (window.app_name, window.title),
        None => (NO_ACTIVE_APP.to_owned(), NO_ACTIVE_APP.to_owned()),
    }
}

/// Whether the focus is on the file manager or on no application at all.
pub fn in_finder_or_empty_window(active_window: Option<ActiveWindow>) -> (yes: bool)
    ensures
        yes == lists_files(window_meta(active_window).0),
{
    let (app_name, _) = get_window_meta(active_window);
    names_file_manager(&app_name) || names_no_active_app(&app_name)
}

} // verus!
