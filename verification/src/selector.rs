//! The selector: which way of reading the selection to try next.
//!
//! A selection can be read in three ways. The file manager can be asked for
//! the paths of the selected files; the accessibility tree can be asked for
//! the selected text of the focused element; a copy can be simulated and the
//! clipboard read. The first is only for the file manager and the desktop.
//! The second is quiet but many applications do not answer it; the third
//! always works but disturbs the user. The selector tries them in the order
//! that the cache of earlier outcomes suggests, and remembers what worked.
//!
//! The selector itself reads nothing. `Selector::start` and
//! `Selector::advance` say which method to run next; the caller runs it and
//! hands back what it gave.

use crate::cache::{MethodCache, Memory, Outcome, CAPACITY};
use crate::lines::{lines_of, split_lines};
use crate::recency::{lookup, promoted, stored};
use crate::window::{is_no_active_app, lists_files, names_file_manager, names_no_active_app};
use vstd::prelude::*;

verus! {

/// Why a method gave no text.
#[derive(Clone, Debug, PartialEq, Eq)]
pub enum ExtractionError {
    /// No element has the focus, or it does not tell its selected text.
    NotFound,
    /// The script did not run to a good end; what it wrote of the failure.
    ScriptExecution(String),
    /// The script's answer is not text.
    Decode,
}

/// An `ExtractionError` as a mathematical value.
pub enum ExtractionErrorView {
    NotFound,
    ScriptExecution(Seq<char>),
    Decode,
}

impl View for ExtractionError {
    type V = ExtractionErrorView;

    open spec fn view(&self) -> ExtractionErrorView {
        match self {
            ExtractionError::NotFound => ExtractionErrorView::NotFound,
            ExtractionError::ScriptExecution(message) => ExtractionErrorView::ScriptExecution(
                message@,
            ),
            ExtractionError::Decode => ExtractionErrorView::Decode,
        }
    }
}

/// What the user has selected.
#[derive(Clone, Debug, PartialEq, Eq)]
pub struct SelectedText {
    /// `text` holds paths of files, one in each element.
    pub is_file_paths: bool,
    /// The application that had the focus.
    pub app_name: String,
    /// The selected text as one element, or the paths of the selected files.
    pub text: Vec<String>,
}

/// A `SelectedText` as a mathematical value.
pub struct SelectedTextView {
    pub is_file_paths: bool,
    pub app_name: Seq<char>,
    pub text: Seq<Seq<char>>,
}

impl View for SelectedText {
    type V = SelectedTextView;

    open spec fn view(&self) -> SelectedTextView {
        SelectedTextView {
            is_file_paths: self.is_file_paths,
            app_name: self.app_name@,
            text: self.text.deep_view(),
        }
    }
}

/// A way of reading the selection.
#[derive(Clone, Copy, Debug, PartialEq, Eq, Structural)]
pub enum Method {
    /// Ask the file manager for the selected files: in its front window, or
    /// on the desktop where no application has the focus.
    FilePaths { for_empty_window: bool },
    /// Read the selected text of the focused element.
    Accessibility,
    /// Simulate a copy and read the clipboard.
    ClipboardScript,
}

/// What a method gave: text, or the reason why not.
pub type Reading = Result<String, ExtractionError>;

/// A reading as a mathematical value.
pub type Answer = Result<Seq<char>, ExtractionErrorView>;

/// What a call gives in the end, as a mathematical value.
pub type Verdict = Result<SelectedTextView, ExtractionErrorView>;

/// The answer that a reading stands for.
pub open spec fn answer_view(reading: Reading) -> Answer {
    match reading {
        Ok(text) => Ok(text@),
        Err(error) => Err(error@),
    }
}

/// The verdict that a result stands for.
pub open spec fn verdict_view(result: Result<SelectedText, ExtractionError>) -> Verdict {
    match result {
        Ok(selected) => Ok(selected@),
        Err(error) => Err(error@),
    }
}

/// The method gave text, and not the empty text that stands for "nothing is
/// selected".
pub open spec fn gave_text(answer: Answer) -> bool {
    answer matches Ok(text) && text.len() > 0
}

/// What the selector is waiting for.
#[derive(Clone, Copy, Debug, PartialEq, Eq, Structural)]
pub enum Awaiting {
    /// The listing of the selected files.
    FilePaths,
    /// The answer of the accessibility tree. `preferred`: the cache already
    /// holds `PreferAccessibility` for the application.
    Accessibility { preferred: bool },
    /// The answer of the clipboard script. `record`: the application was
    /// unknown, so that text from the script is worth remembering.
    ClipboardScript { record: bool },
}

/// A call that has not ended: the application it is for, and the method
/// whose answer it needs next.
#[derive(Debug)]
pub struct Selector {
    app_name: String,
    awaiting: Awaiting,
}

/// A `Selector` as a mathematical value.
pub struct SelectorView {
    pub app_name: Seq<char>,
    pub awaiting: Awaiting,
}

impl View for Selector {
    type V = SelectorView;

    closed spec fn view(&self) -> SelectorView {
        SelectorView { app_name: self.app_name@, awaiting: self.awaiting }
    }
}

/// What to do next.
#[derive(Debug)]
pub enum Step {
    /// Run `Selector::method` and hand its answer to `Selector::advance`.
    Try(Selector),
    /// The call has ended with this result.
    Done(Result<SelectedText, ExtractionError>),
}

/// A `Step` as a mathematical value.
pub enum StepView {
    Try(SelectorView),
    Done(Verdict),
}

impl View for Step {
    type V = StepView;

    open spec fn view(&self) -> StepView {
        match self {
            Step::Try(selector) => StepView::Try(selector@),
            Step::Done(result) => StepView::Done(verdict_view(*result)),
        }
    }
}

/// The method that a waiting selector wants run.
pub open spec fn method_of(selector: SelectorView) -> Method {
    match selector.awaiting {
        Awaiting::FilePaths => Method::FilePaths {
            for_empty_window: is_no_active_app(selector.app_name),
        },
        Awaiting::Accessibility { .. } => Method::Accessibility,
        Awaiting::ClipboardScript { .. } => Method::ClipboardScript,
    }
}

/// Text from `app_name`, as a result.
pub open spec fn text_selected(app_name: Seq<char>, text: Seq<char>) -> SelectedTextView {
    SelectedTextView { is_file_paths: false, app_name, text: seq![text] }
}

/// The files listed in `listing`, as a result.
pub open spec fn files_selected(app_name: Seq<char>, listing: Seq<char>) -> SelectedTextView {
    SelectedTextView { is_file_paths: true, app_name, text: lines_of(listing) }
}

/// Entering the search for text: the cache is asked what worked before, and
/// the application becomes its most recently used.
pub open spec fn text_started(memory: Memory, app_name: Seq<char>) -> (Memory, StepView) {
    let awaiting = match lookup(memory, app_name) {
        Some(Outcome::PreferAccessibility) => Awaiting::Accessibility { preferred: true },
        Some(Outcome::PreferClipboardScript) => Awaiting::ClipboardScript { record: false },
        None => Awaiting::Accessibility { preferred: false },
    };
    (promoted(memory, app_name), StepView::Try(SelectorView { app_name, awaiting }))
}

/// The first step of a call for `app_name`, and the cache after it.
pub open spec fn started(memory: Memory, app_name: Seq<char>) -> (Memory, StepView) {
    if lists_files(app_name) {
        (memory, StepView::Try(SelectorView { app_name, awaiting: Awaiting::FilePaths }))
    } else {
        text_started(memory, app_name)
    }
}

/// The step that follows when the method that `selector` waited for gave
/// `answer`, and the cache after it.
pub open spec fn advanced(memory: Memory, selector: SelectorView, answer: Answer) -> (
    Memory,
    StepView,
) {
    let app_name = selector.app_name;
    match selector.awaiting {
        Awaiting::FilePaths => match answer {
            Ok(listing) => (memory, StepView::Done(Ok(files_selected(app_name, listing)))),
            Err(_) => text_started(memory, app_name),
        },
        Awaiting::Accessibility { preferred } => if gave_text(answer) {
            (
                if preferred {
                    memory
                } else {
                    stored(memory, CAPACITY as nat, app_name, Outcome::PreferAccessibility)
                },
                StepView::Done(Ok(text_selected(app_name, answer->Ok_0))),
            )
        } else {
            (
                memory,
                StepView::Try(
                    SelectorView { app_name, awaiting: Awaiting::ClipboardScript { record: !preferred } },
                ),
            )
        },
        Awaiting::ClipboardScript { record } => match answer {
            Ok(text) => (
                if record && text.len() > 0 {
                    stored(memory, CAPACITY as nat, app_name, Outcome::PreferClipboardScript)
                } else {
                    memory
                },
                StepView::Done(Ok(text_selected(app_name, text))),
            ),
            Err(error) => (memory, StepView::Done(Err(error))),
        },
    }
}

impl Selector {
    /// The method to run next.
    pub fn method(&self) -> (method: Method)
        ensures
            method == method_of(self@),
    {
        match self.awaiting {
            Awaiting::FilePaths => Method::FilePaths {
                for_empty_window: names_no_active_app(&self.app_name),
            },
            Awaiting::Accessibility { .. } => Method::Accessibility,
            Awaiting::ClipboardScript { .. } => Method::ClipboardScript,
        }
    }

    /// Enters the search for text.
    fn start_text(cache: &mut MethodCache, app_name: String) -> (step: Step)
        requires
            old(cache).wf(),
        ensures
            final(cache).wf(),
            (final(cache)@, step@) == text_started(old(cache)@, app_name@),
    {
        let awaiting = match cache.get(app_name.as_str()) {
            Some(Outcome::PreferAccessibility) => Awaiting::Accessibility { preferred: true },
            Some(Outcome::PreferClipboardScript) => Awaiting::ClipboardScript { record: false },
            None => Awaiting::Accessibility { preferred: false },
        };
        Step::Try(Selector { app_name, awaiting })
    }

    /// Begins a call for the application that has the focus.
    ///
    /// For the file manager and the desktop the files are listed first. For
    /// any other application the call goes by the cache: an application that
    /// is remembered with `PreferClipboardScript` gets the clipboard script
    /// at once, every other one the accessibility tree.
    pub fn start(cache: &mut MethodCache, app_name: String) -> (step: Step)
        requires
            old(cache).wf(),
        ensures
            final(cache).wf(),
            (final(cache)@, step@) == started(old(cache)@, app_name@),
    {
        if names_file_manager(&app_name) || names_no_active_app(&app_name) {
            Step::Try(Selector { app_name, awaiting: Awaiting::FilePaths })
        } else {
            Selector::start_text(cache, app_name)
        }
    }

    /// Takes the answer of the method that was to be run.
    ///
    /// A listing of files ends the call, one line for each path; a listing
    /// that failed sends the call on to the search for text. Text from the
    /// accessibility tree ends the call, and is remembered for an
    /// application that was unknown; no text from it sends the call on to
    /// the clipboard script, whose answer ends the call whatever it is, and
    /// is remembered where it is text and the application was unknown.
    pub fn advance(self, cache: &mut MethodCache, reading: Reading) -> (step: Step)
        requires
            old(cache).wf(),
        ensures
            final(cache).wf(),
            (final(cache)@, step@) == advanced(old(cache)@, self@, answer_view(reading)),
    {
        let Selector { app_name, awaiting } = self;
        match awaiting {
            Awaiting::FilePaths => match reading {
                Ok(listing) => Step::Done(
                    Ok(
                        SelectedText {
                            is_file_paths: true,
                            app_name,
                            text: split_lines(listing.as_str()),
                        },
                    ),
                ),
                Err(_) => Selector::start_text(cache, app_name),
            },
            Awaiting::Accessibility { preferred } => match reading {
                Ok(text) => {
                    if text.as_str().is_empty() {
                        Step::Try(
                            Selector { app_name, awaiting: Awaiting::ClipboardScript { record: !preferred } },
                        )
                    } else {
                        if !preferred {
                            cache.put(app_name.clone(), Outcome::PreferAccessibility);
                        }
                        Step::Done(Ok(text_from(app_name, text)))
                    }
                },
                Err(_) => Step::Try(
                    Selector { app_name, awaiting: Awaiting::ClipboardScript { record: !preferred } },
                ),
            },
            Awaiting::ClipboardScript { record } => match reading {
                Ok(text) => {
                    if record && !text.as_str().is_empty() {
                        cache.put(app_name.clone(), Outcome::PreferClipboardScript);
                    }
                    Step::Done(Ok(text_from(app_name, text)))
                },
                Err(error) => Step::Done(Err(error)),
            },
        }
    }
}

/// The selected text of an application, as a result of one element.
fn text_from(app_name: String, text: String) -> (selected: SelectedText)
    ensures
        selected@ == text_selected(app_name@, text@),
{
    let mut elements: Vec<String> = Vec::new();
    elements.push(text);
    let selected = SelectedText { is_file_paths: false, app_name, text: elements };
    assert(selected.text.deep_view() =~= seq![text@]);
    selected
}

} // verus!
