//! A whole call as a mathematical object.
//!
//! `select` says what a call gives, which methods it runs in which order,
//! and what the cache remembers afterwards, for every answer that the
//! methods could give. The lemmas say what follows for every call.

use crate::cache::{valid_memory, Memory, Outcome, CAPACITY};
use crate::lines::{joined, lemma_lines_of_joined, single_line};
use crate::recency::{lemma_promoted, lemma_stored, lookup, promoted, stored};
use crate::selector::{
    advanced, files_selected, gave_text, method_of, started, text_selected, Answer, Awaiting,
    ExtractionErrorView, Method, SelectedTextView, SelectorView, StepView, Verdict,
};
use crate::window::{is_no_active_app, lists_files};
use vstd::prelude::*;

verus! {

/// What each method answers when it is run.
pub struct Answers {
    pub file_paths: Answer,
    pub accessibility: Answer,
    pub clipboard: Answer,
}

impl Answers {
    /// What `method` answers.
    pub open spec fn answer_to(self, method: Method) -> Answer {
        match method {
            Method::FilePaths { .. } => self.file_paths,
            Method::Accessibility => self.accessibility,
            Method::ClipboardScript => self.clipboard,
        }
    }
}

/// A call in full: the methods it ran, in order; what the cache remembers
/// after it; what it gave.
pub struct Call {
    pub tried: Seq<Method>,
    pub memory: Memory,
    pub verdict: Verdict,
}

impl Call {
    /// The call with `method` run before it.
    pub open spec fn after(self, method: Method) -> Call {
        Call { tried: seq![method] + self.tried, memory: self.memory, verdict: self.verdict }
    }
}

/// The answer of the method that ends the search for text: its text, be it
/// empty, or its error.
pub open spec fn text_verdict(app_name: Seq<char>, answer: Answer) -> Verdict {
    match answer {
        Ok(text) => Ok(text_selected(app_name, text)),
        Err(error) => Err(error),
    }
}

/// The search for text.
///
/// An application remembered with `PreferClipboardScript` gets the
/// clipboard script alone. Every other one gets the accessibility tree, and
/// the clipboard script only where the tree gave no text. What gave text
/// for an unknown application is remembered; what is remembered already is
/// never written over.
pub open spec fn select_text(memory: Memory, app_name: Seq<char>, answers: Answers) -> Call {
    let recent = promoted(memory, app_name);
    let known = lookup(memory, app_name);
    if known == Some(Outcome::PreferClipboardScript) {
        Call {
            tried: seq![Method::ClipboardScript],
            memory: recent,
            verdict: text_verdict(app_name, answers.clipboard),
        }
    } else if gave_text(answers.accessibility) {
        Call {
            tried: seq![Method::Accessibility],
            memory: if known is None {
                stored(recent, CAPACITY as nat, app_name, Outcome::PreferAccessibility)
            } else {
                recent
            },
            verdict: text_verdict(app_name, answers.accessibility),
        }
    } else {
        Call {
            tried: seq![Method::Accessibility, Method::ClipboardScript],
            memory: if known is None && gave_text(answers.clipboard) {
                stored(recent, CAPACITY as nat, app_name, Outcome::PreferClipboardScript)
            } else {
                recent
            },
            verdict: text_verdict(app_name, answers.clipboard),
        }
    }
}

/// A call for `app_name`.
///
/// For the file manager and the desktop the files are listed first; a
/// listing ends the call, even an empty one, and leaves the cache alone. A
/// listing that failed is forgotten, and the call goes on to the search for
/// text, as it does at once for every other application.
pub open spec fn select(memory: Memory, app_name: Seq<char>, answers: Answers) -> Call {
    if lists_files(app_name) {
        let listing = Method::FilePaths { for_empty_window: is_no_active_app(app_name) };
        match answers.file_paths {
            Ok(text) => Call {
                tried: seq![listing],
                memory,
                verdict: Ok(files_selected(app_name, text)),
            },
            Err(_) => select_text(memory, app_name, answers).after(listing),
        }
    } else {
        select_text(memory, app_name, answers)
    }
}

/// The call comes to the search for text: it is for an application whose
/// files are not listed, or the listing failed.
pub open spec fn reaches_text(app_name: Seq<char>, answers: Answers) -> bool {
    !lists_files(app_name) || answers.file_paths is Err
}

/// Wherever the clipboard script was run, the accessibility tree was asked
/// before it.
pub open spec fn accessibility_before_clipboard(tried: Seq<Method>) -> bool {
    forall|j: int|
        0 <= j < tried.len() && #[trigger] tried[j] == Method::ClipboardScript ==> exists|i: int|
            0 <= i < j && #[trigger] tried[i] == Method::Accessibility
}

/// How many methods a step may still ask for.
pub open spec fn rank(step: StepView) -> nat {
    match step {
        StepView::Done(_) => 0,
        StepView::Try(selector) => method_rank(method_of(selector)),
    }
}

/// The place of a method in the order of a call, counted from the end.
pub open spec fn method_rank(method: Method) -> nat {
    match method {
        Method::FilePaths { .. } => 3,
        Method::Accessibility => 2,
        Method::ClipboardScript => 1,
    }
}

/// The call that follows from `step` when each method that is asked for is
/// run and answers as `answers` says.
pub open spec fn run(memory: Memory, step: StepView, answers: Answers) -> Call
    decreases rank(step),
{
    match step {
        StepView::Done(verdict) => Call { tried: Seq::empty(), memory, verdict },
        StepView::Try(selector) => {
            let method = method_of(selector);
            let next = advanced(memory, selector, answers.answer_to(method));
            run(next.0, next.1, answers).after(method)
        },
    }
}

/// Stepping through a call, from `Selector::start` by `Selector::advance`
/// to the end, is the call that `select` describes.
pub proof fn lemma_steps_select(memory: Memory, app_name: Seq<char>, answers: Answers)
    ensures
        run(started(memory, app_name).0, started(memory, app_name).1, answers) == select(
            memory,
            app_name,
            answers,
        ),
{
    reveal_with_fuel(run, 4);
    let first = started(memory, app_name);
    let walked = run(first.0, first.1, answers);
    let direct = select(memory, app_name, answers);
    assert(walked.tried =~= direct.tried);
    assert(walked.memory == direct.memory);
    assert(walked.verdict == direct.verdict);
}

/// A call leaves a valid memory valid: whatever is run and answered, the
/// cache remembers at most `CAPACITY` applications, each once.
pub proof fn lemma_call_keeps_memory_valid(memory: Memory, app_name: Seq<char>, answers: Answers)
    requires
        valid_memory(memory),
    ensures
        valid_memory(select(memory, app_name, answers).memory),
{
    lemma_promoted(memory, app_name);
    let recent = promoted(memory, app_name);
    lemma_stored(recent, CAPACITY as nat, app_name, Outcome::PreferAccessibility);
    lemma_stored(recent, CAPACITY as nat, app_name, Outcome::PreferClipboardScript);
}

/// For an application that the cache does not know, the clipboard script is
/// never run unless the accessibility tree was asked before it, and the
/// tree is asked in every call that comes to the search for text.
pub proof fn lemma_unknown_application_asks_accessibility_first(
    memory: Memory,
    app_name: Seq<char>,
    answers: Answers,
)
    requires
        lookup(memory, app_name) is None,
    ensures
        accessibility_before_clipboard(select(memory, app_name, answers).tried),
        reaches_text(app_name, answers) ==> select(memory, app_name, answers).tried.contains(
            Method::Accessibility,
        ),
{
    let tried = select(memory, app_name, answers).tried;
    if reaches_text(app_name, answers) {
        let at = if lists_files(app_name) {
            1int
        } else {
            0int
        };
        assert(tried[at] == Method::Accessibility);
    }
    assert forall|j: int|
        0 <= j < tried.len() && #[trigger] tried[j] == Method::ClipboardScript implies exists|
        i: int,
    |
        0 <= i < j && #[trigger] tried[i] == Method::Accessibility by {
        assert(tried[j - 1] == Method::Accessibility);
    }
}

/// What gave text for an unknown application is remembered by the end of
/// the call, and where nothing gave text the application stays unknown, to
/// be tried again.
pub proof fn lemma_unknown_application_is_learned(
    memory: Memory,
    app_name: Seq<char>,
    answers: Answers,
)
    requires
        valid_memory(memory),
        lookup(memory, app_name) is None,
        reaches_text(app_name, answers),
    ensures
        lookup(select(memory, app_name, answers).memory, app_name) == if gave_text(
            answers.accessibility,
        ) {
            Some(Outcome::PreferAccessibility)
        } else if gave_text(answers.clipboard) {
            Some(Outcome::PreferClipboardScript)
        } else {
            None
        },
{
    lemma_promoted(memory, app_name);
    lemma_stored(memory, CAPACITY as nat, app_name, Outcome::PreferAccessibility);
    lemma_stored(memory, CAPACITY as nat, app_name, Outcome::PreferClipboardScript);
}

/// An application enters the memory only in a call for it in which a method
/// gave text: no failure is ever remembered, and no call remembers anything
/// for another application.
pub proof fn lemma_only_text_is_remembered(
    memory: Memory,
    app_name: Seq<char>,
    answers: Answers,
    other: Seq<char>,
)
    requires
        valid_memory(memory),
        lookup(memory, other) is None,
        lookup(select(memory, app_name, answers).memory, other) is Some,
    ensures
        other == app_name,
        reaches_text(app_name, answers),
        gave_text(answers.accessibility) || gave_text(answers.clipboard),
{
    lemma_promoted(memory, app_name);
    let recent = promoted(memory, app_name);
    lemma_stored(recent, CAPACITY as nat, app_name, Outcome::PreferAccessibility);
    lemma_stored(recent, CAPACITY as nat, app_name, Outcome::PreferClipboardScript);
}

/// After a call that left `PreferAccessibility` in the cache for an
/// application, a call for it in which the accessibility tree gives text
/// does not run the clipboard script.
pub proof fn lemma_accessible_text_spares_clipboard(
    memory: Memory,
    app_name: Seq<char>,
    earlier: Answers,
    answers: Answers,
)
    requires
        lookup(select(memory, app_name, earlier).memory, app_name) == Some(
            Outcome::PreferAccessibility,
        ),
        gave_text(answers.accessibility),
    ensures
        !select(select(memory, app_name, earlier).memory, app_name, answers).tried.contains(
            Method::ClipboardScript,
        ),
{
}

/// After a call that left `PreferClipboardScript` in the cache for an
/// application, a call for it never asks the accessibility tree; unless its
/// files are listed first, the clipboard script is all that it runs.
pub proof fn lemma_clipboard_preference_skips_accessibility(
    memory: Memory,
    app_name: Seq<char>,
    earlier: Answers,
    answers: Answers,
)
    requires
        lookup(select(memory, app_name, earlier).memory, app_name) == Some(
            Outcome::PreferClipboardScript,
        ),
    ensures
        !select(select(memory, app_name, earlier).memory, app_name, answers).tried.contains(
            Method::Accessibility,
        ),
        !lists_files(app_name) ==> select(
            select(memory, app_name, earlier).memory,
            app_name,
            answers,
        ).tried == seq![Method::ClipboardScript],
{
}

/// An outcome that is remembered for an application outlasts every call for
/// it, whatever the methods answer. A call in which the accessibility tree
/// gives no text does not turn `PreferAccessibility` into
/// `PreferClipboardScript`.
pub proof fn lemma_preference_outlasts_call(
    memory: Memory,
    app_name: Seq<char>,
    answers: Answers,
)
    requires
        valid_memory(memory),
        lookup(memory, app_name) is Some,
    ensures
        lookup(select(memory, app_name, answers).memory, app_name) == lookup(memory, app_name),
{
    lemma_promoted(memory, app_name);
}

/// A listing of paths, each on a line of its own, comes back from a call for
/// the file manager or the desktop as those paths, as many as were listed.
pub proof fn lemma_listing_gives_each_path(
    memory: Memory,
    app_name: Seq<char>,
    answers: Answers,
    paths: Seq<Seq<char>>,
)
    requires
        lists_files(app_name),
        paths.len() >= 1,
        forall|i: int| 0 <= i < paths.len() ==> single_line(#[trigger] paths[i]),
        answers.file_paths == Ok::<Seq<char>, ExtractionErrorView>(joined(paths)),
    ensures
        select(memory, app_name, answers).verdict == Ok::<SelectedTextView, ExtractionErrorView>(
            SelectedTextView { is_file_paths: true, app_name, text: paths },
        ),
        select(memory, app_name, answers).verdict->Ok_0.text.len() == paths.len(),
        select(memory, app_name, answers).memory == memory,
{
    lemma_lines_of_joined(paths);
}

/// A listing that failed does not end the call: the selector asks for
/// another method, and the call is the search for text with the listing run
/// before it.
pub proof fn lemma_failed_listing_falls_through(
    memory: Memory,
    app_name: Seq<char>,
    answers: Answers,
)
    requires
        lists_files(app_name),
        answers.file_paths is Err,
    ensures
        advanced(
            memory,
            SelectorView { app_name, awaiting: Awaiting::FilePaths },
            answers.file_paths,
        ).1 is Try,
        select(memory, app_name, answers) == select_text(memory, app_name, answers).after(
            Method::FilePaths { for_empty_window: is_no_active_app(app_name) },
        ),
{
}

/// A call fails only with the error of the clipboard script, the last
/// method that it ran: an error of the listing or of the accessibility
/// tree never reaches the caller.
pub proof fn lemma_only_last_error_surfaces(
    memory: Memory,
    app_name: Seq<char>,
    answers: Answers,
)
    requires
        select(memory, app_name, answers).verdict is Err,
    ensures
        select(memory, app_name, answers).tried.last() == Method::ClipboardScript,
        answers.clipboard is Err,
        select(memory, app_name, answers).verdict->Err_0 == answers.clipboard->Err_0,
{
}

/// What a call gives is for the application it was made for. It is a list
/// of files only where a listing came back; text is always one element, be
/// it empty.
pub proof fn lemma_selected_shape(memory: Memory, app_name: Seq<char>, answers: Answers)
    requires
        select(memory, app_name, answers).verdict is Ok,
    ensures
        select(memory, app_name, answers).verdict->Ok_0.app_name == app_name,
        select(memory, app_name, answers).verdict->Ok_0.is_file_paths == !reaches_text(
            app_name,
            answers,
        ),
        reaches_text(app_name, answers) ==> select(
            memory,
            app_name,
            answers,
        ).verdict->Ok_0.text.len() == 1,
{
}

} // verus!
