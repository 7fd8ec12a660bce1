//! Reading the selection: the call that the selector steers.

use crate::call::{lemma_steps_select, method_rank, rank, run, select, Answers};
use crate::cache::{Memory, MethodCache};
use crate::selector::{
    advanced, answer_view, method_of, started, verdict_view, ExtractionError, Method, Reading,
    SelectedText, Selector, SelectorView, Step, StepView,
};
use crate::window::{get_window_meta, window_meta, ActiveWindow};
use vstd::prelude::*;

verus! {

/// What the three methods gave, or would have given, in one call.
pub struct Readings {
    pub file_paths: Reading,
    pub accessibility: Reading,
    pub clipboard: Reading,
}

impl Readings {
    /// What `method` gave.
    pub open spec fn reading_of(self, method: Method) -> Reading {
        match method {
            Method::FilePaths { .. } => self.file_paths,
            Method::Accessibility => self.accessibility,
            Method::ClipboardScript => self.clipboard,
        }
    }

    /// The readings with that of `method` replaced.
    spec fn with(self, method: Method, reading: Reading) -> Readings {
        match method {
            Method::FilePaths { .. } => Readings { file_paths: reading, ..self },
            Method::Accessibility => Readings { accessibility: reading, ..self },
            Method::ClipboardScript => Readings { clipboard: reading, ..self },
        }
    }
}

impl View for Readings {
    type V = Answers;

    open spec fn view(&self) -> Answers {
        Answers {
            file_paths: answer_view(self.file_paths),
            accessibility: answer_view(self.accessibility),
            clipboard: answer_view(self.clipboard),
        }
    }
}

/// `reading` is something that running `method` can give.
pub open spec fn can_give<P, A, C>(
    file_paths: P,
    accessibility: A,
    clipboard: C,
    method: Method,
    reading: Reading,
) -> bool where P: Fn(bool) -> Reading, A: Fn() -> Reading, C: Fn() -> Reading {
    match method {
        Method::FilePaths { for_empty_window } => file_paths.ensures((for_empty_window,), reading),
        Method::Accessibility => accessibility.ensures((), reading),
        Method::ClipboardScript => clipboard.ensures((), reading),
    }
}

/// Each method in `tried` can give what `readings` holds for it.
pub open spec fn can_give_all<P, A, C>(
    file_paths: P,
    accessibility: A,
    clipboard: C,
    tried: Seq<Method>,
    readings: Readings,
) -> bool where P: Fn(bool) -> Reading, A: Fn() -> Reading, C: Fn() -> Reading {
    forall|i: int|
        0 <= i < tried.len() ==> can_give(
            file_paths,
            accessibility,
            clipboard,
            #[trigger] tried[i],
            readings.reading_of(tried[i]),
        )
}

/// `readings` account for a call for `app_name`: the call that `select`
/// describes for them ran only methods that can give them, turned the
/// memory `before` into `memory`, and ended in `result`.
pub open spec fn accounts_for<P, A, C>(
    readings: Readings,
    file_paths: P,
    accessibility: A,
    clipboard: C,
    before: Memory,
    app_name: Seq<char>,
    memory: Memory,
    result: Result<SelectedText, ExtractionError>,
) -> bool where P: Fn(bool) -> Reading, A: Fn() -> Reading, C: Fn() -> Reading {
    let call = select(before, app_name, readings@);
    &&& call.memory == memory
    &&& call.verdict == verdict_view(result)
    &&& can_give_all(file_paths, accessibility, clipboard, call.tried, readings)
}

/// On the methods in `tried`, `answers` are what `seen` holds.
spec fn agree(answers: Answers, seen: Answers, tried: Seq<Method>) -> bool {
    forall|i: int|
        0 <= i < tried.len() ==> answers.answer_to(#[trigger] tried[i]) == seen.answer_to(tried[i])
}

/// Every method in `tried` comes before the one that `step` asks for.
spec fn all_before(tried: Seq<Method>, step: StepView) -> bool {
    forall|i: int| 0 <= i < tried.len() ==> method_rank(#[trigger] tried[i]) > rank(step)
}

/// The call that began with `first` has come to `step` by running `tried`.
spec fn resumes(
    first: (Memory, StepView),
    tried: Seq<Method>,
    memory: Memory,
    step: StepView,
    answers: Answers,
) -> bool {
    let whole = run(first.0, first.1, answers);
    let rest = run(memory, step, answers);
    &&& whole.tried == tried + rest.tried
    &&& whole.memory == rest.memory
    &&& whole.verdict == rest.verdict
}

/// A call that has come to a waiting selector comes to the next step by
/// running the method that the selector asks for.
proof fn lemma_resumes_after_step(
    first: (Memory, StepView),
    tried: Seq<Method>,
    memory: Memory,
    selector: SelectorView,
    answers: Answers,
)
    requires
        resumes(first, tried, memory, StepView::Try(selector), answers),
    ensures
        resumes(
            first,
            tried.push(method_of(selector)),
            advanced(memory, selector, answers.answer_to(method_of(selector))).0,
            advanced(memory, selector, answers.answer_to(method_of(selector))).1,
            answers,
        ),
        rank(advanced(memory, selector, answers.answer_to(method_of(selector))).1) < rank(
            StepView::Try(selector),
        ),
{
    let method = method_of(selector);
    let next = advanced(memory, selector, answers.answer_to(method));
    let rest = run(next.0, next.1, answers);
    assert(run(memory, StepView::Try(selector), answers) == rest.after(method));
    assert(tried + (seq![method] + rest.tried) =~= tried.push(method) + rest.tried);
}

/// Reads what the user has selected in the application that has the focus.
///
/// `active_window` is what the window system reports. The three methods are
/// run through `file_paths`, `accessibility` and `clipboard`, each only when
/// `Selector` asks for it; `file_paths` is told whether to list the desktop.
///
/// The call is the one that `select` describes, for readings that the
/// methods it names can give: it ends in that call's verdict and leaves that
/// call's memory in the cache.
pub fn get_selected_text<P, A, C>(
    cache: &mut MethodCache,
    active_window: Option<ActiveWindow>,
    file_paths: P,
    accessibility: A,
    clipboard: C,
) -> (result: Result<SelectedText, ExtractionError>) where
    P: Fn(bool) -> Reading,
    A: Fn() -> Reading,
    C: Fn() -> Reading,

    requires
        old(cache).wf(),
        forall|for_empty_window: bool| file_paths.requires((for_empty_window,)),
        accessibility.requires(()),
        clipboard.requires(()),
    ensures
        final(cache).wf(),
        exists|readings: Readings| #[trigger]
            accounts_for(
                readings,
                file_paths,
                accessibility,
                clipboard,
                old(cache)@,
                window_meta(active_window).0,
                final(cache)@,
                result,
            ),
{
    let (app_name, _) = get_window_meta(active_window);
    let ghost first = started(cache@, app_name@);
    let ghost mut seen = Readings {
        file_paths: Err(ExtractionError::NotFound),
        accessibility: Err(ExtractionError::NotFound),
        clipboard: Err(ExtractionError::NotFound),
    };
    let ghost mut tried = Seq::<Method>::empty();
    let mut step = Selector::start(cache, app_name);
    proof {
        assert forall|answers: Answers| #[trigger] resumes(first, tried, cache@, step@, answers) by {
            assert(tried + run(cache@, step@, answers).tried =~= run(cache@, step@, answers).tried);
        }
    }
    loop
        invariant
            cache.wf(),
            forall|for_empty_window: bool| file_paths.requires((for_empty_window,)),
            accessibility.requires(()),
            clipboard.requires(()),
            first == started(old(cache)@, window_meta(active_window).0),
            forall|answers: Answers|
                agree(answers, seen@, tried) ==> #[trigger] resumes(
                    first,
                    tried,
                    cache@,
                    step@,
                    answers,
                ),
            all_before(tried, step@),
            can_give_all(file_paths, accessibility, clipboard, tried, seen),
        decreases rank(step@),
    {
        match step {
            Step::Done(result) => {
                proof {
                    assert(resumes(first, tried, cache@, step@, seen@));
                    assert(tried + Seq::<Method>::empty() =~= tried);
                    lemma_steps_select(old(cache)@, window_meta(active_window).0, seen@);
                    assert(accounts_for(
                        seen,
                        file_paths,
                        accessibility,
                        clipboard,
                        old(cache)@,
                        window_meta(active_window).0,
                        cache@,
                        result,
                    ));
                }
                return result;
            },
            Step::Try(selector) => {
                let method = selector.method();
                let reading = match method {
                    Method::FilePaths { for_empty_window } => file_paths(for_empty_window),
                    Method::Accessibility => accessibility(),
                    Method::ClipboardScript => clipboard(),
                };
                let ghost memory = cache@;
                let ghost earlier = seen;
                let ghost ran = tried;
                proof {
                    seen = seen.with(method, reading);
                    tried = tried.push(method);
                }
                step = selector.advance(cache, reading);
                proof {
                    lemma_resumes_after_step(first, ran, memory, selector@, seen@);
                    assert forall|i: int| 0 <= i < tried.len() implies method_rank(
                        #[trigger] tried[i],
                    ) > rank(step@) && can_give(
                        file_paths,
                        accessibility,
                        clipboard,
                        tried[i],
                        seen.reading_of(tried[i]),
                    ) by {
                        if i < ran.len() {
                            assert(tried[i] == ran[i]);
                        }
                    }
                    assert forall|answers: Answers| agree(answers, seen@, tried) implies #[trigger] resumes(
                        first,
                        tried,
                        cache@,
                        step@,
                        answers,
                    ) by {
                        assert forall|i: int| 0 <= i < ran.len() implies answers.answer_to(
                            #[trigger] ran[i],
                        ) == earlier@.answer_to(ran[i]) by {
                            assert(tried[i] == ran[i]);
                        }
                        assert(tried[ran.len() as int] == method);
                        lemma_resumes_after_step(first, ran, memory, selector@, answers);
                    }
                }
            },
        }
    }
}

} // verus!
