//! The diagnostic aggregator: the one consumer of the diagnostics that the
//! file processors send.
//!
//! It counts every diagnostic it receives, as a warning or as an error, and
//! decides which of them are shown. Quiet mode hides warnings. So does the
//! warning threshold, once more warnings have been counted than it allows.
//! Neither changes what is counted.

use crate::diagnostic::{
    lemma_push_deep_view, BatchView, Diagnostic, DiagnosticTuple, DiagnosticView, NamedSource,
};
use crate::line_guard::{any_minified, exceeds_line_guard};
use std::sync::Arc;
use vstd::prelude::*;

verus! {

/// Counts diagnostics and decides which of them are shown.
pub struct DiagnosticService {
    /// Disable reporting on warnings, only errors are reported
    quiet: bool,
    /// Specify a warning threshold,
    /// which can be used to force exit with an error status if there are too
    /// many warning-level rule violations in your project
    max_warnings: Option<usize>,
    /// Total number of warnings received
    warnings_count: usize,
    /// Total number of errors received
    errors_count: usize,
}

/// What a [`DiagnosticService`] holds.
pub struct ServiceView {
    pub quiet: bool,
    pub max_warnings: Option<usize>,
    pub warnings: nat,
    pub errors: nat,
}

impl View for DiagnosticService {
    type V = ServiceView;

    closed spec fn view(&self) -> ServiceView {
        ServiceView {
            quiet: self.quiet,
            max_warnings: self.max_warnings,
            warnings: self.warnings_count as nat,
            errors: self.errors_count as nat,
        }
    }
}

/// How many of `diagnostics` are warnings.
pub open spec fn warnings_in(diagnostics: Seq<DiagnosticView>) -> nat
    decreases diagnostics.len(),
{
    if diagnostics.len() == 0 {
        0
    } else {
        warnings_in(diagnostics.drop_last()) + if diagnostics.last().is_warning() {
            1nat
        } else {
            0nat
        }
    }
}

/// How many of `diagnostics` count as errors.
pub open spec fn errors_in(diagnostics: Seq<DiagnosticView>) -> nat
    decreases diagnostics.len(),
{
    if diagnostics.len() == 0 {
        0
    } else {
        errors_in(diagnostics.drop_last()) + if diagnostics.last().is_error() {
            1nat
        } else {
            0nat
        }
    }
}

/// The warnings among `diagnostics`, in their order.
pub open spec fn warnings_of(diagnostics: Seq<DiagnosticView>) -> Seq<DiagnosticView>
    decreases diagnostics.len(),
{
    if diagnostics.len() == 0 {
        Seq::empty()
    } else if diagnostics.last().is_warning() {
        warnings_of(diagnostics.drop_last()).push(diagnostics.last())
    } else {
        warnings_of(diagnostics.drop_last())
    }
}

/// Those of `diagnostics` that count as errors, in their order.
pub open spec fn errors_of(diagnostics: Seq<DiagnosticView>) -> Seq<DiagnosticView>
    decreases diagnostics.len(),
{
    if diagnostics.len() == 0 {
        Seq::empty()
    } else if diagnostics.last().is_error() {
        errors_of(diagnostics.drop_last()).push(diagnostics.last())
    } else {
        errors_of(diagnostics.drop_last())
    }
}

/// The texts one after the other.
pub open spec fn concat(texts: Seq<Seq<char>>) -> Seq<char>
    decreases texts.len(),
{
    if texts.len() == 0 {
        Seq::empty()
    } else {
        concat(texts.drop_last()) + texts.last()
    }
}

/// What is printed for one file whose shown diagnostics were rendered as
/// `rendered`: the renderings one after the other, or `notice` alone where
/// one of them is minified.
pub open spec fn batch_output(rendered: Seq<Seq<char>>, notice: Seq<char>) -> Seq<char> {
    if any_minified(rendered) {
        notice
    } else {
        concat(rendered)
    }
}

impl ServiceView {
    /// The state after `diagnostic` has been counted.
    pub open spec fn count(self, diagnostic: DiagnosticView) -> ServiceView {
        if diagnostic.is_warning() {
            ServiceView { warnings: self.warnings + 1, ..self }
        } else {
            ServiceView { errors: self.errors + 1, ..self }
        }
    }

    /// More warnings have been counted than the threshold allows.
    pub open spec fn max_warnings_exceeded(self) -> bool {
        self.max_warnings matches Some(max_warnings) && self.warnings > max_warnings
    }

    /// Whether `diagnostic` is shown, `self` being the state after it has
    /// been counted. An error is always shown. A warning is shown unless
    /// quiet mode is on or the threshold is exceeded.
    pub open spec fn shows(self, diagnostic: DiagnosticView) -> bool {
        diagnostic.is_warning() ==> !self.quiet && !self.max_warnings_exceeded()
    }

    /// The state after all of `diagnostics` have been counted.
    pub open spec fn count_all(self, diagnostics: Seq<DiagnosticView>) -> ServiceView
        decreases diagnostics.len(),
    {
        if diagnostics.len() == 0 {
            self
        } else {
            self.count_all(diagnostics.drop_last()).count(diagnostics.last())
        }
    }

    /// Those of `diagnostics` that are shown when they are received one
    /// after the other in the state `self`, in their order.
    pub open spec fn shown(self, diagnostics: Seq<DiagnosticView>) -> Seq<DiagnosticView>
        decreases diagnostics.len(),
    {
        if diagnostics.len() == 0 {
            Seq::empty()
        } else if self.count_all(diagnostics).shows(diagnostics.last()) {
            self.shown(diagnostics.drop_last()).push(diagnostics.last())
        } else {
            self.shown(diagnostics.drop_last())
        }
    }

    /// The state after the batches have been received one after the other.
    pub open spec fn receive_all(self, batches: Seq<BatchView>) -> ServiceView
        decreases batches.len(),
    {
        if batches.len() == 0 {
            self
        } else {
            self.receive_all(batches.drop_last()).count_all(batches.last().1)
        }
    }

    /// For each of the batches, received one after the other in the state
    /// `self`, its path and those of its diagnostics that are shown.
    pub open spec fn reports(self, batches: Seq<BatchView>) -> Seq<BatchView>
        decreases batches.len(),
    {
        if batches.len() == 0 {
            Seq::empty()
        } else {
            let earlier = batches.drop_last();
            self.reports(earlier).push(
                (batches.last().0, self.receive_all(earlier).shown(batches.last().1)),
            )
        }
    }
}

impl Default for DiagnosticService {
    /// Nothing counted, no quiet mode, no threshold.
    fn default() -> (service: Self)
        ensures
            service@ == (ServiceView { quiet: false, max_warnings: None, warnings: 0, errors: 0 }),
    {
        Self { quiet: false, max_warnings: None, warnings_count: 0, errors_count: 0 }
    }
}

impl DiagnosticService {
    /// The same service with quiet mode switched on or off.
    #[must_use]
    pub fn with_quiet(self, yes: bool) -> (service: Self)
        ensures
            service@ == (ServiceView { quiet: yes, ..self@ }),
    {
        let mut service = self;
        service.quiet = yes;
        service
    }

    /// The same service with the warning threshold `max_warnings`, or with
    /// none.
    #[must_use]
    pub fn with_max_warnings(self, max_warnings: Option<usize>) -> (service: Self)
        ensures
            service@ == (ServiceView { max_warnings, ..self@ }),
    {
        let mut service = self;
        service.max_warnings = max_warnings;
        service
    }

    /// Whether quiet mode is on.
    pub fn quiet(&self) -> (quiet: bool)
        ensures
            quiet == self@.quiet,
    {
        self.quiet
    }

    /// The warning threshold, if there is one.
    pub fn max_warnings(&self) -> (max_warnings: Option<usize>)
        ensures
            max_warnings == self@.max_warnings,
    {
        self.max_warnings
    }

    /// How many warnings have been received.
    pub fn warnings_count(&self) -> (count: usize)
        ensures
            count == self@.warnings,
    {
        self.warnings_count
    }

    /// How many errors have been received.
    pub fn errors_count(&self) -> (count: usize)
        ensures
            count == self@.errors,
    {
        self.errors_count
    }

    /// Whether more warnings have been received than the threshold allows.
    /// Without a threshold that is never so.
    pub fn max_warnings_exceeded(&self) -> (exceeded: bool)
        ensures
            exceeded == self@.max_warnings_exceeded(),
    {
        match self.max_warnings {
            Some(max_warnings) => self.warnings_count > max_warnings,
            None => false,
        }
    }

    /// Makes the batch of one file: its path, and its diagnostics in their
    /// order, each pointing into the file's text under the file's path as
    /// its name.
    pub fn wrap_diagnostics(
        path: &str,
        source_text: &str,
        diagnostics: Vec<Diagnostic>,
    ) -> (batch: DiagnosticTuple)
        ensures
            batch.deep_view() == wrapped(path@, source_text@, diagnostics.deep_view()),
    {
        let source = Arc::new(
            NamedSource { name: path.to_owned(), text: source_text.to_owned() },
        );
        let ghost inputs = diagnostics.deep_view();
        let mut wrapped_diagnostics: Vec<Diagnostic> = Vec::new();
        for diagnostic in it: diagnostics
            invariant
                source.deep_view() == source_of(path@, source_text@),
                it.seq().len() == inputs.len(),
                forall|i: int| 0 <= i < inputs.len() ==> (#[trigger] it.seq()[i]).deep_view() == inputs[i],
                wrapped_diagnostics.deep_view() == wrapped(path@, source_text@, inputs.take(it.index() as int)).1,
        {
            let ghost before = wrapped_diagnostics;
            let with_source = diagnostic.with_source_code(&source);
            wrapped_diagnostics.push(with_source);
            proof {
                lemma_push_deep_view(before, wrapped_diagnostics, with_source);
                assert(wrapped_diagnostics.deep_view() =~= wrapped(
                    path@,
                    source_text@,
                    inputs.take(it.index() + 1),
                ).1);
            }
        }
        assert(inputs.take(inputs.len() as int) =~= inputs);
        (path.to_owned(), wrapped_diagnostics)
    }

    /// Counts one diagnostic and says whether it is to be shown.
    pub fn record(&mut self, diagnostic: &Diagnostic) -> (show: bool)
        requires
            old(self)@.count(diagnostic.deep_view()).warnings <= usize::MAX,
            old(self)@.count(diagnostic.deep_view()).errors <= usize::MAX,
        ensures
            final(self)@ == old(self)@.count(diagnostic.deep_view()),
            show == final(self)@.shows(diagnostic.deep_view()),
    {
        if diagnostic.is_warning() {
            self.warnings_count = self.warnings_count + 1;
            !self.quiet && !self.max_warnings_exceeded()
        } else {
            self.errors_count = self.errors_count + 1;
            true
        }
    }

    /// Receives the diagnostics of one file: counts each of them, in their
    /// order, and returns those that are to be shown, in their order.
    pub fn receive(&mut self, diagnostics: Vec<Diagnostic>) -> (shown: Vec<Diagnostic>)
        requires
            old(self)@.count_all(diagnostics.deep_view()).warnings <= usize::MAX,
            old(self)@.count_all(diagnostics.deep_view()).errors <= usize::MAX,
        ensures
            final(self)@ == old(self)@.count_all(diagnostics.deep_view()),
            shown.deep_view() == old(self)@.shown(diagnostics.deep_view()),
    {
        let ghost inputs = diagnostics.deep_view();
        let ghost start = self@;
        let mut shown: Vec<Diagnostic> = Vec::new();
        for diagnostic in it: diagnostics
            invariant
                it.seq().len() == inputs.len(),
                forall|i: int|
                    0 <= i < inputs.len() ==> (#[trigger] it.seq()[i]).deep_view() == inputs[i],
                start.count_all(inputs).warnings <= usize::MAX,
                start.count_all(inputs).errors <= usize::MAX,
                self@ == start.count_all(inputs.take(it.index() as int)),
                shown.deep_view() == start.shown(inputs.take(it.index() as int)),
        {
            let ghost before = shown;
            proof {
                assert(inputs.take(it.index() + 1).drop_last() =~= inputs.take(it.index() as int));
                lemma_count_all_prefix(start, inputs, it.index() + 1);
            }
            if self.record(&diagnostic) {
                shown.push(diagnostic);
                proof {
                    lemma_push_deep_view(before, shown, diagnostic);
                }
            }
        }
        assert(inputs.take(inputs.len() as int) =~= inputs);
        shown
    }

    /// The consumer loop over the batches that have arrived, in the order of
    /// their arrival: receives each of them and returns, for each, its path
    /// and those of its diagnostics that are to be shown.
    pub fn run(&mut self, batches: Vec<DiagnosticTuple>) -> (reports: Vec<DiagnosticTuple>)
        requires
            old(self)@.receive_all(batches.deep_view()).warnings <= usize::MAX,
            old(self)@.receive_all(batches.deep_view()).errors <= usize::MAX,
        ensures
            final(self)@ == old(self)@.receive_all(batches.deep_view()),
            reports.deep_view() == old(self)@.reports(batches.deep_view()),
    {
        let ghost inputs = batches.deep_view();
        let ghost start = self@;
        let mut reports: Vec<DiagnosticTuple> = Vec::new();
        for batch in it: batches
            invariant
                it.seq().len() == inputs.len(),
                forall|i: int|
                    0 <= i < inputs.len() ==> (#[trigger] it.seq()[i]).deep_view() == inputs[i],
                start.receive_all(inputs).warnings <= usize::MAX,
                start.receive_all(inputs).errors <= usize::MAX,
                self@ == start.receive_all(inputs.take(it.index() as int)),
                reports.deep_view() == start.reports(inputs.take(it.index() as int)),
        {
            let ghost before = reports;
            proof {
                assert(inputs.take(it.index() + 1).drop_last() =~= inputs.take(it.index() as int));
                lemma_receive_all_prefix(start, inputs, it.index() + 1);
            }
            let (path, diagnostics) = batch;
            let shown = self.receive(diagnostics);
            let report = (path, shown);
            reports.push(report);
            proof {
                lemma_push_deep_view(before, reports, report);
            }
        }
        assert(inputs.take(inputs.len() as int) =~= inputs);
        reports
    }

    /// What is printed for one file whose shown diagnostics were rendered as
    /// `rendered`: the renderings one after the other, or `notice` alone
    /// where one of them has a line of `LINE_GUARD` bytes or more.
    pub fn compose(rendered: &Vec<String>, notice: &str) -> (output: String)
        ensures
            output@ == batch_output(rendered.deep_view(), notice@),
    {
        let ghost texts = rendered.deep_view();
        let mut output = String::new();
        let mut i: usize = 0;
        while i < rendered.len()
            invariant
                i <= rendered.len(),
                texts == rendered.deep_view(),
                !any_minified(texts.take(i as int)),
                output@ == concat(texts.take(i as int)),
            decreases rendered.len() - i,
        {
            let text = rendered[i].as_str();
            assert(text@ == texts[i as int]);
            if exceeds_line_guard(text) {
                return notice.to_owned();
            }
            output.append(text);
            proof {
                assert(texts.take(i + 1).drop_last() =~= texts.take(i as int));
                assert forall|k: int| 0 <= k < i + 1 implies !crate::line_guard::is_minified(
                    #[trigger] texts.take(i + 1)[k],
                ) by {
                    if k < i {
                        assert(texts.take(i as int)[k] == texts[k]);
                    }
                }
            }
            i += 1;
        }
        assert(texts.take(i as int) =~= texts);
        output
    }
}

/// The source text `text` under the name `path`.
pub open spec fn source_of(path: Seq<char>, text: Seq<char>) -> crate::diagnostic::NamedSourceView {
    crate::diagnostic::NamedSourceView { name: path, text }
}

/// The batch of the file `path` with the text `text` and the diagnostics
/// `diagnostics`.
pub open spec fn wrapped(
    path: Seq<char>,
    text: Seq<char>,
    diagnostics: Seq<DiagnosticView>,
) -> BatchView {
    (
        path,
        Seq::new(
            diagnostics.len(),
            |i: int| diagnostics[i].with_source_code(source_of(path, text)),
        ),
    )
}

/// Every diagnostic is either a warning or counts as an error.
pub proof fn lemma_tally(diagnostics: Seq<DiagnosticView>)
    ensures
        warnings_in(diagnostics) + errors_in(diagnostics) == diagnostics.len(),
        warnings_of(diagnostics).len() == warnings_in(diagnostics),
        errors_of(diagnostics).len() == errors_in(diagnostics),
    decreases diagnostics.len(),
{
    if diagnostics.len() > 0 {
        lemma_tally(diagnostics.drop_last());
    }
}

/// Counting never looks at quiet mode or at the threshold, and changes
/// neither: after `diagnostics` have been received, the warnings among them
/// and the errors among them have been added to the two counts.
pub proof fn lemma_counts(state: ServiceView, diagnostics: Seq<DiagnosticView>)
    ensures
        state.count_all(diagnostics) == (ServiceView {
            warnings: state.warnings + warnings_in(diagnostics),
            errors: state.errors + errors_in(diagnostics),
            ..state
        }),
    decreases diagnostics.len(),
{
    if diagnostics.len() > 0 {
        lemma_counts(state, diagnostics.drop_last());
    }
}

/// A prefix of a list holds no more warnings and no more errors than the
/// list.
pub proof fn lemma_tally_prefix(diagnostics: Seq<DiagnosticView>, n: int)
    requires
        0 <= n <= diagnostics.len(),
    ensures
        warnings_in(diagnostics.take(n)) <= warnings_in(diagnostics),
        errors_in(diagnostics.take(n)) <= errors_in(diagnostics),
    decreases diagnostics.len(),
{
    if n < diagnostics.len() {
        lemma_tally_prefix(diagnostics.drop_last(), n);
        assert(diagnostics.drop_last().take(n) =~= diagnostics.take(n));
    } else {
        assert(diagnostics.take(n) =~= diagnostics);
    }
}

/// The counts never go down while a list is received.
pub proof fn lemma_count_all_prefix(state: ServiceView, diagnostics: Seq<DiagnosticView>, n: int)
    requires
        0 <= n <= diagnostics.len(),
    ensures
        state.count_all(diagnostics.take(n)).warnings <= state.count_all(diagnostics).warnings,
        state.count_all(diagnostics.take(n)).errors <= state.count_all(diagnostics).errors,
{
    lemma_counts(state, diagnostics);
    lemma_counts(state, diagnostics.take(n));
    lemma_tally_prefix(diagnostics, n);
}

/// All the diagnostics of the batches, in the order of their arrival.
pub open spec fn flatten(batches: Seq<BatchView>) -> Seq<DiagnosticView>
    decreases batches.len(),
{
    if batches.len() == 0 {
        Seq::empty()
    } else {
        flatten(batches.drop_last()) + batches.last().1
    }
}

/// Receiving one list and then another is receiving the two as one list:
/// the same state is reached and the same diagnostics are shown.
pub proof fn lemma_receive_in_parts(
    state: ServiceView,
    first: Seq<DiagnosticView>,
    second: Seq<DiagnosticView>,
)
    ensures
        state.count_all(first + second) == state.count_all(first).count_all(second),
        state.shown(first + second) == state.shown(first) + state.count_all(first).shown(second),
    decreases second.len(),
{
    if second.len() == 0 {
        assert(first + second =~= first);
        assert(state.shown(first) + Seq::<DiagnosticView>::empty() =~= state.shown(first));
    } else {
        lemma_receive_in_parts(state, first, second.drop_last());
        assert((first + second).drop_last() =~= first + second.drop_last());
        assert((first + second).last() == second.last());
        let middle = state.count_all(first);
        if state.count_all(first + second).shows(second.last()) {
            assert(state.shown(first + second) =~= state.shown(first) + middle.shown(second));
        } else {
            assert(state.shown(first + second) =~= state.shown(first) + middle.shown(second));
        }
    }
}

/// Receiving batch after batch is receiving all their diagnostics as one
/// list, in the order of arrival.
pub proof fn lemma_batches_are_one_stream(state: ServiceView, batches: Seq<BatchView>)
    ensures
        state.receive_all(batches) == state.count_all(flatten(batches)),
        flatten(state.reports(batches)) == state.shown(flatten(batches)),
    decreases batches.len(),
{
    if batches.len() > 0 {
        let earlier = batches.drop_last();
        lemma_batches_are_one_stream(state, earlier);
        lemma_receive_in_parts(state, flatten(earlier), batches.last().1);
        assert(state.reports(batches).drop_last() =~= state.reports(earlier));
    }
}

/// The counts never go down while batches are received.
pub proof fn lemma_receive_all_prefix(state: ServiceView, batches: Seq<BatchView>, n: int)
    requires
        0 <= n <= batches.len(),
    ensures
        state.receive_all(batches.take(n)).warnings <= state.receive_all(batches).warnings,
        state.receive_all(batches.take(n)).errors <= state.receive_all(batches).errors,
    decreases batches.len(),
{
    if n < batches.len() {
        lemma_receive_all_prefix(state, batches.drop_last(), n);
        assert(batches.drop_last().take(n) =~= batches.take(n));
        lemma_counts(state.receive_all(batches.drop_last()), batches.last().1);
    } else {
        assert(batches.take(n) =~= batches);
    }
}

/// Quiet mode: of a list with W warnings and E errors, received in any
/// state, exactly the E errors are shown, and W and E are added to the
/// counts, as they are without quiet mode.
pub proof fn lemma_quiet_mode(state: ServiceView, diagnostics: Seq<DiagnosticView>)
    requires
        state.quiet,
    ensures
        state.shown(diagnostics) == errors_of(diagnostics),
        state.shown(diagnostics).len() == errors_in(diagnostics),
        state.count_all(diagnostics).warnings == state.warnings + warnings_in(diagnostics),
        state.count_all(diagnostics).errors == state.errors + errors_in(diagnostics),
        state.count_all(diagnostics).warnings == (ServiceView { quiet: false, ..state }).count_all(
            diagnostics,
        ).warnings,
        state.count_all(diagnostics).errors == (ServiceView { quiet: false, ..state }).count_all(
            diagnostics,
        ).errors,
    decreases diagnostics.len(),
{
    lemma_counts(state, diagnostics);
    lemma_counts(ServiceView { quiet: false, ..state }, diagnostics);
    lemma_tally(diagnostics);
    if diagnostics.len() > 0 {
        lemma_quiet_mode(state, diagnostics.drop_last());
    }
}

/// What one more diagnostic at the end does to the warnings and to the
/// errors of a list.
pub proof fn lemma_push_splits(diagnostics: Seq<DiagnosticView>, last: DiagnosticView)
    ensures
        warnings_of(diagnostics.push(last)) == if last.is_warning() {
            warnings_of(diagnostics).push(last)
        } else {
            warnings_of(diagnostics)
        },
        errors_of(diagnostics.push(last)) == if last.is_error() {
            errors_of(diagnostics).push(last)
        } else {
            errors_of(diagnostics)
        },
{
    assert(diagnostics.push(last).drop_last() =~= diagnostics);
}

/// How many more warnings may be shown in `state` under the threshold
/// `max_warnings`.
pub open spec fn warnings_left(state: ServiceView, max_warnings: usize) -> nat {
    if state.warnings <= max_warnings {
        (max_warnings - state.warnings) as nat
    } else {
        0
    }
}

/// The warning threshold: of a list received without quiet mode under the
/// threshold T, every error is shown, and of its warnings exactly the first
/// that the threshold still leaves room for: the first T of them where
/// nothing had been counted before. All of them are counted, and the
/// threshold is exceeded afterwards exactly if more warnings have been
/// counted than T.
pub proof fn lemma_max_warnings(
    state: ServiceView,
    max_warnings: usize,
    diagnostics: Seq<DiagnosticView>,
)
    requires
        !state.quiet,
        state.max_warnings == Some(max_warnings),
    ensures
        errors_of(state.shown(diagnostics)) == errors_of(diagnostics),
        warnings_of(state.shown(diagnostics)) == warnings_of(diagnostics).take(
            if warnings_in(diagnostics) <= warnings_left(state, max_warnings) {
                warnings_in(diagnostics) as int
            } else {
                warnings_left(state, max_warnings) as int
            },
        ),
        state.count_all(diagnostics).warnings == state.warnings + warnings_in(diagnostics),
        state.count_all(diagnostics).max_warnings_exceeded() == (state.warnings + warnings_in(
            diagnostics,
        ) > max_warnings),
    decreases diagnostics.len(),
{
    lemma_counts(state, diagnostics);
    lemma_tally(diagnostics);
    let left = warnings_left(state, max_warnings) as int;
    if diagnostics.len() == 0 {
        assert(warnings_of(diagnostics).take(0) =~= Seq::<DiagnosticView>::empty());
    } else {
        let earlier = diagnostics.drop_last();
        let last = diagnostics.last();
        lemma_max_warnings(state, max_warnings, earlier);
        lemma_counts(state, earlier);
        lemma_tally(earlier);
        let before = warnings_in(earlier) as int;
        lemma_push_splits(state.shown(earlier), last);
        if last.is_warning() {
            if state.count_all(diagnostics).shows(last) {
                assert(before + 1 <= left);
                assert(warnings_of(earlier).take(before) =~= warnings_of(earlier));
                assert(warnings_of(diagnostics).take(before + 1) =~= warnings_of(diagnostics));
            } else {
                assert(before + 1 > left);
                assert(warnings_of(diagnostics).take(left) =~= warnings_of(earlier).take(left));
            }
        } else {
            assert(state.count_all(diagnostics).shows(last));
        }
    }
}

/// Without quiet mode and without a threshold everything is shown.
pub proof fn lemma_everything_shown(state: ServiceView, diagnostics: Seq<DiagnosticView>)
    requires
        !state.quiet,
        state.max_warnings is None,
    ensures
        state.shown(diagnostics) == diagnostics,
    decreases diagnostics.len(),
{
    lemma_counts(state, diagnostics);
    if diagnostics.len() > 0 {
        lemma_everything_shown(state, diagnostics.drop_last());
        assert(diagnostics.drop_last().push(diagnostics.last()) =~= diagnostics);
    }
}

} // verus!
