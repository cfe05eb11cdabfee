//! The scheduler: from the entry paths through the module graph.
//!
//! The paths that are still to be processed wait on a stack. One path at a
//! time is taken off and handed to the file processor, and the import
//! targets that the processor hands back go onto the stack. The run is over
//! when the stack is empty. However the imports run, in a tree, along many
//! edges to one file or round a cycle, no file is processed twice, and the
//! run ends.

use crate::diagnostic::{lemma_push_deep_view, BatchView, DiagnosticTuple};
use crate::diagnostic_service::{
    lemma_counts, lemma_tally, DiagnosticService, ServiceView,
};
use crate::project::{
    covers, file_of, has_file, index_of, is_closed, is_readable, lemma_first_exists, total_load,
    Project,
};
use crate::service::{
    spawned, LintService, PathOutcome, PathOutcomeView, RuntimeView, Stage,
};
use crate::source_file::{ImportView, SourceFileView};
use vstd::prelude::*;

verus! {

/// Options on how warnings are treated.
#[derive(Clone, Copy, Debug)]
pub struct WarningOptions {
    /// Disable reporting on warnings, only errors are reported
    pub quiet: bool,
    /// Specify a warning threshold, which can be used to force exit with an
    /// error status if there are too many warning-level rule violations in
    /// your project
    pub max_warnings: Option<usize>,
}

/// Options on fixes.
#[derive(Clone, Copy, Debug)]
pub struct FixOptions {
    /// Fix as many issues as possible. Only unfixed issues are reported in
    /// the output
    pub fix: bool,
}

/// Other options.
#[derive(Clone, Copy, Debug)]
pub struct MiscOptions {
    /// List all the rules that are currently registered, and do nothing
    /// else
    pub rules: bool,
}

/// What a lint run is asked to do.
#[derive(Debug)]
pub struct CliLintOptions {
    /// The entry paths: the files to lint.
    pub paths: Vec<String>,
    pub warning_options: WarningOptions,
    pub fix_options: FixOptions,
    pub misc_options: MiscOptions,
}

/// What a [`CliLintOptions`] holds.
pub struct CliLintOptionsView {
    pub paths: Seq<Seq<char>>,
    pub quiet: bool,
    pub max_warnings: Option<usize>,
    pub fix: bool,
    pub rules: bool,
}

impl DeepView for CliLintOptions {
    type V = CliLintOptionsView;

    open spec fn deep_view(&self) -> CliLintOptionsView {
        CliLintOptionsView {
            paths: self.paths.deep_view(),
            quiet: self.warning_options.quiet,
            max_warnings: self.warning_options.max_warnings,
            fix: self.fix_options.fix,
            rules: self.misc_options.rules,
        }
    }
}

/// What a lint run found.
#[derive(Debug)]
pub struct LintResult {
    /// How many files were processed as lint targets.
    pub number_of_files: usize,
    /// How many files under vendor directories were traversed only.
    pub number_of_files_in_node_modules: usize,
    pub number_of_warnings: usize,
    pub number_of_errors: usize,
    /// Whether more warnings were counted than the threshold allows.
    pub max_warnings_exceeded: bool,
    /// For each batch of diagnostics, in the order in which the batches
    /// were sent: the file's path and those of its diagnostics that are to
    /// be shown.
    pub reports: Vec<DiagnosticTuple>,
    /// The files that were processed, in the order in which they were, each
    /// with how far its processing went.
    pub processed: Vec<(String, Stage)>,
}

/// What a [`LintResult`] holds.
pub struct LintResultView {
    pub number_of_files: nat,
    pub number_of_files_in_node_modules: nat,
    pub number_of_warnings: nat,
    pub number_of_errors: nat,
    pub max_warnings_exceeded: bool,
    pub reports: Seq<BatchView>,
    pub processed: Seq<(Seq<char>, Stage)>,
}

impl DeepView for LintResult {
    type V = LintResultView;

    open spec fn deep_view(&self) -> LintResultView {
        LintResultView {
            number_of_files: self.number_of_files as nat,
            number_of_files_in_node_modules: self.number_of_files_in_node_modules as nat,
            number_of_warnings: self.number_of_warnings as nat,
            number_of_errors: self.number_of_errors as nat,
            max_warnings_exceeded: self.max_warnings_exceeded,
            reports: self.reports.deep_view(),
            processed: self.processed.deep_view(),
        }
    }
}

/// How a run ended.
#[derive(Debug)]
pub enum CliRunResult {
    /// Nothing was linted: the caller asked for the list of rules.
    RulesRequested,
    /// The files were linted.
    LintResult(LintResult),
}

/// What a [`CliRunResult`] holds.
pub enum CliRunResultView {
    RulesRequested,
    LintResult(LintResultView),
}

impl DeepView for CliRunResult {
    type V = CliRunResultView;

    open spec fn deep_view(&self) -> CliRunResultView {
        match self {
            CliRunResult::RulesRequested => CliRunResultView::RulesRequested,
            CliRunResult::LintResult(result) => CliRunResultView::LintResult(result.deep_view()),
        }
    }
}

/// How far a run has got.
pub struct RunView {
    /// The state of the file processor.
    pub runtime: RuntimeView,
    /// The state of the aggregator.
    pub service: ServiceView,
    /// How many files have been processed as lint targets.
    pub number_of_files: nat,
    /// For each batch sent so far, its path and what is shown of it.
    pub reports: Seq<BatchView>,
    /// The files processed so far, each with how far its processing went.
    pub processed: Seq<(Seq<char>, Stage)>,
}

impl RunView {
    /// The state in which a run with the options `options` starts.
    pub open spec fn start(options: CliLintOptionsView) -> RunView {
        RunView {
            runtime: RuntimeView::fresh(options.fix),
            service: ServiceView {
                quiet: options.quiet,
                max_warnings: options.max_warnings,
                warnings: 0,
                errors: 0,
            },
            number_of_files: 0,
            reports: Seq::empty(),
            processed: Seq::empty(),
        }
    }

    /// What the caller is told when the run has got this far and is over.
    pub open spec fn result(self) -> LintResultView {
        LintResultView {
            number_of_files: self.number_of_files,
            number_of_files_in_node_modules: self.runtime.number_of_files_in_node_modules,
            number_of_warnings: self.service.warnings,
            number_of_errors: self.service.errors,
            max_warnings_exceeded: self.service.max_warnings_exceeded(),
            reports: self.reports,
            processed: self.processed,
        }
    }

    /// The state after a file at `path` has been processed as far as
    /// `stage`, with the batch `batch` to send, if any.
    pub open spec fn record(self, runtime: RuntimeView, path: Seq<char>, stage: Stage, batch: Option<
        BatchView,
    >) -> RunView {
        RunView {
            runtime,
            service: match batch {
                Some(batch) => self.service.count_all(batch.1),
                None => self.service,
            },
            number_of_files: if stage == Stage::Vendor {
                self.number_of_files
            } else {
                self.number_of_files + 1
            },
            reports: match batch {
                Some(batch) => self.reports.push((batch.0, self.service.shown(batch.1))),
                None => self.reports,
            },
            processed: self.processed.push((path, stage)),
        }
    }
}

/// One step of a run over the files `files`: `path` is taken off the stack
/// and handed to the file processor. Yields the state after the step and
/// the paths that are to go onto the stack. A path that names no file of
/// the project is passed over.
pub open spec fn step(files: Seq<SourceFileView>, run: RunView, path: Seq<char>) -> (
    RunView,
    Seq<Seq<char>>,
) {
    if has_file(files, path) {
        let (runtime, outcome) = run.runtime.process_path(path, file_of(files, path));
        match outcome {
            PathOutcomeView::Processed { stage, batch, spawn } => (
                run.record(runtime, path, stage, batch),
                spawn,
            ),
            _ => (run, Seq::empty()),
        }
    } else {
        (run, Seq::empty())
    }
}

/// What is still ahead of a run: one for every file that the processor
/// would take on, and one for every diagnostic that such a file can
/// contribute.
pub open spec fn load(files: Seq<SourceFileView>, runtime: RuntimeView) -> nat
    decreases files.len(),
{
    if files.len() == 0 {
        0
    } else {
        load(files.drop_last(), runtime) + if runtime.accepts(files.last().path) {
            1 + files.last().weight()
        } else {
            0
        }
    }
}

/// A run over the files `files` from the state `run` with the paths
/// `stack` waiting, the last of them on top: the state when the stack is
/// empty. The paths that a step yields go onto the stack so that the first
/// of them is on top.
pub open spec fn traverse(files: Seq<SourceFileView>, run: RunView, stack: Seq<Seq<char>>) -> RunView
    decreases load(files, run.runtime), stack.len(),
    via traverse_decreases
{
    if stack.len() == 0 {
        run
    } else {
        let (next, spawn) = step(files, run, stack.last());
        traverse(files, next, stack.drop_last() + spawn.reverse())
    }
}

#[via_fn]
proof fn traverse_decreases(files: Seq<SourceFileView>, run: RunView, stack: Seq<Seq<char>>) {
    if stack.len() > 0 {
        lemma_step_lightens(files, run, stack.last());
    }
}

/// What a run with the options `options` over the files `files` yields.
pub open spec fn run_result(options: CliLintOptionsView, files: Seq<SourceFileView>) -> CliRunResultView {
    if options.rules {
        CliRunResultView::RulesRequested
    } else {
        CliRunResultView::LintResult(
            traverse(files, RunView::start(options), options.paths.reverse()).result(),
        )
    }
}

/// A state that takes on no path that another state does not take on has
/// no more ahead of it.
pub proof fn lemma_load_monotone(files: Seq<SourceFileView>, before: RuntimeView, after: RuntimeView)
    requires
        forall|path: Seq<char>| after.accepts(path) ==> before.accepts(path),
    ensures
        load(files, after) <= load(files, before),
    decreases files.len(),
{
    if files.len() > 0 {
        lemma_load_monotone(files.drop_last(), before, after);
    }
}

/// A state that in addition no longer takes on the path of `files[at]` has
/// less ahead of it, by that file at least.
pub proof fn lemma_load_drops(
    files: Seq<SourceFileView>,
    before: RuntimeView,
    after: RuntimeView,
    at: int,
)
    requires
        0 <= at < files.len(),
        before.accepts(files[at].path),
        !after.accepts(files[at].path),
        forall|path: Seq<char>| after.accepts(path) ==> before.accepts(path),
    ensures
        load(files, after) + 1 + files[at].weight() <= load(files, before),
    decreases files.len(),
{
    if at == files.len() - 1 {
        lemma_load_monotone(files.drop_last(), before, after);
    } else {
        lemma_load_drops(files.drop_last(), before, after, at);
    }
}

/// No more is ahead of a run than the project holds.
pub proof fn lemma_load_bounded(files: Seq<SourceFileView>, runtime: RuntimeView)
    ensures
        load(files, runtime) <= total_load(files),
    decreases files.len(),
{
    if files.len() > 0 {
        lemma_load_bounded(files.drop_last(), runtime);
    }
}

/// The file processor takes a path on only once: a path that was
/// processed is taken on no more, and no path is taken on afterwards that
/// was not taken on before.
pub proof fn lemma_processed_once(runtime: RuntimeView, path: Seq<char>, file: SourceFileView)
    requires
        runtime.process_path(path, file).1 is Processed,
    ensures
        runtime.accepts(path),
        !runtime.process_path(path, file).0.accepts(path),
        forall|other: Seq<char>|
            runtime.process_path(path, file).0.accepts(other) ==> runtime.accepts(other),
{
    let after = runtime.process_path(path, file).0;
    assert forall|other: Seq<char>| after.accepts(other) implies runtime.accepts(other) by {
        if other != path {
            assert(after.module_map.dom().contains(other) == runtime.module_map.dom().contains(
                other,
            ));
            assert(after.gate(other) == runtime.gate(other));
        }
    }
}

/// A step that processes a file leaves less ahead, by that file at least.
/// Any other step changes nothing and yields no path.
pub proof fn lemma_step_lightens(files: Seq<SourceFileView>, run: RunView, path: Seq<char>)
    ensures
        step(files, run, path).0 != run ==> load(files, step(files, run, path).0.runtime) + 1
            + file_of(files, path).weight() <= load(files, run.runtime),
        step(files, run, path).0 == run ==> step(files, run, path).1 == Seq::<
            Seq<char>,
        >::empty(),
        step(files, run, path).0 != run ==> has_file(files, path) && run.runtime.process_path(
            path,
            file_of(files, path),
        ).1 is Processed,
{
    if has_file(files, path) {
        let file = file_of(files, path);
        let (runtime, outcome) = run.runtime.process_path(path, file);
        if outcome is Processed {
            lemma_first_exists(files, path);
            lemma_processed_once(run.runtime, path, file);
            lemma_load_drops(files, run.runtime, runtime, index_of(files, path));
            let next = step(files, run, path).0;
            assert(next.processed.len() == run.processed.len() + 1);
        }
    }
}

/// Every path that a step yields is the target of an import of the file
/// that the step processed, so that in a closed project it names a file
/// that can be read.
pub proof fn lemma_step_yields_files(files: Seq<SourceFileView>, run: RunView, path: Seq<char>)
    requires
        is_closed(files),
    ensures
        forall|i: int|
            0 <= i < step(files, run, path).1.len() ==> is_readable(
                files,
                #[trigger] step(files, run, path).1[i],
            ),
{
    if has_file(files, path) {
        lemma_first_exists(files, path);
        let at = index_of(files, path);
        let file = files[at];
        let spawn = step(files, run, path).1;
        assert forall|i: int| 0 <= i < spawn.len() implies is_readable(files, #[trigger] spawn[i]) by {
            if file.parse_errors.len() == 0 && run.runtime.process_path(path, file).1 is Processed {
                let records = run.runtime.init_cache_state(path).store(
                    path,
                    crate::source_file::specifiers_of(file.imports),
                ).module_map;
                lemma_spawned_are_targets(records, file.imports, i);
                let j = choose|j: int|
                    0 <= j < file.imports.len() && (#[trigger] file.imports[j]).target == Some(
                        spawned(records, file.imports)[i],
                    );
                assert(files[at].imports[j].target is Some);
            }
        }
    }
}

/// Every path among the spawned ones is the target of one of the imports.
pub proof fn lemma_spawned_are_targets(
    records: Map<Seq<char>, Seq<Seq<char>>>,
    imports: Seq<ImportView>,
    i: int,
)
    requires
        0 <= i < spawned(records, imports).len(),
    ensures
        exists|j: int|
            0 <= j < imports.len() && (#[trigger] imports[j]).target == Some(
                spawned(records, imports)[i],
            ),
        !records.dom().contains(spawned(records, imports)[i]),
    decreases imports.len(),
{
    let earlier = spawned(records, imports.drop_last());
    if i < earlier.len() {
        lemma_spawned_are_targets(records, imports.drop_last(), i);
        let j = choose|j: int|
            0 <= j < imports.drop_last().len() && (#[trigger] imports.drop_last()[j]).target
                == Some(earlier[i]);
        assert(imports[j].target == Some(spawned(records, imports)[i]));
    } else {
        assert(imports[imports.len() - 1].target == Some(spawned(records, imports)[i]));
    }
}

/// A step that processes a file counts the file once, as a lint target or
/// as a vendor file, and counts no more diagnostics than the file can
/// contribute.
pub proof fn lemma_step_counts(files: Seq<SourceFileView>, run: RunView, path: Seq<char>)
    requires
        step(files, run, path).0 != run,
    ensures
        step(files, run, path).0.number_of_files + step(
            files,
            run,
            path,
        ).0.runtime.number_of_files_in_node_modules == run.number_of_files
            + run.runtime.number_of_files_in_node_modules + 1,
        step(files, run, path).0.service.warnings + step(files, run, path).0.service.errors
            <= run.service.warnings + run.service.errors + file_of(files, path).weight(),
        step(files, run, path).0.service.warnings >= run.service.warnings,
        step(files, run, path).0.service.errors >= run.service.errors,
{
    lemma_step_lightens(files, run, path);
    let file = file_of(files, path);
    let (runtime, outcome) = run.runtime.process_path(path, file);
    match outcome {
        PathOutcomeView::Processed { stage, batch, spawn } => {
            match batch {
                Some(batch) => {
                    lemma_counts(run.service, batch.1);
                    lemma_tally(batch.1);
                },
                None => {},
            }
        },
        _ => {},
    }
}

/// Puts `items` onto `stack`, the last of them first, so that the first of
/// them is on top.
pub fn push_reversed(stack: &mut Vec<String>, items: Vec<String>)
    ensures
        final(stack).deep_view() == old(stack).deep_view() + items.deep_view().reverse(),
{
    let ghost below = stack.deep_view();
    let ghost all = items.deep_view();
    let mut items = items;
    while items.len() > 0
        invariant
            items.deep_view() == all.take(items.len() as int),
            items.len() <= all.len(),
            stack.deep_view() == below + all.subrange(items.len() as int, all.len() as int).reverse(),
        decreases items.len(),
    {
        let ghost stack_before = *stack;
        let ghost left = items.len() as int;
        let ghost items_before = items;
        let item = items.pop().unwrap();
        stack.push(item);
        proof {
            lemma_push_deep_view(stack_before, *stack, item);
            assert(item.deep_view() == items_before.deep_view()[left - 1]);
            assert(items.deep_view() =~= all.take(left - 1));
            assert(below + all.subrange(left - 1, all.len() as int).reverse() =~= (below
                + all.subrange(left, all.len() as int).reverse()).push(all[left - 1]));
        }
    }
    assert(all.subrange(0, all.len() as int) =~= all);
}

/// Lints the files of a project.
pub struct LintRunner {
    options: CliLintOptions,
}

impl DeepView for LintRunner {
    type V = CliLintOptionsView;

    closed spec fn deep_view(&self) -> CliLintOptionsView {
        self.options.deep_view()
    }
}

/// Whether a run with the options `options` can go over the files
/// `files`: every file that the run may have to read is there, be it
/// named by an entry path or by an import that resolves, and the counters
/// of the run can hold what the project can yield. A run that only lists
/// the rules reads nothing and counts nothing.
pub open spec fn can_run(options: CliLintOptionsView, files: Seq<SourceFileView>) -> bool {
    options.rules || {
        &&& covers(files, options.paths)
        &&& is_closed(files)
        &&& total_load(files) <= usize::MAX
    }
}

impl LintRunner {
    /// A runner that does what `options` ask for.
    pub fn new(options: CliLintOptions) -> (runner: LintRunner)
        ensures
            runner.deep_view() == options.deep_view(),
    {
        LintRunner { options }
    }

    /// Whether `run` may be called with `project`.
    pub fn can_run(&self, project: &Project) -> (possible: bool)
        ensures
            possible == can_run(self.deep_view(), project.deep_view()),
    {
        self.options.misc_options.rules || (project.covers(&self.options.paths)
            && project.is_closed() && project.load().is_some())
    }

    /// Lints the project where the run can go over it, and says so where
    /// it cannot.
    pub fn try_run(self, project: &Project) -> (result: Option<CliRunResult>)
        ensures
            match result {
                Some(result) => can_run(self.deep_view(), project.deep_view())
                    && result.deep_view() == run_result(self.deep_view(), project.deep_view()),
                None => !can_run(self.deep_view(), project.deep_view()),
            },
    {
        if self.can_run(project) {
            Some(self.run(project))
        } else {
            None
        }
    }

    /// Lints the project: processes the entry paths and every file that
    /// they import, directly or through other files, each once; receives
    /// the diagnostics of each file as they come; and tells what was
    /// counted and what is to be shown. Where the caller asked for the list
    /// of rules nothing is linted.
    pub fn run(self, project: &Project) -> (result: CliRunResult)
        requires
            can_run(self.deep_view(), project.deep_view()),
        ensures
            result.deep_view() == run_result(self.deep_view(), project.deep_view()),
    {
        if self.options.misc_options.rules {
            return CliRunResult::RulesRequested;
        }
        let ghost options = self.deep_view();
        let ghost files = project.deep_view();
        let ghost goal = traverse(files, RunView::start(options), options.paths.reverse());
        let mut service = LintService::new(self.options.fix_options.fix);
        let mut diagnostics = DiagnosticService::default().with_quiet(
            self.options.warning_options.quiet,
        ).with_max_warnings(self.options.warning_options.max_warnings);
        let mut number_of_files: usize = 0;
        let mut reports: Vec<DiagnosticTuple> = Vec::new();
        let mut processed: Vec<(String, Stage)> = Vec::new();
        let mut stack: Vec<String> = Vec::new();
        assert(stack.deep_view() =~= Seq::<Seq<char>>::empty());
        push_reversed(&mut stack, self.options.paths);
        proof {
            assert(stack.deep_view() =~= options.paths.reverse());
            assert(reports.deep_view() =~= Seq::<BatchView>::empty());
            assert(processed.deep_view() =~= Seq::<(Seq<char>, Stage)>::empty());
            lemma_load_bounded(files, service@);
            assert forall|i: int| 0 <= i < stack.deep_view().len() implies is_readable(
                files,
                #[trigger] stack.deep_view()[i],
            ) by {
                assert(stack.deep_view()[i] == options.paths[options.paths.len() - 1 - i]);
            }
        }
        while stack.len() > 0
            invariant
                files == project.deep_view(),
                is_closed(files),
                total_load(files) <= usize::MAX,
                forall|i: int|
                    0 <= i < stack.deep_view().len() ==> is_readable(
                        files,
                        #[trigger] stack.deep_view()[i],
                    ),
                traverse(
                    files,
                    RunView {
                        runtime: service@,
                        service: diagnostics@,
                        number_of_files: number_of_files as nat,
                        reports: reports.deep_view(),
                        processed: processed.deep_view(),
                    },
                    stack.deep_view(),
                ) == goal,
                number_of_files + service@.number_of_files_in_node_modules + diagnostics@.warnings
                    + diagnostics@.errors + load(files, service@) <= total_load(files),
            decreases load(files, service@), stack.len(),
        {
            let ghost before = RunView {
                runtime: service@,
                service: diagnostics@,
                number_of_files: number_of_files as nat,
                reports: reports.deep_view(),
                processed: processed.deep_view(),
            };
            let ghost waiting = stack.deep_view();
            let ghost stack_before = stack;
            let path = stack.pop().unwrap();
            proof {
                assert(path.deep_view() == waiting.last());
                assert(stack.deep_view() =~= waiting.drop_last());
                assert(is_readable(files, waiting[waiting.len() - 1]));
                if has_file(files, path@) {
                    lemma_first_exists(files, path@);
                }
                lemma_step_lightens(files, before, path@);
                lemma_step_yields_files(files, before, path@);
                if step(files, before, path@).0 != before {
                    lemma_step_counts(files, before, path@);
                    lemma_load_bounded(files, step(files, before, path@).0.runtime);
                }
            }
            match project.find(path.as_str()) {
                Some(at) => {
                    let file = &project.files[at];
                    assert(file.deep_view() == file_of(files, path@));
                    match service.run_path(path.as_str(), file) {
                        PathOutcome::Processed { stage, batch, spawn } => {
                            if stage != Stage::Vendor {
                                number_of_files = number_of_files + 1;
                            }
                            let ghost processed_before = processed;
                            let entry = (path, stage);
                            processed.push(entry);
                            proof {
                                lemma_push_deep_view(processed_before, processed, entry);
                            }
                            match batch {
                                Some(batch) => {
                                    let ghost reports_before = reports;
                                    let (batch_path, batch_diagnostics) = batch;
                                    let shown = diagnostics.receive(batch_diagnostics);
                                    let report = (batch_path, shown);
                                    reports.push(report);
                                    proof {
                                        lemma_push_deep_view(reports_before, reports, report);
                                    }
                                },
                                None => {},
                            }
                            push_reversed(&mut stack, spawn);
                        },
                        _ => {
                            assert(stack.deep_view() =~= waiting.drop_last() + Seq::<
                                Seq<char>,
                            >::empty().reverse());
                        },
                    }
                },
                None => {
                    assert(stack.deep_view() =~= waiting.drop_last() + Seq::<
                        Seq<char>,
                    >::empty().reverse());
                },
            }
        }
        CliRunResult::LintResult(
            LintResult {
                number_of_files,
                number_of_files_in_node_modules: service.number_of_files_in_node_modules(),
                number_of_warnings: diagnostics.warnings_count(),
                number_of_errors: diagnostics.errors_count(),
                max_warnings_exceeded: diagnostics.max_warnings_exceeded(),
                reports,
                processed,
            },
        )
    }
}

} // verus!
