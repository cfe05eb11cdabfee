//! Running again: what a second run over the same files yields, and what
//! does not depend on the order in which the entry paths are given.

use crate::diagnostic::{BatchView, DiagnosticView};
use crate::diagnostic_service::{
    errors_in, errors_of, lemma_counts, lemma_everything_shown, lemma_quiet_mode, warnings_in,
    wrapped,
};
use crate::project::{covers, file_of, is_closed, is_readable, lemma_first_exists};
use crate::runner::{
    lemma_spawned_are_targets, lemma_step_lightens, load, run_result, step, traverse,
    CliLintOptionsView, CliRunResultView, RunView,
};
use crate::service::Stage;
use crate::source_file::SourceFileView;
use crate::traversal::{
    end_of_run, import_target, lemma_imports_are_followed, lemma_start_sound, lemma_step_sound,
    lemma_traverse_sound, sound, stage_of, was_processed,
};
use vstd::prelude::*;

verus! {

/// A run over the same files with the same options ends in the same
/// state: the same counts, the same reports, the same files processed.
pub proof fn lemma_rerun_is_same(
    options: CliLintOptionsView,
    files: Seq<SourceFileView>,
    first: CliRunResultView,
    second: CliRunResultView,
)
    requires
        first == run_result(options, files),
        second == run_result(options, files),
    ensures
        first == second,
{
}

/// The diagnostics that the file `file` at `path` has when it has been
/// processed, fixes being applied or not as `fix` says.
pub open spec fn diagnostics_of(fix: bool, path: Seq<char>, file: SourceFileView) -> Seq<
    DiagnosticView,
> {
    match stage_of(path, file) {
        Stage::ParseFailed => file.parse_errors,
        Stage::Vendor => Seq::empty(),
        Stage::SemanticFailed => file.semantic_errors,
        Stage::Linted => if fix {
            file.fixed_messages
        } else {
            file.messages
        },
    }
}

/// What the files at `paths` weigh together, each as often as it stands
/// there.
pub open spec fn total(paths: Seq<(Seq<char>, Stage)>, weight: spec_fn(Seq<char>) -> nat) -> nat
    decreases paths.len(),
{
    if paths.len() == 0 {
        0
    } else {
        total(paths.drop_last(), weight) + weight(paths.last().0)
    }
}

/// The number of warnings among the diagnostics of the file at a path.
pub open spec fn warnings_at(files: Seq<SourceFileView>, fix: bool) -> spec_fn(Seq<char>) -> nat {
    |path: Seq<char>| warnings_in(diagnostics_of(fix, path, file_of(files, path)))
}

/// The number of errors among the diagnostics of the file at a path.
pub open spec fn errors_at(files: Seq<SourceFileView>, fix: bool) -> spec_fn(Seq<char>) -> nat {
    |path: Seq<char>| errors_in(diagnostics_of(fix, path, file_of(files, path)))
}

/// One for a path whose file is a lint target, none for a vendor file.
pub open spec fn lint_target_at(files: Seq<SourceFileView>) -> spec_fn(Seq<char>) -> nat {
    |path: Seq<char>|
        if stage_of(path, file_of(files, path)) == Stage::Vendor {
            0nat
        } else {
            1nat
        }
}

/// One for a path whose file is a vendor file, none for a lint target.
pub open spec fn vendor_file_at(files: Seq<SourceFileView>) -> spec_fn(Seq<char>) -> nat {
    |path: Seq<char>|
        if stage_of(path, file_of(files, path)) == Stage::Vendor {
            1nat
        } else {
            0nat
        }
}

/// No path stands twice among the processed files.
pub open spec fn each_once(processed: Seq<(Seq<char>, Stage)>) -> bool {
    forall|i: int, j: int|
        0 <= i < j < processed.len() ==> (#[trigger] processed[i]).0 != (#[trigger] processed[j]).0
}

/// Taking one file out takes its weight out.
pub proof fn lemma_total_without(
    paths: Seq<(Seq<char>, Stage)>,
    at: int,
    weight: spec_fn(Seq<char>) -> nat,
)
    requires
        0 <= at < paths.len(),
    ensures
        total(paths, weight) == total(paths.remove(at), weight) + weight(paths[at].0),
    decreases paths.len(),
{
    if at == paths.len() - 1 {
        assert(paths.remove(at) =~= paths.drop_last());
    } else {
        lemma_total_without(paths.drop_last(), at, weight);
        assert(paths.remove(at).drop_last() =~= paths.drop_last().remove(at));
        assert(paths.remove(at).last() == paths.last());
    }
}

/// The same files weigh the same in whatever order they stand.
pub proof fn lemma_total_of_the_same_files(
    first: Seq<(Seq<char>, Stage)>,
    second: Seq<(Seq<char>, Stage)>,
    weight: spec_fn(Seq<char>) -> nat,
)
    requires
        each_once(first),
        each_once(second),
        forall|path: Seq<char>| was_processed(first, path) <==> was_processed(second, path),
    ensures
        total(first, weight) == total(second, weight),
        first.len() == second.len(),
    decreases first.len(),
{
    if first.len() == 0 {
        if second.len() > 0 {
            assert(was_processed(second, second[0].0));
            assert(was_processed(first, second[0].0));
        }
    } else {
        let path = first.last().0;
        assert(was_processed(first, first[first.len() - 1].0));
        let at = choose|at: int| 0 <= at < second.len() && (#[trigger] second[at]).0 == path;
        let rest = first.drop_last();
        let others = second.remove(at);
        assert(each_once(rest)) by {
            assert forall|i: int, j: int| 0 <= i < j < rest.len() implies (#[trigger] rest[i]).0 != (
            #[trigger] rest[j]).0 by {
                assert(rest[i] == first[i]);
                assert(rest[j] == first[j]);
            }
        }
        assert(each_once(others)) by {
            assert forall|i: int, j: int| 0 <= i < j < others.len() implies (
            #[trigger] others[i]).0 != (#[trigger] others[j]).0 by {
                let a = if i < at {
                    i
                } else {
                    i + 1
                };
                let b = if j < at {
                    j
                } else {
                    j + 1
                };
                assert(others[i] == second[a]);
                assert(others[j] == second[b]);
            }
        }
        assert forall|other: Seq<char>| was_processed(rest, other) <==> was_processed(
            others,
            other,
        ) by {
            if was_processed(rest, other) {
                let i = choose|i: int| 0 <= i < rest.len() && (#[trigger] rest[i]).0 == other;
                assert(rest[i] == first[i]);
                assert(other != path);
                assert(was_processed(first, other));
                let k = choose|k: int| 0 <= k < second.len() && (#[trigger] second[k]).0 == other;
                let m = if k < at {
                    k
                } else {
                    k - 1
                };
                assert(others[m] == second[k]);
            }
            if was_processed(others, other) {
                let m = choose|m: int| 0 <= m < others.len() && (#[trigger] others[m]).0 == other;
                let k = if m < at {
                    m
                } else {
                    m + 1
                };
                assert(others[m] == second[k]);
                assert(other != path);
                assert(was_processed(second, other));
                let i = choose|i: int| 0 <= i < first.len() && (#[trigger] first[i]).0 == other;
                assert(rest[i] == first[i]);
            }
        }
        lemma_total_of_the_same_files(rest, others, weight);
        lemma_total_without(second, at, weight);
    }
}

/// What a run has counted is what the files that it has processed weigh.
pub open spec fn tallied(files: Seq<SourceFileView>, run: RunView) -> bool {
    &&& run.service.warnings == total(run.processed, warnings_at(files, run.runtime.fix))
    &&& run.service.errors == total(run.processed, errors_at(files, run.runtime.fix))
    &&& run.number_of_files == total(run.processed, lint_target_at(files))
    &&& run.runtime.number_of_files_in_node_modules == total(run.processed, vendor_file_at(files))
}

/// Pointing a list of diagnostics into a source text changes neither the
/// number of its warnings nor that of its errors.
pub proof fn lemma_wrapping_keeps_tally(
    path: Seq<char>,
    text: Seq<char>,
    diagnostics: Seq<DiagnosticView>,
)
    ensures
        warnings_in(wrapped(path, text, diagnostics).1) == warnings_in(diagnostics),
        errors_in(wrapped(path, text, diagnostics).1) == errors_in(diagnostics),
    decreases diagnostics.len(),
{
    if diagnostics.len() > 0 {
        lemma_wrapping_keeps_tally(path, text, diagnostics.drop_last());
        assert(wrapped(path, text, diagnostics).1.drop_last() =~= wrapped(
            path,
            text,
            diagnostics.drop_last(),
        ).1);
    }
}

/// A step keeps the tally, and changes no option.
pub proof fn lemma_step_tallied(files: Seq<SourceFileView>, run: RunView, path: Seq<char>)
    requires
        sound(files, run),
        tallied(files, run),
    ensures
        tallied(files, step(files, run, path).0),
        step(files, run, path).0.runtime.fix == run.runtime.fix,
        step(files, run, path).0.service.quiet == run.service.quiet,
        step(files, run, path).0.service.max_warnings == run.service.max_warnings,
{
    let next = step(files, run, path).0;
    if next != run {
        lemma_step_lightens(files, run, path);
        lemma_first_exists(files, path);
        let file = file_of(files, path);
        let fix = run.runtime.fix;
        let diagnostics = diagnostics_of(fix, path, file);
        lemma_wrapping_keeps_tally(path, file.source_text, diagnostics);
        lemma_counts(run.service, wrapped(path, file.source_text, diagnostics).1);
        assert(next.processed.drop_last() =~= run.processed);
        assert(next.processed.last().0 == path);
    }
}

/// A run that has kept the tally at some moment has kept it at its end,
/// and ends with the options that it had.
pub proof fn lemma_traverse_tallied(files: Seq<SourceFileView>, run: RunView, stack: Seq<Seq<char>>)
    requires
        sound(files, run),
        tallied(files, run),
    ensures
        tallied(files, traverse(files, run, stack)),
        traverse(files, run, stack).runtime.fix == run.runtime.fix,
        traverse(files, run, stack).service.quiet == run.service.quiet,
        traverse(files, run, stack).service.max_warnings == run.service.max_warnings,
    decreases load(files, run.runtime), stack.len(),
{
    if stack.len() > 0 {
        lemma_step_lightens(files, run, stack.last());
        lemma_step_sound(files, run, stack.last());
        lemma_step_tallied(files, run, stack.last());
        let (next, spawn) = step(files, run, stack.last());
        lemma_traverse_tallied(files, next, stack.drop_last() + spawn.reverse());
    }
}

/// The path is an entry path, or the target of an import of one of the
/// first `upto` processed files, one that parsed.
pub open spec fn introduced(
    files: Seq<SourceFileView>,
    entries: Seq<Seq<char>>,
    processed: Seq<(Seq<char>, Stage)>,
    upto: int,
    path: Seq<char>,
) -> bool {
    entries.contains(path) || exists|i: int, j: int|
        0 <= i < upto && i < processed.len() && processed[i].1 != Stage::ParseFailed && 0 <= j
            < file_of(files, processed[i].0).imports.len() && #[trigger] import_target(
            files,
            processed[i].0,
            j,
        ) == Some(path)
}

/// Nothing comes from nowhere: every path on the stack was introduced by
/// the entry paths or by a processed file, and every processed file by the
/// entry paths or by a file that was processed before it.
pub open spec fn traced(
    files: Seq<SourceFileView>,
    entries: Seq<Seq<char>>,
    run: RunView,
    stack: Seq<Seq<char>>,
) -> bool {
    &&& forall|k: int|
        0 <= k < stack.len() ==> introduced(
            files,
            entries,
            run.processed,
            run.processed.len() as int,
            #[trigger] stack[k],
        )
    &&& forall|i: int|
        0 <= i < run.processed.len() ==> introduced(
            files,
            entries,
            run.processed,
            i,
            (#[trigger] run.processed[i]).0,
        )
}

/// What was introduced stays introduced when more files are processed.
pub proof fn lemma_introduced_stays(
    files: Seq<SourceFileView>,
    entries: Seq<Seq<char>>,
    processed: Seq<(Seq<char>, Stage)>,
    upto: int,
    path: Seq<char>,
    more: Seq<(Seq<char>, Stage)>,
    later: int,
)
    requires
        introduced(files, entries, processed, upto, path),
        upto <= later,
        processed.len() <= more.len(),
        forall|i: int| 0 <= i < processed.len() ==> more[i] == processed[i],
    ensures
        introduced(files, entries, more, later, path),
{
    if !entries.contains(path) {
        let (i, j) = choose|i: int, j: int|
            0 <= i < upto && i < processed.len() && processed[i].1 != Stage::ParseFailed && 0 <= j
                < file_of(files, processed[i].0).imports.len() && #[trigger] import_target(
                files,
                processed[i].0,
                j,
            ) == Some(path);
        assert(more[i] == processed[i]);
        assert(import_target(files, more[i].0, j) == Some(path));
    }
}

/// A step introduces what it puts onto the stack.
pub proof fn lemma_step_traced(
    files: Seq<SourceFileView>,
    entries: Seq<Seq<char>>,
    run: RunView,
    stack: Seq<Seq<char>>,
)
    requires
        traced(files, entries, run, stack),
        stack.len() > 0,
    ensures
        traced(
            files,
            entries,
            step(files, run, stack.last()).0,
            stack.drop_last() + step(files, run, stack.last()).1.reverse(),
        ),
{
    let path = stack.last();
    let (next, spawn) = step(files, run, path);
    let rest = stack.drop_last();
    let after = rest + spawn.reverse();
    let n = run.processed.len() as int;
    lemma_step_lightens(files, run, path);
    if next == run {
        assert(after =~= rest);
        assert forall|k: int| 0 <= k < after.len() implies introduced(
            files,
            entries,
            next.processed,
            next.processed.len() as int,
            #[trigger] after[k],
        ) by {
            assert(after[k] == stack[k]);
        }
    } else {
        lemma_first_exists(files, path);
        let file = file_of(files, path);
        assert(next.processed.len() == n + 1);
        assert(next.processed.drop_last() =~= run.processed);
        assert(next.processed[n].0 == path);
        assert forall|i: int| 0 <= i < next.processed.len() implies introduced(
            files,
            entries,
            next.processed,
            i,
            (#[trigger] next.processed[i]).0,
        ) by {
            if i < n {
                assert(next.processed[i] == run.processed[i]);
                lemma_introduced_stays(
                    files,
                    entries,
                    run.processed,
                    i,
                    run.processed[i].0,
                    next.processed,
                    i,
                );
            } else {
                assert(stack[stack.len() - 1] == path);
                lemma_introduced_stays(files, entries, run.processed, n, path, next.processed, n);
            }
        }
        assert forall|k: int| 0 <= k < after.len() implies introduced(
            files,
            entries,
            next.processed,
            next.processed.len() as int,
            #[trigger] after[k],
        ) by {
            if k < rest.len() {
                assert(after[k] == stack[k]);
                lemma_introduced_stays(
                    files,
                    entries,
                    run.processed,
                    n,
                    stack[k],
                    next.processed,
                    n + 1,
                );
            } else {
                let at = spawn.len() - 1 - (k - rest.len());
                assert(after[k] == spawn[at]);
                assert(file.parse_errors.len() == 0);
                let records = run.runtime.init_cache_state(path).store(
                    path,
                    crate::source_file::specifiers_of(file.imports),
                ).module_map;
                lemma_spawned_are_targets(records, file.imports, at);
                let j = choose|j: int|
                    0 <= j < file.imports.len() && (#[trigger] file.imports[j]).target == Some(
                        spawn[at],
                    );
                assert(next.processed[n].1 != Stage::ParseFailed);
                assert(import_target(files, next.processed[n].0, j) == Some(after[k]));
            }
        }
    }
}

/// A run in which nothing came from nowhere at some moment is such a run
/// at its end.
pub proof fn lemma_traverse_traced(
    files: Seq<SourceFileView>,
    entries: Seq<Seq<char>>,
    run: RunView,
    stack: Seq<Seq<char>>,
)
    requires
        traced(files, entries, run, stack),
    ensures
        traced(files, entries, traverse(files, run, stack), Seq::empty()),
    decreases load(files, run.runtime), stack.len(),
{
    if stack.len() > 0 {
        lemma_step_lightens(files, run, stack.last());
        lemma_step_traced(files, entries, run, stack);
        let (next, spawn) = step(files, run, stack.last());
        lemma_traverse_traced(files, entries, next, stack.drop_last() + spawn.reverse());
    } else {
        assert(stack =~= Seq::empty());
    }
}

/// Nothing is processed that is not reached: every file that a run
/// processes is named by an entry path or by an import of a file that was
/// processed before it and did parse.
pub proof fn lemma_only_what_is_reached(options: CliLintOptionsView, files: Seq<SourceFileView>)
    ensures
        forall|i: int|
            0 <= i < end_of_run(options, files).processed.len() ==> introduced(
                files,
                options.paths,
                end_of_run(options, files).processed,
                i,
                (#[trigger] end_of_run(options, files).processed[i]).0,
            ),
{
    let start = RunView::start(options);
    let stack = options.paths.reverse();
    assert(traced(files, options.paths, start, stack)) by {
        assert forall|k: int| 0 <= k < stack.len() implies introduced(
            files,
            options.paths,
            start.processed,
            0,
            #[trigger] stack[k],
        ) by {
            assert(options.paths[options.paths.len() - 1 - k] == stack[k]);
        }
    }
    lemma_traverse_traced(files, options.paths, start, stack);
}

/// The options differ in the order of the entry paths at most, and in how
/// often an entry path is given.
pub open spec fn same_but_for_order(first: CliLintOptionsView, second: CliLintOptionsView) -> bool {
    &&& first.quiet == second.quiet
    &&& first.max_warnings == second.max_warnings
    &&& first.fix == second.fix
    &&& first.rules == second.rules
    &&& forall|path: Seq<char>| first.paths.contains(path) <==> second.paths.contains(path)
}

/// What one run processes, another run over the same files processes too,
/// if it starts from the same entry paths.
proof fn lemma_processed_by_both(
    first: CliLintOptionsView,
    second: CliLintOptionsView,
    files: Seq<SourceFileView>,
    i: int,
)
    requires
        same_but_for_order(first, second),
        covers(files, second.paths),
        is_closed(files),
        0 <= i < end_of_run(first, files).processed.len(),
    ensures
        was_processed(end_of_run(second, files).processed, end_of_run(first, files).processed[i].0),
    decreases i,
{
    let a = end_of_run(first, files);
    let b = end_of_run(second, files);
    let path = a.processed[i].0;
    lemma_start_sound(files, first);
    lemma_traverse_sound(files, RunView::start(first), first.paths.reverse());
    lemma_start_sound(files, second);
    lemma_traverse_sound(files, RunView::start(second), second.paths.reverse());
    lemma_imports_are_followed(second, files);
    lemma_only_what_is_reached(first, files);
    assert(introduced(files, first.paths, a.processed, i, a.processed[i].0));
    if first.paths.contains(path) {
        assert(second.paths.contains(path));
        let k = choose|k: int| 0 <= k < second.paths.len() && second.paths[k] == path;
        assert(was_processed(b.processed, second.paths[k]));
    } else {
        let (from, j) = choose|from: int, j: int|
            0 <= from < i && from < a.processed.len() && a.processed[from].1 != Stage::ParseFailed
                && 0 <= j < file_of(files, a.processed[from].0).imports.len()
                && #[trigger] import_target(files, a.processed[from].0, j) == Some(path);
        lemma_processed_by_both(first, second, files, from);
        let parent = a.processed[from].0;
        let m = choose|m: int| 0 <= m < b.processed.len() && (#[trigger] b.processed[m]).0 == parent;
        assert(b.processed[m].1 == stage_of(parent, file_of(files, parent)));
        assert(a.processed[from].1 == stage_of(parent, file_of(files, parent)));
        assert(import_target(files, b.processed[m].0, j) == Some(path));
    }
}

/// The order of the entry paths does not matter, nor how often one of
/// them is given: two runs over the same files that start from the same
/// entry paths process the same files, each once, and count the same:
/// as many lint targets, as many vendor files, as many warnings and as
/// many errors, so that the threshold is exceeded in both or in neither.
pub proof fn lemma_order_does_not_matter(
    first: CliLintOptionsView,
    second: CliLintOptionsView,
    files: Seq<SourceFileView>,
)
    requires
        same_but_for_order(first, second),
        covers(files, first.paths),
        is_closed(files),
    ensures
        forall|path: Seq<char>|
            was_processed(end_of_run(first, files).processed, path) <==> was_processed(
                end_of_run(second, files).processed,
                path,
            ),
        end_of_run(first, files).processed.len() == end_of_run(second, files).processed.len(),
        end_of_run(first, files).result().number_of_files == end_of_run(
            second,
            files,
        ).result().number_of_files,
        end_of_run(first, files).result().number_of_files_in_node_modules == end_of_run(
            second,
            files,
        ).result().number_of_files_in_node_modules,
        end_of_run(first, files).result().number_of_warnings == end_of_run(
            second,
            files,
        ).result().number_of_warnings,
        end_of_run(first, files).result().number_of_errors == end_of_run(
            second,
            files,
        ).result().number_of_errors,
        end_of_run(first, files).result().max_warnings_exceeded == end_of_run(
            second,
            files,
        ).result().max_warnings_exceeded,
{
    let a = end_of_run(first, files);
    let b = end_of_run(second, files);
    assert(covers(files, second.paths)) by {
        assert forall|k: int| 0 <= k < second.paths.len() implies is_readable(
            files,
            #[trigger] second.paths[k],
        ) by {
            assert(second.paths.contains(second.paths[k]));
            let m = choose|m: int| 0 <= m < first.paths.len() && first.paths[m] == second.paths[k];
            assert(is_readable(files, first.paths[m]));
        }
    }
    assert forall|path: Seq<char>| was_processed(a.processed, path) <==> was_processed(
        b.processed,
        path,
    ) by {
        if was_processed(a.processed, path) {
            let i = choose|i: int| 0 <= i < a.processed.len() && (#[trigger] a.processed[i]).0 == path;
            lemma_processed_by_both(first, second, files, i);
        }
        if was_processed(b.processed, path) {
            let i = choose|i: int| 0 <= i < b.processed.len() && (#[trigger] b.processed[i]).0 == path;
            lemma_processed_by_both(second, first, files, i);
        }
    }
    lemma_start_sound(files, first);
    lemma_traverse_sound(files, RunView::start(first), first.paths.reverse());
    lemma_traverse_tallied(files, RunView::start(first), first.paths.reverse());
    lemma_start_sound(files, second);
    lemma_traverse_sound(files, RunView::start(second), second.paths.reverse());
    lemma_traverse_tallied(files, RunView::start(second), second.paths.reverse());
    lemma_total_of_the_same_files(a.processed, b.processed, warnings_at(files, first.fix));
    lemma_total_of_the_same_files(a.processed, b.processed, errors_at(files, first.fix));
    lemma_total_of_the_same_files(a.processed, b.processed, lint_target_at(files));
    lemma_total_of_the_same_files(a.processed, b.processed, vendor_file_at(files));
}

/// What is reported for the file at `path` in a run without a threshold:
/// its diagnostics, each pointing into the file's text; under quiet mode
/// the errors among them.
pub open spec fn report_of(
    options: CliLintOptionsView,
    files: Seq<SourceFileView>,
    path: Seq<char>,
) -> BatchView {
    let file = file_of(files, path);
    let batch = wrapped(path, file.source_text, diagnostics_of(options.fix, path, file));
    (
        batch.0,
        if options.quiet {
            errors_of(batch.1)
        } else {
            batch.1
        },
    )
}

/// One for a path whose file has diagnostics, none for any other.
pub open spec fn report_at(files: Seq<SourceFileView>, fix: bool) -> spec_fn(Seq<char>) -> nat {
    |path: Seq<char>|
        if diagnostics_of(fix, path, file_of(files, path)).len() > 0 {
            1nat
        } else {
            0nat
        }
}

/// In a run without a threshold the reports are those of the processed
/// files that have diagnostics, one for each.
pub open spec fn reported(
    options: CliLintOptionsView,
    files: Seq<SourceFileView>,
    run: RunView,
) -> bool {
    &&& run.runtime.fix == options.fix
    &&& run.service.quiet == options.quiet
    &&& run.service.max_warnings is None
    &&& run.reports.len() == total(run.processed, report_at(files, options.fix))
    &&& forall|k: int|
        0 <= k < run.reports.len() ==> was_processed(run.processed, (#[trigger] run.reports[k]).0)
            && report_at(files, options.fix)(run.reports[k].0) == 1 && run.reports[k] == report_of(
            options,
            files,
            run.reports[k].0,
        )
    &&& forall|i: int|
        0 <= i < run.processed.len() && report_at(files, options.fix)(
            (#[trigger] run.processed[i]).0,
        ) == 1 ==> run.reports.contains(report_of(options, files, run.processed[i].0))
}

/// A step reports the file that it processes, if the file has diagnostics.
pub proof fn lemma_step_reported(
    options: CliLintOptionsView,
    files: Seq<SourceFileView>,
    run: RunView,
    path: Seq<char>,
)
    requires
        sound(files, run),
        reported(options, files, run),
    ensures
        reported(options, files, step(files, run, path).0),
{
    let next = step(files, run, path).0;
    if next != run {
        lemma_step_lightens(files, run, path);
        lemma_first_exists(files, path);
        let file = file_of(files, path);
        let diagnostics = diagnostics_of(options.fix, path, file);
        let batch = wrapped(path, file.source_text, diagnostics);
        let n = run.processed.len() as int;
        lemma_counts(run.service, batch.1);
        if options.quiet {
            lemma_quiet_mode(run.service, batch.1);
        } else {
            lemma_everything_shown(run.service, batch.1);
        }
        assert(next.processed.drop_last() =~= run.processed);
        assert(next.processed[n].0 == path);
        assert forall|k: int| 0 <= k < next.reports.len() implies was_processed(
            next.processed,
            (#[trigger] next.reports[k]).0,
        ) && report_at(files, options.fix)(next.reports[k].0) == 1 && next.reports[k] == report_of(
            options,
            files,
            next.reports[k].0,
        ) by {
            if k < run.reports.len() {
                assert(next.reports[k] == run.reports[k]);
                let i = choose|i: int|
                    0 <= i < run.processed.len() && (#[trigger] run.processed[i]).0
                        == run.reports[k].0;
                assert(next.processed[i] == run.processed[i]);
            }
        }
        assert forall|i: int|
            0 <= i < next.processed.len() && report_at(files, options.fix)(
                (#[trigger] next.processed[i]).0,
            ) == 1 implies next.reports.contains(
            report_of(options, files, next.processed[i].0),
        ) by {
            if i < n {
                assert(next.processed[i] == run.processed[i]);
                let wanted = report_of(options, files, run.processed[i].0);
                let k = choose|k: int| 0 <= k < run.reports.len() && run.reports[k] == wanted;
                assert(next.reports[k] == wanted);
            } else {
                assert(next.reports[next.reports.len() - 1] == report_of(options, files, path));
            }
        }
    }
}

/// A run without a threshold whose reports are those of its files at some
/// moment is such a run at its end.
pub proof fn lemma_traverse_reported(
    options: CliLintOptionsView,
    files: Seq<SourceFileView>,
    run: RunView,
    stack: Seq<Seq<char>>,
)
    requires
        sound(files, run),
        reported(options, files, run),
    ensures
        reported(options, files, traverse(files, run, stack)),
    decreases load(files, run.runtime), stack.len(),
{
    if stack.len() > 0 {
        lemma_step_lightens(files, run, stack.last());
        lemma_step_sound(files, run, stack.last());
        lemma_step_reported(options, files, run, stack.last());
        let (next, spawn) = step(files, run, stack.last());
        lemma_traverse_reported(options, files, next, stack.drop_last() + spawn.reverse());
    }
}

/// Without a threshold the order of the entry paths does not matter to
/// what is reported either: two runs over the same files that start from
/// the same entry paths report the same batches, in whatever order, and
/// as many.
pub proof fn lemma_reports_do_not_depend_on_order(
    first: CliLintOptionsView,
    second: CliLintOptionsView,
    files: Seq<SourceFileView>,
)
    requires
        same_but_for_order(first, second),
        first.max_warnings is None,
        covers(files, first.paths),
        is_closed(files),
    ensures
        forall|batch: BatchView|
            end_of_run(first, files).reports.contains(batch) <==> end_of_run(
                second,
                files,
            ).reports.contains(batch),
        end_of_run(first, files).reports.len() == end_of_run(second, files).reports.len(),
{
    let a = end_of_run(first, files);
    let b = end_of_run(second, files);
    lemma_order_does_not_matter(first, second, files);
    lemma_start_sound(files, first);
    lemma_traverse_sound(files, RunView::start(first), first.paths.reverse());
    lemma_traverse_reported(first, files, RunView::start(first), first.paths.reverse());
    lemma_start_sound(files, second);
    lemma_traverse_sound(files, RunView::start(second), second.paths.reverse());
    lemma_traverse_reported(second, files, RunView::start(second), second.paths.reverse());
    lemma_total_of_the_same_files(a.processed, b.processed, report_at(files, first.fix));
    assert forall|batch: BatchView| a.reports.contains(batch) <==> b.reports.contains(batch) by {
        if a.reports.contains(batch) {
            let k = choose|k: int| 0 <= k < a.reports.len() && a.reports[k] == batch;
            assert(was_processed(a.processed, a.reports[k].0));
            assert(was_processed(b.processed, batch.0));
            let i = choose|i: int| 0 <= i < b.processed.len() && (#[trigger] b.processed[i]).0 == batch.0;
            assert(report_of(first, files, batch.0) == report_of(second, files, batch.0));
        }
        if b.reports.contains(batch) {
            let k = choose|k: int| 0 <= k < b.reports.len() && b.reports[k] == batch;
            assert(was_processed(b.processed, b.reports[k].0));
            assert(was_processed(a.processed, batch.0));
            let i = choose|i: int| 0 <= i < a.processed.len() && (#[trigger] a.processed[i]).0 == batch.0;
            assert(report_of(first, files, batch.0) == report_of(second, files, batch.0));
        }
    }
}

} // verus!
