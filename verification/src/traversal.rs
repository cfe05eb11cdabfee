//! What holds of every run, whatever the project and whatever the order in
//! which its files import one another.

use crate::file_identity::{is_vendor_path, source_type_known};
use crate::project::{
    covers, file_of, has_file, is_closed, is_readable, lemma_first_exists,
};
use crate::runner::{lemma_step_lightens, load, step, traverse, CliLintOptionsView, RunView};
use crate::service::{spawned, PathOutcomeView, RuntimeView, Stage};
use crate::source_file::{specifiers_of, ImportView, SourceFileView};
use vstd::prelude::*;

verus! {

/// How far the processing of the file `file` at `path` goes.
pub open spec fn stage_of(path: Seq<char>, file: SourceFileView) -> Stage {
    if file.parse_errors.len() > 0 {
        Stage::ParseFailed
    } else if is_vendor_path(path) {
        Stage::Vendor
    } else if file.semantic_errors.len() > 0 {
        Stage::SemanticFailed
    } else {
        Stage::Linted
    }
}

/// The file at `path` has been processed.
pub open spec fn was_processed(processed: Seq<(Seq<char>, Stage)>, path: Seq<char>) -> bool {
    exists|i: int| 0 <= i < processed.len() && (#[trigger] processed[i]).0 == path
}

/// How many of the processed files were lint targets.
pub open spec fn lint_targets(processed: Seq<(Seq<char>, Stage)>) -> nat
    decreases processed.len(),
{
    if processed.len() == 0 {
        0
    } else {
        lint_targets(processed.drop_last()) + if processed.last().1 == Stage::Vendor {
            0nat
        } else {
            1nat
        }
    }
}

/// How many of the processed files were vendor files that were traversed
/// only.
pub open spec fn vendor_files(processed: Seq<(Seq<char>, Stage)>) -> nat
    decreases processed.len(),
{
    if processed.len() == 0 {
        0
    } else {
        vendor_files(processed.drop_last()) + if processed.last().1 == Stage::Vendor {
            1nat
        } else {
            0nat
        }
    }
}

/// What holds of a run at every moment.
pub open spec fn sound(files: Seq<SourceFileView>, run: RunView) -> bool {
    &&& forall|i: int|
        0 <= i < run.processed.len() ==> {
            let path = (#[trigger] run.processed[i]).0;
            &&& source_type_known(path)
            &&& has_file(files, path)
            &&& !run.runtime.accepts(path)
            &&& run.processed[i].1 == stage_of(path, file_of(files, path))
            &&& run.runtime.cached(path) <==> run.processed[i].1 != Stage::ParseFailed
        }
    &&& forall|i: int, j: int|
        0 <= i < j < run.processed.len() ==> (#[trigger] run.processed[i]).0 != (
        #[trigger] run.processed[j]).0
    &&& forall|path: Seq<char>|
        source_type_known(path) && !(#[trigger] run.runtime.accepts(path)) ==> was_processed(
            run.processed,
            path,
        )
    &&& forall|path: Seq<char>| #[trigger]
        run.runtime.cached(path) ==> was_processed(run.processed, path)
            && run.runtime.module_map[path] == specifiers_of(file_of(files, path).imports)
    &&& forall|k: int|
        0 <= k < run.reports.len() ==> reported_file(run.processed, (#[trigger] run.reports[k]).0)
    &&& run.number_of_files == lint_targets(run.processed)
    &&& run.runtime.number_of_files_in_node_modules == vendor_files(run.processed)
}

/// The file at `path` has been processed as a lint target.
pub open spec fn reported_file(processed: Seq<(Seq<char>, Stage)>, path: Seq<char>) -> bool {
    exists|i: int|
        0 <= i < processed.len() && (#[trigger] processed[i]).0 == path && processed[i].1
            != Stage::Vendor
}

/// A run starts sound.
pub proof fn lemma_start_sound(files: Seq<SourceFileView>, options: CliLintOptionsView)
    ensures
        sound(files, RunView::start(options)),
{
}

/// A step keeps a run sound.
pub proof fn lemma_step_sound(files: Seq<SourceFileView>, run: RunView, path: Seq<char>)
    requires
        sound(files, run),
    ensures
        sound(files, step(files, run, path).0),
{
    let next = step(files, run, path).0;
    if next != run {
        lemma_step_lightens(files, run, path);
        lemma_first_exists(files, path);
        let file = file_of(files, path);
        let outcome = run.runtime.process_path(path, file).1;
        let stage = stage_of(path, file);
        let n = run.processed.len() as int;
        assert(next.processed == run.processed.push((path, stage)));
        assert(next.processed.drop_last() =~= run.processed);
        assert(run.runtime.accepts(path));
        assert(!was_processed(run.processed, path)) by {
            if was_processed(run.processed, path) {
                let i = choose|i: int|
                    0 <= i < run.processed.len() && (#[trigger] run.processed[i]).0 == path;
                assert(!run.runtime.accepts(run.processed[i].0));
            }
        }
        assert forall|i: int| 0 <= i < next.processed.len() implies {
            let p = (#[trigger] next.processed[i]).0;
            &&& source_type_known(p)
            &&& has_file(files, p)
            &&& !next.runtime.accepts(p)
            &&& next.processed[i].1 == stage_of(p, file_of(files, p))
            &&& next.runtime.cached(p) <==> next.processed[i].1 != Stage::ParseFailed
        } by {
            if i < n {
                assert(next.processed[i] == run.processed[i]);
                let p = run.processed[i].0;
                assert(p != path);
                assert(next.runtime.cached(p) == run.runtime.cached(p));
                assert(next.runtime.gate(p) == run.runtime.gate(p));
            }
        }
        assert forall|i: int, j: int| 0 <= i < j < next.processed.len() implies (
        #[trigger] next.processed[i]).0 != (#[trigger] next.processed[j]).0 by {
            if j < n {
                assert(next.processed[i] == run.processed[i]);
                assert(next.processed[j] == run.processed[j]);
            } else {
                assert(next.processed[i] == run.processed[i]);
            }
        }
        assert forall|p: Seq<char>|
            source_type_known(p) && !(#[trigger] next.runtime.accepts(p)) implies was_processed(
            next.processed,
            p,
        ) by {
            if p == path {
                assert(next.processed[n].0 == path);
            } else {
                assert(next.runtime.cached(p) == run.runtime.cached(p));
                assert(next.runtime.gate(p) == run.runtime.gate(p));
                assert(!run.runtime.accepts(p));
                let i = choose|i: int|
                    0 <= i < run.processed.len() && (#[trigger] run.processed[i]).0 == p;
                assert(next.processed[i] == run.processed[i]);
            }
        }
        assert forall|p: Seq<char>| #[trigger] next.runtime.cached(p) implies was_processed(
            next.processed,
            p,
        ) && next.runtime.module_map[p] == specifiers_of(file_of(files, p).imports) by {
            if p == path {
                assert(next.processed[n].0 == path);
            } else {
                assert(run.runtime.cached(p));
                let i = choose|i: int|
                    0 <= i < run.processed.len() && (#[trigger] run.processed[i]).0 == p;
                assert(next.processed[i] == run.processed[i]);
                assert(next.runtime.module_map[p] == run.runtime.module_map[p]);
            }
        }
        assert forall|k: int| 0 <= k < next.reports.len() implies reported_file(
            next.processed,
            (#[trigger] next.reports[k]).0,
        ) by {
            if k < run.reports.len() {
                assert(next.reports[k] == run.reports[k]);
                let i = choose|i: int|
                    0 <= i < run.processed.len() && (#[trigger] run.processed[i]).0
                        == run.reports[k].0 && run.processed[i].1 != Stage::Vendor;
                assert(next.processed[i] == run.processed[i]);
            } else {
                assert(next.reports[k].0 == path);
                assert(stage != Stage::Vendor);
                assert(next.processed[n] == (path, stage));
            }
        }
    }
}

/// A run is sound at its end if it is sound at some moment before.
pub proof fn lemma_traverse_sound(files: Seq<SourceFileView>, run: RunView, stack: Seq<Seq<char>>)
    requires
        sound(files, run),
    ensures
        sound(files, traverse(files, run, stack)),
    decreases load(files, run.runtime), stack.len(),
{
    if stack.len() > 0 {
        lemma_step_lightens(files, run, stack.last());
        lemma_step_sound(files, run, stack.last());
        let (next, spawn) = step(files, run, stack.last());
        lemma_traverse_sound(files, next, stack.drop_last() + spawn.reverse());
    }
}

/// The path is taken care of: it waits on the stack, or the processor
/// takes it on no more.
pub open spec fn due(run: RunView, stack: Seq<Seq<char>>, path: Seq<char>) -> bool {
    stack.contains(path) || !run.runtime.accepts(path)
}

/// What the `j`th import of the file at `path` resolves to.
pub open spec fn import_target(files: Seq<SourceFileView>, path: Seq<char>, j: int) -> Option<
    Seq<char>,
> {
    file_of(files, path).imports[j].target
}

/// Nothing that is to be processed has been lost sight of: every path on
/// the stack names a file that can be read, every entry path is taken care
/// of, and so is
/// every import target of every file that was processed and did parse.
pub open spec fn follows(
    files: Seq<SourceFileView>,
    entries: Seq<Seq<char>>,
    run: RunView,
    stack: Seq<Seq<char>>,
) -> bool {
    &&& forall|k: int| 0 <= k < stack.len() ==> is_readable(files, #[trigger] stack[k])
    &&& forall|k: int| 0 <= k < entries.len() ==> due(run, stack, #[trigger] entries[k])
    &&& forall|i: int, j: int|
        0 <= i < run.processed.len() && run.processed[i].1 != Stage::ParseFailed && 0 <= j
            < file_of(files, run.processed[i].0).imports.len() ==> match #[trigger] import_target(
            files,
            run.processed[i].0,
            j,
        ) {
            Some(target) => due(run, stack, target),
            None => true,
        }
}

/// Every import target has a record or is among the spawned paths.
pub proof fn lemma_targets_are_spawned(
    records: Map<Seq<char>, Seq<Seq<char>>>,
    imports: Seq<ImportView>,
    j: int,
)
    requires
        0 <= j < imports.len(),
        imports[j].target is Some,
    ensures
        records.dom().contains(imports[j].target->0) || spawned(records, imports).contains(
            imports[j].target->0,
        ),
    decreases imports.len(),
{
    let target = imports[j].target->0;
    let all = spawned(records, imports);
    if !records.dom().contains(target) {
        if j == imports.len() - 1 {
            assert(all[all.len() - 1] == target);
        } else {
            lemma_targets_are_spawned(records, imports.drop_last(), j);
            let earlier = spawned(records, imports.drop_last());
            let k = choose|k: int| 0 <= k < earlier.len() && earlier[k] == target;
            assert(all[k] == target);
        }
    }
}

/// A step loses sight of nothing.
pub proof fn lemma_step_follows(
    files: Seq<SourceFileView>,
    entries: Seq<Seq<char>>,
    run: RunView,
    stack: Seq<Seq<char>>,
)
    requires
        is_closed(files),
        sound(files, run),
        follows(files, entries, run, stack),
        stack.len() > 0,
    ensures
        follows(
            files,
            entries,
            step(files, run, stack.last()).0,
            stack.drop_last() + step(files, run, stack.last()).1.reverse(),
        ),
{
    let path = stack.last();
    let (next, spawn) = step(files, run, path);
    let rest = stack.drop_last();
    let after = rest + spawn.reverse();
    let file = file_of(files, path);
    assert(is_readable(files, stack[stack.len() - 1]));
    if has_file(files, path) {
        lemma_first_exists(files, path);
    }
    lemma_step_lightens(files, run, path);
    lemma_step_sound(files, run, path);
    crate::runner::lemma_step_yields_files(files, run, path);
    if next != run {
        crate::runner::lemma_processed_once(run.runtime, path, file);
    }
    assert(!next.runtime.accepts(path));
    assert forall|k: int| 0 <= k < after.len() implies is_readable(files, #[trigger] after[k]) by {
        if k < rest.len() {
            assert(after[k] == stack[k]);
        } else {
            assert(after[k] == spawn[spawn.len() - 1 - (k - rest.len())]);
        }
    }
    assert forall|p: Seq<char>| due(run, stack, p) implies due(next, after, p) by {
        if next.runtime.accepts(p) {
            assert(run.runtime.accepts(p));
            let k = choose|k: int| 0 <= k < stack.len() && stack[k] == p;
            assert(p != path);
            assert(k < rest.len());
            assert(after[k] == p);
        }
    }
    assert forall|i: int, j: int|
        0 <= i < next.processed.len() && next.processed[i].1 != Stage::ParseFailed && 0 <= j
            < file_of(files, next.processed[i].0).imports.len() implies match #[trigger] import_target(
        files,
        next.processed[i].0,
        j,
    ) {
        Some(target) => due(next, after, target),
        None => true,
    } by {
        if i < run.processed.len() {
            assert(next.processed[i] == run.processed[i]);
            match import_target(files, run.processed[i].0, j) {
                Some(target) => {
                    assert(due(run, stack, target));
                },
                None => {},
            }
        } else {
            assert(next.processed[i].0 == path);
            match import_target(files, path, j) {
                Some(target) => {
                    lemma_targets_are_spawned(next.runtime.module_map, file.imports, j);
                    if !next.runtime.module_map.dom().contains(target) {
                        let k = choose|k: int| 0 <= k < spawn.len() && spawn[k] == target;
                        assert(after[rest.len() + (spawn.len() - 1 - k)] == target);
                    }
                },
                None => {},
            }
        }
    }
}

/// A run that has lost sight of nothing at some moment has lost sight of
/// nothing at its end.
pub proof fn lemma_traverse_follows(
    files: Seq<SourceFileView>,
    entries: Seq<Seq<char>>,
    run: RunView,
    stack: Seq<Seq<char>>,
)
    requires
        is_closed(files),
        sound(files, run),
        follows(files, entries, run, stack),
    ensures
        follows(files, entries, traverse(files, run, stack), Seq::empty()),
        sound(files, traverse(files, run, stack)),
    decreases load(files, run.runtime), stack.len(),
{
    if stack.len() > 0 {
        lemma_step_lightens(files, run, stack.last());
        lemma_step_sound(files, run, stack.last());
        lemma_step_follows(files, entries, run, stack);
        let (next, spawn) = step(files, run, stack.last());
        lemma_traverse_follows(files, entries, next, stack.drop_last() + spawn.reverse());
    } else {
        assert(stack =~= Seq::empty());
    }
}

/// The state in which a run with the options `options` over the files
/// `files` ends.
pub open spec fn end_of_run(options: CliLintOptionsView, files: Seq<SourceFileView>) -> RunView {
    traverse(files, RunView::start(options), options.paths.reverse())
}

/// At most once: however many import edges lead to a file, and whether or
/// not they run in a cycle, a run processes no file twice. A record in the
/// cache is the record of a file that was processed and did parse, and it
/// holds the module requests of that file.
pub proof fn lemma_no_file_twice(options: CliLintOptionsView, files: Seq<SourceFileView>)
    ensures
        forall|i: int, j: int|
            0 <= i < j < end_of_run(options, files).processed.len() ==> (#[trigger] end_of_run(
                options,
                files,
            ).processed[i]).0 != (#[trigger] end_of_run(options, files).processed[j]).0,
        forall|path: Seq<char>| #[trigger]
            end_of_run(options, files).runtime.cached(path) ==> was_processed(
                end_of_run(options, files).processed,
                path,
            ) && end_of_run(options, files).runtime.module_map[path] == specifiers_of(
                file_of(files, path).imports,
            ),
{
    lemma_start_sound(files, options);
    lemma_traverse_sound(files, RunView::start(options), options.paths.reverse());
}

/// An unsupported extension: a path that does not name source code is not
/// processed, whoever imports it and wherever it is handed in. It is not
/// counted, and no diagnostics are reported for it.
pub proof fn lemma_unsupported_is_left_alone(
    options: CliLintOptionsView,
    files: Seq<SourceFileView>,
    path: Seq<char>,
)
    requires
        !source_type_known(path),
    ensures
        !was_processed(end_of_run(options, files).processed, path),
        forall|k: int|
            0 <= k < end_of_run(options, files).reports.len() ==> (#[trigger] end_of_run(
                options,
                files,
            ).reports[k]).0 != path,
        end_of_run(options, files).number_of_files == lint_targets(
            end_of_run(options, files).processed,
        ),
        forall|runtime: RuntimeView, file: SourceFileView| #[trigger]
            runtime.process_path(path, file) == (runtime, PathOutcomeView::Unsupported),
{
    let end = end_of_run(options, files);
    lemma_start_sound(files, options);
    lemma_traverse_sound(files, RunView::start(options), options.paths.reverse());
    if was_processed(end.processed, path) {
        let i = choose|i: int| 0 <= i < end.processed.len() && (#[trigger] end.processed[i]).0 == path;
        assert(source_type_known(end.processed[i].0));
    }
    assert forall|k: int| 0 <= k < end.reports.len() implies (#[trigger] end.reports[k]).0
        != path by {
        assert(reported_file(end.processed, end.reports[k].0));
        let i = choose|i: int|
            0 <= i < end.processed.len() && (#[trigger] end.processed[i]).0 == end.reports[k].0
                && end.processed[i].1 != Stage::Vendor;
        assert(source_type_known(end.processed[i].0));
    }
}

/// The entry paths and the imports are followed to the end: in a project
/// that holds every file that an entry path or an import names, every
/// entry path that names source code has been processed when the run
/// ends, and so has every import target that names source code of every
/// processed file that did parse. With that, and because no file is
/// processed twice, every file that can be reached is processed exactly
/// once, also where the imports run in a cycle.
pub proof fn lemma_imports_are_followed(options: CliLintOptionsView, files: Seq<SourceFileView>)
    requires
        covers(files, options.paths),
        is_closed(files),
    ensures
        forall|k: int|
            0 <= k < options.paths.len() && source_type_known(#[trigger] options.paths[k])
                ==> was_processed(end_of_run(options, files).processed, options.paths[k]),
        forall|i: int, j: int|
            0 <= i < end_of_run(options, files).processed.len() && end_of_run(
                options,
                files,
            ).processed[i].1 != Stage::ParseFailed && 0 <= j < file_of(
                files,
                end_of_run(options, files).processed[i].0,
            ).imports.len() ==> match #[trigger] import_target(
                files,
                end_of_run(options, files).processed[i].0,
                j,
            ) {
                Some(target) => source_type_known(target) ==> was_processed(
                    end_of_run(options, files).processed,
                    target,
                ),
                None => true,
            },
{
    let start = RunView::start(options);
    let stack = options.paths.reverse();
    let end = end_of_run(options, files);
    lemma_start_sound(files, options);
    assert(follows(files, options.paths, start, stack)) by {
        assert forall|k: int| 0 <= k < stack.len() implies is_readable(files, #[trigger] stack[k]) by {
            assert(stack[k] == options.paths[options.paths.len() - 1 - k]);
        }
        assert forall|k: int| 0 <= k < options.paths.len() implies due(
            start,
            stack,
            #[trigger] options.paths[k],
        ) by {
            assert(stack[options.paths.len() - 1 - k] == options.paths[k]);
        }
    }
    lemma_traverse_follows(files, options.paths, start, stack);
    let none = Seq::<Seq<char>>::empty();
    assert forall|k: int|
        0 <= k < options.paths.len() && source_type_known(
            #[trigger] options.paths[k],
        ) implies was_processed(end.processed, options.paths[k]) by {
        assert(due(end, none, options.paths[k]));
        assert(!end.runtime.accepts(options.paths[k]));
    }
    assert forall|i: int, j: int|
        0 <= i < end.processed.len() && end.processed[i].1 != Stage::ParseFailed && 0 <= j
            < file_of(files, end.processed[i].0).imports.len() implies match #[trigger] import_target(
        files,
        end.processed[i].0,
        j,
    ) {
        Some(target) => source_type_known(target) ==> was_processed(end.processed, target),
        None => true,
    } by {
        match import_target(files, end.processed[i].0, j) {
            Some(target) => {
                assert(due(end, none, target));
                assert(!end.runtime.accepts(target));
            },
            None => {},
        }
    }
}

/// A vendor file is traversed, not linted: a file under a vendor directory
/// that parses has no diagnostics reported for it and is not counted among
/// the lint targets, but as a vendor file; and its imports are followed
/// like those of any other file.
pub proof fn lemma_vendor_files_are_traversed_only(
    options: CliLintOptionsView,
    files: Seq<SourceFileView>,
    path: Seq<char>,
)
    requires
        covers(files, options.paths),
        is_closed(files),
        is_vendor_path(path),
        has_file(files, path),
        file_of(files, path).parse_errors.len() == 0,
    ensures
        forall|k: int|
            0 <= k < end_of_run(options, files).reports.len() ==> (#[trigger] end_of_run(
                options,
                files,
            ).reports[k]).0 != path,
        forall|i: int|
            0 <= i < end_of_run(options, files).processed.len() && (#[trigger] end_of_run(
                options,
                files,
            ).processed[i]).0 == path ==> end_of_run(options, files).processed[i].1
                == Stage::Vendor,
        end_of_run(options, files).number_of_files == lint_targets(
            end_of_run(options, files).processed,
        ),
        end_of_run(options, files).runtime.number_of_files_in_node_modules == vendor_files(
            end_of_run(options, files).processed,
        ),
        was_processed(end_of_run(options, files).processed, path) ==> forall|j: int|
            0 <= j < file_of(files, path).imports.len() ==> match #[trigger] import_target(
                files,
                path,
                j,
            ) {
                Some(target) => source_type_known(target) ==> was_processed(
                    end_of_run(options, files).processed,
                    target,
                ),
                None => true,
            },
{
    let end = end_of_run(options, files);
    lemma_start_sound(files, options);
    lemma_traverse_sound(files, RunView::start(options), options.paths.reverse());
    lemma_imports_are_followed(options, files);
    assert forall|k: int| 0 <= k < end.reports.len() implies (#[trigger] end.reports[k]).0
        != path by {
        assert(reported_file(end.processed, end.reports[k].0));
        let i = choose|i: int|
            0 <= i < end.processed.len() && (#[trigger] end.processed[i]).0 == end.reports[k].0
                && end.processed[i].1 != Stage::Vendor;
        assert(end.processed[i].1 == stage_of(end.processed[i].0, file_of(files, end.processed[i].0)));
    }
    if was_processed(end.processed, path) {
        let i = choose|i: int| 0 <= i < end.processed.len() && (#[trigger] end.processed[i]).0 == path;
        assert(end.processed[i].1 == Stage::Vendor);
        assert forall|j: int| 0 <= j < file_of(files, path).imports.len() implies match #[trigger] import_target(
            files,
            path,
            j,
        ) {
            Some(target) => source_type_known(target) ==> was_processed(end.processed, target),
            None => true,
        } by {
            assert(import_target(files, end.processed[i].0, j) == import_target(files, path, j));
        }
    }
}

} // verus!
