//! What holds however many workers share the state of the file processor,
//! whatever they ask of it and in whatever order they are served.

use crate::cache_state::{interest_in, CacheStateEntry, Interest};
use crate::module_map::lemma_stored_once_keeps;
use crate::service::RuntimeView;
use crate::source_file::{specifiers_of, SourceFileView};
use vstd::prelude::*;

verus! {

/// What a worker may ask of the state that all workers share.
pub enum Request {
    /// To register its interest in a path.
    Enter(Seq<char>),
    /// To store a record for a path, and to complete the construction.
    Store(Seq<char>, Seq<Seq<char>>),
    /// To complete the construction of a path.
    Complete(Seq<char>),
    /// To process the file at a path.
    Path(Seq<char>, SourceFileView),
    /// To process a source text for a path.
    Source(Seq<char>, SourceFileView),
}

/// The state after one request has been served.
pub open spec fn serve(runtime: RuntimeView, request: Request) -> RuntimeView {
    match request {
        Request::Enter(path) => runtime.init_cache_state(path),
        Request::Store(path, record) => runtime.store(path, record),
        Request::Complete(path) => runtime.update_cache_state(path),
        Request::Path(path, file) => runtime.process_path(path, file).0,
        Request::Source(path, file) => runtime.run_source(path, file).0,
    }
}

/// The state after the requests have been served one after the other.
pub open spec fn serve_all(runtime: RuntimeView, requests: Seq<Request>) -> RuntimeView
    decreases requests.len(),
{
    if requests.len() == 0 {
        runtime
    } else {
        serve(serve_all(runtime, requests.drop_last()), requests.last())
    }
}

/// Every construction state counts at least one builder where it is
/// pending.
pub open spec fn gates_well_formed(runtime: RuntimeView) -> bool {
    forall|path: Seq<char>| (#[trigger] runtime.gate(path)).well_formed()
}

/// However many workers there are, whatever they ask of the shared state
/// and in whatever order their requests are served: a record that is in
/// the cache stays there as it is, so that nobody ever finds two different
/// records for one path; the vendor files that were counted stay counted;
/// and the construction states stay well formed.
pub proof fn lemma_records_stay(runtime: RuntimeView, requests: Seq<Request>)
    ensures
        runtime.module_map.submap_of(serve_all(runtime, requests).module_map),
        runtime.number_of_files_in_node_modules <= serve_all(
            runtime,
            requests,
        ).number_of_files_in_node_modules,
        serve_all(runtime, requests).fix == runtime.fix,
        gates_well_formed(runtime) ==> gates_well_formed(serve_all(runtime, requests)),
    decreases requests.len(),
{
    if requests.len() > 0 {
        let before = serve_all(runtime, requests.drop_last());
        let after = serve(before, requests.last());
        lemma_records_stay(runtime, requests.drop_last());
        match requests.last() {
            Request::Enter(path) => {},
            Request::Store(path, record) => {
                lemma_stored_once_keeps(before.module_map, path, record);
            },
            Request::Complete(path) => {},
            Request::Path(path, file) => {
                lemma_cache_is_written_once(before, path, file);
            },
            Request::Source(path, file) => {
                lemma_cache_is_written_once(before, path, file);
            },
        }
        if gates_well_formed(runtime) {
            assert forall|path: Seq<char>| (#[trigger] after.gate(path)).well_formed() by {
                assert(before.gate(path).well_formed());
                match requests.last() {
                    Request::Enter(other) => {
                        assert(before.gate(other).well_formed());
                    },
                    Request::Store(other, record) => {
                        assert(before.gate(other).well_formed());
                    },
                    Request::Complete(other) => {
                        assert(before.gate(other).well_formed());
                    },
                    Request::Path(other, file) => {
                        assert(before.gate(other).well_formed());
                    },
                    Request::Source(other, file) => {
                        assert(before.gate(other).well_formed());
                    },
                }
            }
        }
    }
}

/// One step of a worker that goes by the rules of the pipeline.
pub enum Step {
    /// The worker asks to take on a path. It is registered as the builder
    /// of the path if the path names source code, has no record in the
    /// cache and is not pending; otherwise nothing happens.
    Take(Seq<char>),
    /// The worker stores the record of a path and completes its
    /// construction.
    Store(Seq<char>, Seq<Seq<char>>),
}

/// Whether the step makes its worker the builder of `path`.
pub open spec fn takes(runtime: RuntimeView, step: Step, path: Seq<char>) -> bool {
    step == Step::Take(path) && runtime.accepts(path)
}

/// The state after one step.
pub open spec fn after(runtime: RuntimeView, step: Step) -> RuntimeView {
    match step {
        Step::Take(path) => if runtime.accepts(path) {
            runtime.init_cache_state(path)
        } else {
            runtime
        },
        Step::Store(path, record) => runtime.store(path, record),
    }
}

/// The state after the steps, taken one after the other.
pub open spec fn after_all(runtime: RuntimeView, steps: Seq<Step>) -> RuntimeView
    decreases steps.len(),
{
    if steps.len() == 0 {
        runtime
    } else {
        after(after_all(runtime, steps.drop_last()), steps.last())
    }
}

/// How often a worker becomes the builder of `path` in the course of the
/// steps.
pub open spec fn times_taken(runtime: RuntimeView, steps: Seq<Step>, path: Seq<char>) -> nat
    decreases steps.len(),
{
    if steps.len() == 0 {
        0
    } else {
        times_taken(runtime, steps.drop_last(), path) + if takes(
            after_all(runtime, steps.drop_last()),
            steps.last(),
            path,
        ) {
            1nat
        } else {
            0nat
        }
    }
}

/// A path that is still accepted after the steps was accepted before them,
/// and was not taken on in their course.
pub proof fn lemma_accepted_is_untouched(runtime: RuntimeView, steps: Seq<Step>, path: Seq<char>)
    requires
        after_all(runtime, steps).accepts(path),
    ensures
        runtime.accepts(path),
        times_taken(runtime, steps, path) == 0,
    decreases steps.len(),
{
    if steps.len() > 0 {
        let before = after_all(runtime, steps.drop_last());
        match steps.last() {
            Step::Take(other) => {
                if other != path {
                    assert(before.gate(path) == after(before, steps.last()).gate(path));
                }
            },
            Step::Store(other, record) => {
                if other != path {
                    assert(before.gate(path) == after(before, steps.last()).gate(path));
                }
            },
        }
        lemma_accepted_is_untouched(runtime, steps.drop_last(), path);
    }
}

/// At most one builder: however many workers there are and in whatever
/// order their steps are taken, no path gets a builder twice. A path that
/// was not accepted at the start gets none.
pub proof fn lemma_at_most_one_builder(runtime: RuntimeView, steps: Seq<Step>, path: Seq<char>)
    ensures
        times_taken(runtime, steps, path) <= 1,
        !runtime.accepts(path) ==> times_taken(runtime, steps, path) == 0,
    decreases steps.len(),
{
    if steps.len() > 0 {
        let before = after_all(runtime, steps.drop_last());
        lemma_at_most_one_builder(runtime, steps.drop_last(), path);
        if takes(before, steps.last(), path) {
            lemma_accepted_is_untouched(runtime, steps.drop_last(), path);
        }
    }
}

/// One builder at a time: a requester that registers for a path that is
/// neither cached nor pending becomes its one builder. Until it has stored
/// its record whoever asks for the path has to wait, and no other path is
/// held up. Once the record is stored the path is ready and cached at
/// once, so that whoever was waiting finds the record.
pub proof fn lemma_one_builder_at_a_time(
    runtime: RuntimeView,
    path: Seq<char>,
    record: Seq<Seq<char>>,
)
    requires
        !runtime.cached(path),
        !runtime.gate(path).blocks(),
    ensures
        interest_in(runtime.cache_state, path, false) == (Interest::Registered { notify: false }),
        runtime.init_cache_state(path).gate(path) == CacheStateEntry::PendingStore(1),
        interest_in(runtime.init_cache_state(path).cache_state, path, false) == Interest::Wait,
        runtime.init_cache_state(path).init_cache_state(path) == runtime.init_cache_state(path),
        forall|other: Seq<char>|
            other != path ==> #[trigger] runtime.init_cache_state(path).gate(other)
                == runtime.gate(other),
        runtime.init_cache_state(path).store(path, record).gate(path)
            == CacheStateEntry::ReadyToConstruct,
        runtime.init_cache_state(path).store(path, record).cached(path),
        runtime.init_cache_state(path).store(path, record).module_map[path] == record,
{
}

/// Write once: whatever path is handed to the processor, and whatever
/// source, every record that is in the cache stays there as it is.
pub proof fn lemma_cache_is_written_once(
    runtime: RuntimeView,
    path: Seq<char>,
    file: SourceFileView,
)
    ensures
        runtime.module_map.submap_of(runtime.process_path(path, file).0.module_map),
        runtime.module_map.submap_of(runtime.process_source(path, file).0.module_map),
        runtime.module_map.submap_of(runtime.run_source(path, file).0.module_map),
        runtime.module_map.submap_of(runtime.store(path, specifiers_of(file.imports)).module_map),
{
    lemma_stored_once_keeps(runtime.module_map, path, specifiers_of(file.imports));
}

} // verus!
