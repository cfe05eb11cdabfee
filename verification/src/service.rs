//! The file processor: what happens to one path.
//!
//! A path is processed if it names source code, if no record of it is in the
//! cache and if nobody is building it. Its module record goes into the cache
//! before anything else is done with it, so that whoever meets the path
//! again, along another import edge or round a cycle, finds it there. Its
//! import targets are handed back to be processed in their turn. A file
//! under a vendor directory is done with that: it is traversed, not linted.

use crate::cache_state::{
    after_completion_of, after_interest_in, gate_of, interest_in, CacheState, CacheStateEntry,
    Interest,
};
use crate::diagnostic::{
    duplicate_all, lemma_push_deep_view, BatchView, Diagnostic, DiagnosticTuple, DiagnosticView,
};
use crate::diagnostic_service::{wrapped, DiagnosticService};
use crate::file_identity::{
    in_node_modules, is_supported, is_vendor_path, known_extensions, source_type_known,
    valid_extensions,
};
use crate::module_map::{no_records, stored_once, ModuleMap, ModuleRecord};
use crate::source_file::{specifiers_of, ImportView, SourceFile, SourceFileView};
use std::sync::Arc;
use vstd::prelude::*;

verus! {

/// How far the processing of a file went.
#[derive(Clone, Copy, Debug, PartialEq, Eq, Structural)]
pub enum Stage {
    /// The file did not parse. Its parse errors are its only diagnostics;
    /// nothing is known of its imports, and no record of it is stored.
    ParseFailed,
    /// The file lies under a vendor directory. Its imports are followed, and
    /// it has no diagnostics.
    Vendor,
    /// The semantic model could not be built. The errors of the attempt are
    /// the file's diagnostics.
    SemanticFailed,
    /// The rules ran. What they report are the file's diagnostics.
    Linted,
}

/// What processing the source of one file yields.
#[derive(Debug)]
pub struct Processed {
    pub stage: Stage,
    /// The diagnostics of the file, before any fix.
    pub messages: Vec<Diagnostic>,
    /// The import targets that are to be processed next: those that
    /// resolved and have no record in the cache, in the order of the
    /// imports.
    pub spawn: Vec<String>,
}

/// What a [`Processed`] holds.
pub struct ProcessedView {
    pub stage: Stage,
    pub messages: Seq<DiagnosticView>,
    pub spawn: Seq<Seq<char>>,
}

impl DeepView for Stage {
    type V = Stage;

    open spec fn deep_view(&self) -> Stage {
        *self
    }
}

impl DeepView for Processed {
    type V = ProcessedView;

    open spec fn deep_view(&self) -> ProcessedView {
        ProcessedView {
            stage: self.stage,
            messages: self.messages.deep_view(),
            spawn: self.spawn.deep_view(),
        }
    }
}

/// What became of a path that was handed to the processor.
#[derive(Debug)]
pub enum PathOutcome {
    /// The path does not name source code. Nothing was done.
    Unsupported,
    /// A record of the path is in the cache. Nothing was done.
    Cached,
    /// Somebody is building the path. Nothing was done.
    Pending,
    /// The file was processed.
    Processed {
        stage: Stage,
        /// What is to be sent to the aggregator, if the file has
        /// diagnostics.
        batch: Option<DiagnosticTuple>,
        /// The import targets that are to be processed next.
        spawn: Vec<String>,
    },
}

/// What a [`PathOutcome`] holds.
pub enum PathOutcomeView {
    Unsupported,
    Cached,
    Pending,
    Processed { stage: Stage, batch: Option<BatchView>, spawn: Seq<Seq<char>> },
}

impl DeepView for PathOutcome {
    type V = PathOutcomeView;

    open spec fn deep_view(&self) -> PathOutcomeView {
        match self {
            PathOutcome::Unsupported => PathOutcomeView::Unsupported,
            PathOutcome::Cached => PathOutcomeView::Cached,
            PathOutcome::Pending => PathOutcomeView::Pending,
            PathOutcome::Processed { stage, batch, spawn } => PathOutcomeView::Processed {
                stage: *stage,
                batch: batch.deep_view(),
                spawn: spawn.deep_view(),
            },
        }
    }
}

/// What became of a source text that was handed to the processor.
#[derive(Debug)]
pub enum SourceOutcome {
    /// The path does not name source code. Nothing was done.
    Unsupported,
    /// Somebody is building the path. Nothing was done.
    Pending,
    /// The source was processed.
    Processed(Processed),
}

/// What a [`SourceOutcome`] holds.
pub enum SourceOutcomeView {
    Unsupported,
    Pending,
    Processed(ProcessedView),
}

impl DeepView for SourceOutcome {
    type V = SourceOutcomeView;

    open spec fn deep_view(&self) -> SourceOutcomeView {
        match self {
            SourceOutcome::Unsupported => SourceOutcomeView::Unsupported,
            SourceOutcome::Pending => SourceOutcomeView::Pending,
            SourceOutcome::Processed(processed) => SourceOutcomeView::Processed(
                processed.deep_view(),
            ),
        }
    }
}

/// The import targets that are to be processed: those that resolved and
/// have no record in `records`, in the order of the imports.
pub open spec fn spawned(records: Map<Seq<char>, Seq<Seq<char>>>, imports: Seq<ImportView>) -> Seq<
    Seq<char>,
>
    decreases imports.len(),
{
    if imports.len() == 0 {
        Seq::empty()
    } else {
        let earlier = spawned(records, imports.drop_last());
        match imports.last().target {
            Some(target) => if records.dom().contains(target) {
                earlier
            } else {
                earlier.push(target)
            },
            None => earlier,
        }
    }
}

/// The state that is shared by all file processors of one run.
pub struct Runtime {
    fix: bool,
    module_map: ModuleMap,
    cache_state: CacheState,
    number_of_files_in_node_modules: usize,
}

/// What a [`Runtime`] holds.
pub struct RuntimeView {
    /// Whether fixes are applied.
    pub fix: bool,
    /// The cache of module records.
    pub module_map: Map<Seq<char>, Seq<Seq<char>>>,
    /// The construction states of the paths that have been asked for.
    pub cache_state: Map<Seq<char>, CacheStateEntry>,
    /// How many files under vendor directories have been traversed.
    pub number_of_files_in_node_modules: nat,
}

impl View for Runtime {
    type V = RuntimeView;

    closed spec fn view(&self) -> RuntimeView {
        RuntimeView {
            fix: self.fix,
            module_map: self.module_map@,
            cache_state: self.cache_state@,
            number_of_files_in_node_modules: self.number_of_files_in_node_modules as nat,
        }
    }
}

impl RuntimeView {
    /// The state in which a run starts.
    pub open spec fn fresh(fix: bool) -> RuntimeView {
        RuntimeView {
            fix,
            module_map: no_records(),
            cache_state: Map::empty(),
            number_of_files_in_node_modules: 0,
        }
    }

    /// Whether a record of `path` is in the cache.
    pub open spec fn cached(self, path: Seq<char>) -> bool {
        self.module_map.dom().contains(path)
    }

    /// The construction state of `path`.
    pub open spec fn gate(self, path: Seq<char>) -> CacheStateEntry {
        gate_of(self.cache_state, path)
    }

    /// Whether the processor takes `path` on: it names source code, no
    /// record of it is in the cache, and nobody is building it.
    pub open spec fn accepts(self, path: Seq<char>) -> bool {
        source_type_known(path) && !self.cached(path) && !self.gate(path).blocks()
    }

    /// The state after a requester has registered interest in `path`.
    pub open spec fn init_cache_state(self, path: Seq<char>) -> RuntimeView {
        RuntimeView {
            cache_state: after_interest_in(self.cache_state, path, self.cached(path)),
            ..self
        }
    }

    /// The state after the record of `path` has been stored.
    pub open spec fn update_cache_state(self, path: Seq<char>) -> RuntimeView {
        RuntimeView { cache_state: after_completion_of(self.cache_state, path), ..self }
    }

    /// The state after `record` has been offered for `path` and the
    /// construction of `path` has been completed.
    pub open spec fn store(self, path: Seq<char>, record: Seq<Seq<char>>) -> RuntimeView {
        RuntimeView {
            module_map: stored_once(self.module_map, path, record),
            ..self
        }.update_cache_state(path)
    }

    /// What processing the source of `path` does to the state, and what it
    /// yields, `file` being what the collaborators make of the source.
    pub open spec fn process_source(self, path: Seq<char>, file: SourceFileView) -> (
        RuntimeView,
        ProcessedView,
    ) {
        if file.parse_errors.len() > 0 {
            (
                self,
                ProcessedView {
                    stage: Stage::ParseFailed,
                    messages: file.parse_errors,
                    spawn: Seq::empty(),
                },
            )
        } else {
            let stored = self.store(path, specifiers_of(file.imports));
            let spawn = spawned(stored.module_map, file.imports);
            if is_vendor_path(path) {
                (
                    RuntimeView {
                        number_of_files_in_node_modules: stored.number_of_files_in_node_modules
                            + 1,
                        ..stored
                    },
                    ProcessedView { stage: Stage::Vendor, messages: Seq::empty(), spawn },
                )
            } else if file.semantic_errors.len() > 0 {
                (
                    stored,
                    ProcessedView {
                        stage: Stage::SemanticFailed,
                        messages: file.semantic_errors,
                        spawn,
                    },
                )
            } else {
                (stored, ProcessedView { stage: Stage::Linted, messages: file.messages, spawn })
            }
        }
    }

    /// The diagnostics of a file after the fix step: where fixes are
    /// applied and the rules ran, what the fixer left; otherwise what the
    /// processing yielded.
    pub open spec fn after_fix(self, file: SourceFileView, processed: ProcessedView) -> Seq<
        DiagnosticView,
    > {
        if self.fix && processed.stage == Stage::Linted {
            file.fixed_messages
        } else {
            processed.messages
        }
    }

    /// The batch that is sent for `path`: none where the file has no
    /// diagnostics.
    pub open spec fn batch_of(
        path: Seq<char>,
        source_text: Seq<char>,
        messages: Seq<DiagnosticView>,
    ) -> Option<BatchView> {
        if messages.len() > 0 {
            Some(wrapped(path, source_text, messages))
        } else {
            None
        }
    }

    /// What handing `path` to the processor does to the state, and what
    /// becomes of the path, `file` being what the collaborators make of
    /// the file at `path`.
    pub open spec fn process_path(self, path: Seq<char>, file: SourceFileView) -> (
        RuntimeView,
        PathOutcomeView,
    ) {
        if !source_type_known(path) {
            (self, PathOutcomeView::Unsupported)
        } else if self.cached(path) {
            (self, PathOutcomeView::Cached)
        } else if self.gate(path).blocks() {
            (self, PathOutcomeView::Pending)
        } else {
            let (next, processed) = self.init_cache_state(path).process_source(path, file);
            (
                next,
                PathOutcomeView::Processed {
                    stage: processed.stage,
                    batch: Self::batch_of(path, file.source_text, self.after_fix(file, processed)),
                    spawn: processed.spawn,
                },
            )
        }
    }

    /// What handing a source text for `path` to the processor does to the
    /// state, and what becomes of it.
    pub open spec fn run_source(self, path: Seq<char>, file: SourceFileView) -> (
        RuntimeView,
        SourceOutcomeView,
    ) {
        if !source_type_known(path) {
            (self, SourceOutcomeView::Unsupported)
        } else if self.gate(path).blocks() {
            (self, SourceOutcomeView::Pending)
        } else {
            let (next, processed) = self.init_cache_state(path).process_source(path, file);
            (next, SourceOutcomeView::Processed(processed))
        }
    }
}

impl Runtime {
    /// The state in which a run starts: nothing cached, nothing asked for,
    /// nothing counted. `fix` says whether fixes are applied.
    pub fn new(fix: bool) -> (runtime: Runtime)
        ensures
            runtime@ == RuntimeView::fresh(fix),
    {
        Runtime {
            fix,
            module_map: ModuleMap::new(),
            cache_state: CacheState::new(),
            number_of_files_in_node_modules: 0,
        }
    }

    /// Whether fixes are applied.
    pub fn fix(&self) -> (fix: bool)
        ensures
            fix == self@.fix,
    {
        self.fix
    }

    /// How many files under vendor directories have been traversed.
    pub fn number_of_files_in_node_modules(&self) -> (count: usize)
        ensures
            count == self@.number_of_files_in_node_modules,
    {
        self.number_of_files_in_node_modules
    }

    /// Whether a record of `path` is in the cache.
    pub fn is_cached(&self, path: &str) -> (cached: bool)
        ensures
            cached == self@.cached(path@),
    {
        self.module_map.contains_key(path)
    }

    /// The record of `path`, if one is in the cache.
    pub fn module_record(&self, path: &str) -> (record: Option<Arc<ModuleRecord>>)
        ensures
            match record {
                Some(record) => self@.cached(path@) && record.deep_view() == self@.module_map[path@],
                None => !self@.cached(path@),
            },
    {
        self.module_map.get(path)
    }

    /// The construction state of `path`.
    pub fn gate(&self, path: &str) -> (state: CacheStateEntry)
        ensures
            state == self@.gate(path@),
    {
        self.cache_state.state(path)
    }

    /// Registers interest in `path` before any work is done on it. While
    /// the path is pending the requester has to wait, and nothing changes.
    /// Otherwise the path counts one more builder, unless its record is in
    /// the cache already.
    pub fn init_cache_state(&mut self, path: &str) -> (interest: Interest)
        ensures
            interest == interest_in(old(self)@.cache_state, path@, old(self)@.cached(path@)),
            final(self)@ == old(self)@.init_cache_state(path@),
    {
        let cached = self.module_map.contains_key(path);
        self.cache_state.register_interest(path, cached)
    }

    /// Records that one builder of `path` has stored its record.
    /// Returns whether one waiter is to be woken.
    pub fn update_cache_state(&mut self, path: &str) -> (notify: bool)
        ensures
            final(self)@ == old(self)@.update_cache_state(path@),
            notify == (old(self)@.gate(path@) is PendingStore && final(self)@.gate(path@)
                is ReadyToConstruct),
    {
        self.cache_state.complete_construction(path)
    }

    /// Offers `record` for `path` and completes the construction of
    /// `path`. The first record stored for a path stays. Returns whether
    /// one waiter is to be woken.
    pub fn store(&mut self, path: &str, record: ModuleRecord) -> (notify: bool)
        ensures
            final(self)@ == old(self)@.store(path@, record.deep_view()),
            notify == (old(self)@.gate(path@) is PendingStore && final(self)@.gate(path@)
                is ReadyToConstruct),
    {
        self.module_map.insert(path, Arc::new(record));
        self.update_cache_state(path)
    }

    /// The import targets that are to be processed: those of `file` that
    /// resolved and have no record in the cache, in the order of the
    /// imports.
    pub fn spawn_targets(&self, file: &SourceFile) -> (spawn: Vec<String>)
        ensures
            spawn.deep_view() == spawned(self@.module_map, file.deep_view().imports),
    {
        let ghost imports = file.deep_view().imports;
        let mut spawn: Vec<String> = Vec::new();
        let mut i: usize = 0;
        while i < file.imports.len()
            invariant
                i <= file.imports.len(),
                imports == file.imports.deep_view(),
                spawn.deep_view() == spawned(self@.module_map, imports.take(i as int)),
            decreases file.imports.len() - i,
        {
            proof {
                assert(imports.take(i + 1).drop_last() =~= imports.take(i as int));
            }
            match &file.imports[i].target {
                Some(target) => {
                    if !self.module_map.contains_key(target.as_str()) {
                        let ghost before = spawn;
                        let next = target.clone();
                        spawn.push(next);
                        proof {
                            lemma_push_deep_view(before, spawn, next);
                        }
                    }
                },
                None => {},
            }
            i += 1;
        }
        assert(imports.take(i as int) =~= imports);
        spawn
    }

    /// Counts `path` as traversed only if it lies under a vendor
    /// directory, and says whether it does.
    pub fn skip_vendor(&mut self, path: &str) -> (vendor: bool)
        requires
            is_vendor_path(path@) ==> old(self)@.number_of_files_in_node_modules < usize::MAX,
        ensures
            vendor == is_vendor_path(path@),
            final(self)@ == if vendor {
                RuntimeView {
                    number_of_files_in_node_modules: old(self)@.number_of_files_in_node_modules
                        + 1,
                    ..old(self)@
                }
            } else {
                old(self)@
            },
    {
        if in_node_modules(path) {
            self.number_of_files_in_node_modules = self.number_of_files_in_node_modules + 1;
            true
        } else {
            false
        }
    }

    /// Processes the source of `path`, `file` being what the collaborators
    /// make of it. Parse errors end the processing at once. Otherwise the
    /// module record is stored and the construction is completed, the
    /// import targets to be processed are collected, and the file is linted
    /// unless it lies under a vendor directory.
    pub fn process_source(&mut self, path: &str, file: &SourceFile) -> (processed: Processed)
        requires
            old(self)@.process_source(path@, file.deep_view()).0.number_of_files_in_node_modules
                <= usize::MAX,
        ensures
            (final(self)@, processed.deep_view()) == old(self)@.process_source(
                path@,
                file.deep_view(),
            ),
    {
        if file.parse_errors.len() > 0 {
            let spawn: Vec<String> = Vec::new();
            assert(spawn.deep_view() =~= Seq::empty());
            return Processed {
                stage: Stage::ParseFailed,
                messages: duplicate_all(&file.parse_errors),
                spawn,
            };
        }
        self.store(path, ModuleRecord::new(file.module_requests()));
        let spawn = self.spawn_targets(file);
        if self.skip_vendor(path) {
            let messages: Vec<Diagnostic> = Vec::new();
            assert(messages.deep_view() =~= Seq::empty());
            return Processed { stage: Stage::Vendor, messages, spawn };
        }
        if file.semantic_errors.len() > 0 {
            return Processed {
                stage: Stage::SemanticFailed,
                messages: duplicate_all(&file.semantic_errors),
                spawn,
            };
        }
        Processed { stage: Stage::Linted, messages: duplicate_all(&file.messages), spawn }
    }

    /// Hands `path` to the processor, `file` being what the collaborators
    /// make of the file at `path`. Nothing is done for a path that does not
    /// name source code, that has a record in the cache or that is being
    /// built. Otherwise interest in the path is registered, its source is
    /// processed, and its diagnostics, if it has any, are made into a batch.
    pub fn process_path(&mut self, path: &str, file: &SourceFile) -> (outcome: PathOutcome)
        requires
            old(self)@.process_path(path@, file.deep_view()).0.number_of_files_in_node_modules
                <= usize::MAX,
        ensures
            (final(self)@, outcome.deep_view()) == old(self)@.process_path(path@, file.deep_view()),
    {
        if !is_supported(path) {
            return PathOutcome::Unsupported;
        }
        if self.module_map.contains_key(path) {
            return PathOutcome::Cached;
        }
        match self.init_cache_state(path) {
            Interest::Wait => {
                return PathOutcome::Pending;
            },
            Interest::Registered { .. } => {},
        }
        let processed = self.process_source(path, file);
        let stage = processed.stage;
        let messages = if self.fix && stage == Stage::Linted {
            duplicate_all(&file.fixed_messages)
        } else {
            processed.messages
        };
        let batch = if messages.len() > 0 {
            Some(DiagnosticService::wrap_diagnostics(path, file.source_text.as_str(), messages))
        } else {
            None
        };
        PathOutcome::Processed { stage, batch, spawn: processed.spawn }
    }
}

/// How import specifiers are to be resolved to files.
#[derive(Debug)]
pub struct ResolveOptions {
    /// The conditions under which the `exports` field of a package is read.
    pub condition_names: Vec<String>,
    /// For an extension in an import, the extensions that are tried in its
    /// place, in their order.
    pub extension_alias: Vec<(String, Vec<String>)>,
    /// The extensions that are tried for an import without one, in their
    /// order.
    pub extensions: Vec<String>,
}

/// What a [`ResolveOptions`] holds.
pub struct ResolveOptionsView {
    pub condition_names: Seq<Seq<char>>,
    pub extension_alias: Seq<(Seq<char>, Seq<Seq<char>>)>,
    pub extensions: Seq<Seq<char>>,
}

impl DeepView for ResolveOptions {
    type V = ResolveOptionsView;

    open spec fn deep_view(&self) -> ResolveOptionsView {
        ResolveOptionsView {
            condition_names: self.condition_names.deep_view(),
            extension_alias: self.extension_alias.deep_view(),
            extensions: self.extensions.deep_view(),
        }
    }
}

/// The options with which the imports of lint targets are resolved: those
/// of Node for an `import`; TypeScript files may stand behind the
/// extensions of JavaScript; and every extension that can be parsed is tried,
/// with its dot.
pub open spec fn resolver_options() -> ResolveOptionsView {
    ResolveOptionsView {
        condition_names: seq!["node"@, "import"@],
        extension_alias: seq![
            (".js"@, seq![".js"@, ".tsx"@, "ts"@]),
            (".mjs"@, seq![".mjs"@, ".mts"@]),
        ],
        extensions: Seq::new(known_extensions().len(), |i: int| "."@ + known_extensions()[i]),
    }
}

/// The file processor as its callers see it.
pub struct LintService {
    runtime: Runtime,
}

impl View for LintService {
    type V = RuntimeView;

    closed spec fn view(&self) -> RuntimeView {
        self.runtime@
    }
}

impl LintService {
    /// A service for one run. `fix` says whether fixes are applied.
    pub fn new(fix: bool) -> (service: LintService)
        ensures
            service@ == RuntimeView::fresh(fix),
    {
        LintService { runtime: Runtime::new(fix) }
    }

    /// How many files under vendor directories have been traversed.
    pub fn number_of_files_in_node_modules(&self) -> (count: usize)
        ensures
            count == self@.number_of_files_in_node_modules,
    {
        self.runtime.number_of_files_in_node_modules()
    }

    /// The options with which the resolver is to be made.
    pub fn resolver() -> (options: ResolveOptions)
        ensures
            options.deep_view() == resolver_options(),
    {
        let mut condition_names: Vec<String> = Vec::new();
        condition_names.push("node".to_owned());
        condition_names.push("import".to_owned());
        assert(condition_names.deep_view() =~= seq!["node"@, "import"@]);

        let mut for_js: Vec<String> = Vec::new();
        for_js.push(".js".to_owned());
        for_js.push(".tsx".to_owned());
        for_js.push("ts".to_owned());
        assert(for_js.deep_view() =~= seq![".js"@, ".tsx"@, "ts"@]);
        let mut for_mjs: Vec<String> = Vec::new();
        for_mjs.push(".mjs".to_owned());
        for_mjs.push(".mts".to_owned());
        assert(for_mjs.deep_view() =~= seq![".mjs"@, ".mts"@]);
        let mut extension_alias: Vec<(String, Vec<String>)> = Vec::new();
        extension_alias.push((".js".to_owned(), for_js));
        extension_alias.push((".mjs".to_owned(), for_mjs));
        assert(extension_alias.deep_view() =~= seq![
            (".js"@, seq![".js"@, ".tsx"@, "ts"@]),
            (".mjs"@, seq![".mjs"@, ".mts"@]),
        ]);

        let bare = valid_extensions();
        let mut extensions: Vec<String> = Vec::new();
        let mut i: usize = 0;
        while i < bare.len()
            invariant
                i <= bare.len(),
                bare.deep_view() == known_extensions(),
                extensions.len() == i,
                forall|k: int|
                    0 <= k < i ==> (#[trigger] extensions[k])@ == "."@ + known_extensions()[k],
            decreases bare.len() - i,
        {
            assert(bare[i as int]@ == bare.deep_view()[i as int]);
            let mut extension = ".".to_owned();
            extension.append(bare[i].as_str());
            extensions.push(extension);
            i += 1;
        }
        assert(extensions.deep_view() =~= resolver_options().extensions);
        ResolveOptions { condition_names, extension_alias, extensions }
    }

    /// Hands `path` to the processor, `file` being what the collaborators
    /// make of the file at `path`.
    pub fn run_path(&mut self, path: &str, file: &SourceFile) -> (outcome: PathOutcome)
        requires
            old(self)@.process_path(path@, file.deep_view()).0.number_of_files_in_node_modules
                <= usize::MAX,
        ensures
            (final(self)@, outcome.deep_view()) == old(self)@.process_path(path@, file.deep_view()),
    {
        self.runtime.process_path(path, file)
    }

    /// Processes a source text that the caller holds, `file` being what
    /// the collaborators make of it. The cache is not asked first: the
    /// source is processed also where a record of `path` is stored, and the
    /// stored record stays. The diagnostics are handed back as they are,
    /// neither fixed nor made into a batch.
    pub fn run_source(&mut self, path: &str, file: &SourceFile) -> (outcome: SourceOutcome)
        requires
            old(self)@.run_source(path@, file.deep_view()).0.number_of_files_in_node_modules
                <= usize::MAX,
        ensures
            (final(self)@, outcome.deep_view()) == old(self)@.run_source(path@, file.deep_view()),
    {
        if !is_supported(path) {
            return SourceOutcome::Unsupported;
        }
        match self.runtime.init_cache_state(path) {
            Interest::Wait => {
                return SourceOutcome::Pending;
            },
            Interest::Registered { .. } => {},
        }
        SourceOutcome::Processed(self.runtime.process_source(path, file))
    }
}

} // verus!
