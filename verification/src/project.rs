//! A project: the files that exist, each with what its analysis yields.
//!
//! A path names the first file of the project that has it.

use crate::file_identity::{is_supported, source_type_known};
use crate::source_file::{SourceFile, SourceFileView};
use vstd::prelude::*;

verus! {

/// The files of a project.
#[derive(Debug)]
pub struct Project {
    pub files: Vec<SourceFile>,
}

impl DeepView for Project {
    type V = Seq<SourceFileView>;

    open spec fn deep_view(&self) -> Seq<SourceFileView> {
        self.files.deep_view()
    }
}

/// `files[index]` is the first of the files with the path `path`.
pub open spec fn is_first(files: Seq<SourceFileView>, path: Seq<char>, index: int) -> bool {
    &&& 0 <= index < files.len()
    &&& files[index].path == path
    &&& forall|k: int| 0 <= k < index ==> (#[trigger] files[k]).path != path
}

/// One of the files has the path `path`.
pub open spec fn has_file(files: Seq<SourceFileView>, path: Seq<char>) -> bool {
    exists|index: int| 0 <= index < files.len() && (#[trigger] files[index]).path == path
}

/// The place of the first of the files with the path `path`.
pub open spec fn index_of(files: Seq<SourceFileView>, path: Seq<char>) -> int {
    choose|index: int| is_first(files, path, index)
}

/// The first of the files with the path `path`.
pub open spec fn file_of(files: Seq<SourceFileView>, path: Seq<char>) -> SourceFileView {
    files[index_of(files, path)]
}

/// A run can read the file at `path` where it has to: the path names a
/// file of the project, or it names no source code, in which case no run
/// reads it.
pub open spec fn is_readable(files: Seq<SourceFileView>, path: Seq<char>) -> bool {
    source_type_known(path) ==> has_file(files, path)
}

/// Every import that resolves, resolves to a file that can be read.
pub open spec fn is_closed(files: Seq<SourceFileView>) -> bool {
    forall|i: int, j: int|
        0 <= i < files.len() && 0 <= j < files[i].imports.len() ==> match (
        #[trigger] files[i].imports[j]).target {
            Some(target) => is_readable(files, target),
            None => true,
        }
}

/// Every one of the paths names a file that can be read.
pub open spec fn covers(files: Seq<SourceFileView>, paths: Seq<Seq<char>>) -> bool {
    forall|i: int| 0 <= i < paths.len() ==> is_readable(files, #[trigger] paths[i])
}

/// One for every file and one for every diagnostic that a file can
/// contribute.
pub open spec fn total_load(files: Seq<SourceFileView>) -> nat
    decreases files.len(),
{
    if files.len() == 0 {
        0
    } else {
        total_load(files.drop_last()) + 1 + files.last().weight()
    }
}

/// Among the files that have a path there is a first.
pub proof fn lemma_first_exists(files: Seq<SourceFileView>, path: Seq<char>)
    requires
        has_file(files, path),
    ensures
        is_first(files, path, index_of(files, path)),
        file_of(files, path).path == path,
{
    let some = choose|index: int| 0 <= index < files.len() && (#[trigger] files[index]).path == path;
    lemma_first_before(files, path, some);
}

/// Before a file that has a path, or at its place, there is a first.
proof fn lemma_first_before(files: Seq<SourceFileView>, path: Seq<char>, at: int)
    requires
        0 <= at < files.len(),
        files[at].path == path,
    ensures
        exists|index: int| is_first(files, path, index),
    decreases at,
{
    if exists|k: int| 0 <= k < at && (#[trigger] files[k]).path == path {
        let k = choose|k: int| 0 <= k < at && (#[trigger] files[k]).path == path;
        lemma_first_before(files, path, k);
    } else {
        assert(is_first(files, path, at));
    }
}

/// There is one first at most.
pub proof fn lemma_first_unique(files: Seq<SourceFileView>, path: Seq<char>, index: int)
    requires
        is_first(files, path, index),
    ensures
        index == index_of(files, path),
        has_file(files, path),
{
    let other = index_of(files, path);
    assert(is_first(files, path, other));
    if other < index {
        assert(files[other].path != path);
    }
    if index < other {
        assert(files[index].path != path);
    }
}

impl Project {
    /// The place of the first file with the path `path`, if there is one.
    pub fn find(&self, path: &str) -> (found: Option<usize>)
        ensures
            match found {
                Some(index) => is_first(self.deep_view(), path@, index as int) && index as int
                    == index_of(self.deep_view(), path@),
                None => !has_file(self.deep_view(), path@),
            },
    {
        let wanted = path.to_owned();
        let mut i: usize = 0;
        while i < self.files.len()
            invariant
                i <= self.files.len(),
                wanted@ == path@,
                forall|k: int| 0 <= k < i ==> (#[trigger] self.deep_view()[k]).path != path@,
            decreases self.files.len() - i,
        {
            if self.files[i].path == wanted {
                proof {
                    assert(self.deep_view()[i as int].path == path@);
                    lemma_first_unique(self.deep_view(), path@, i as int);
                }
                return Some(i);
            }
            assert(self.deep_view()[i as int].path != path@);
            i += 1;
        }
        None
    }

    /// Whether a run can read the file at `path` where it has to.
    pub fn is_readable(&self, path: &str) -> (readable: bool)
        ensures
            readable == is_readable(self.deep_view(), path@),
    {
        !is_supported(path) || self.find(path).is_some()
    }

    /// Whether every import that resolves, resolves to a file that can be
    /// read.
    pub fn is_closed(&self) -> (closed: bool)
        ensures
            closed == is_closed(self.deep_view()),
    {
        let ghost files = self.deep_view();
        let mut i: usize = 0;
        while i < self.files.len()
            invariant
                i <= self.files.len(),
                files == self.deep_view(),
                forall|a: int, b: int|
                    0 <= a < i && 0 <= b < files[a].imports.len() ==> match (
                    #[trigger] files[a].imports[b]).target {
                        Some(target) => is_readable(files, target),
                        None => true,
                    },
            decreases self.files.len() - i,
        {
            let file = &self.files[i];
            let mut j: usize = 0;
            while j < file.imports.len()
                invariant
                    i < self.files.len(),
                    files == self.deep_view(),
                    file == &self.files[i as int],
                    j <= file.imports.len(),
                    file.imports.deep_view() == files[i as int].imports,
                    forall|b: int|
                        0 <= b < j ==> match (#[trigger] files[i as int].imports[b]).target {
                            Some(target) => is_readable(files, target),
                            None => true,
                        },
                decreases file.imports.len() - j,
            {
                assert(file.imports[j as int].deep_view() == files[i as int].imports[j as int]);
                match &file.imports[j].target {
                    Some(target) => {
                        if !self.is_readable(target.as_str()) {
                            return false;
                        }
                    },
                    None => {},
                }
                j += 1;
            }
            i += 1;
        }
        true
    }

    /// Whether every one of the paths names a file that can be read.
    pub fn covers(&self, paths: &Vec<String>) -> (covered: bool)
        ensures
            covered == covers(self.deep_view(), paths.deep_view()),
    {
        let mut i: usize = 0;
        while i < paths.len()
            invariant
                i <= paths.len(),
                forall|k: int|
                    0 <= k < i ==> is_readable(self.deep_view(), #[trigger] paths.deep_view()[k]),
            decreases paths.len() - i,
        {
            assert(paths[i as int]@ == paths.deep_view()[i as int]);
            if !self.is_readable(paths[i].as_str()) {
                return false;
            }
            i += 1;
        }
        true
    }

    /// The load of the project: one for every file and one for every
    /// diagnostic that a file can contribute. `None` where the load is
    /// more than a `usize` holds.
    pub fn load(&self) -> (load: Option<usize>)
        ensures
            match load {
                Some(load) => load == total_load(self.deep_view()),
                None => total_load(self.deep_view()) > usize::MAX,
            },
    {
        let ghost files = self.deep_view();
        let mut load: usize = 0;
        let mut i: usize = 0;
        while i < self.files.len()
            invariant
                i <= self.files.len(),
                files == self.deep_view(),
                load == total_load(files.take(i as int)),
            decreases self.files.len() - i,
        {
            let file = &self.files[i];
            proof {
                assert(files.take(i + 1).drop_last() =~= files.take(i as int));
                assert(files.take(i + 1).last() == file.deep_view());
                lemma_load_grows(files, i + 1);
            }
            let weight = match file.parse_errors.len().checked_add(file.semantic_errors.len()) {
                Some(sum) => match sum.checked_add(file.messages.len()) {
                    Some(sum) => match sum.checked_add(file.fixed_messages.len()) {
                        Some(sum) => sum.checked_add(1),
                        None => None,
                    },
                    None => None,
                },
                None => None,
            };
            let next = match weight {
                Some(weight) => load.checked_add(weight),
                None => None,
            };
            match next {
                Some(next) => {
                    load = next;
                },
                None => {
                    return None;
                },
            }
            i += 1;
        }
        assert(files.take(i as int) =~= files);
        Some(load)
    }
}

/// The load of the first files of a project is no more than the load of
/// the project.
pub proof fn lemma_load_grows(files: Seq<SourceFileView>, n: int)
    requires
        0 <= n <= files.len(),
    ensures
        total_load(files.take(n)) <= total_load(files),
    decreases files.len(),
{
    if n < files.len() {
        lemma_load_grows(files.drop_last(), n);
        assert(files.drop_last().take(n) =~= files.take(n));
    } else {
        assert(files.take(n) =~= files);
    }
}

} // verus!
