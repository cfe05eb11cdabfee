//! What the pipeline reads off a file's path: whether the file is source code
//! that it can lint, and whether it lies under a vendor directory.
//!
//! A path stands for a file. Two paths stand for the same file only if they
//! are equal, so callers normalise paths before they hand them in. Segments
//! are separated by `/`.

use oxc_span::{SourceType, VALID_EXTENSIONS};
use vstd::prelude::*;
use vstd::utf8::encode_utf8;

verus! {

/// Whether `oxc_span` knows a source type for the path, that is, whether
/// `SourceType::from_path` returns `Ok` for it.
pub uninterp spec fn source_type_known(path: Seq<char>) -> bool;

/// `oxc_span::SourceType::from_path`, asked only whether it finds a source
/// type. It reads nothing but the path: it fails where the path has no file
/// name or where the file name's extension is none of those it lists.
#[verifier::external_body]
fn has_source_type(path: &str) -> (known: bool)
    ensures
        known == source_type_known(path@),
{
    SourceType::from_path(path).is_ok()
}

/// Whether the file at `path` is source code that can be parsed.
pub fn is_supported(path: &str) -> (supported: bool)
    ensures
        supported == source_type_known(path@),
{
    has_source_type(path)
}

/// The extensions of the files that `oxc_span` knows a source type for,
/// without the dot, in the order in which it lists them.
pub open spec fn known_extensions() -> Seq<Seq<char>> {
    seq!["js"@, "mjs"@, "cjs"@, "jsx"@, "ts"@, "mts"@, "cts"@, "tsx"@]
}

/// `oxc_span::VALID_EXTENSIONS`: the eight extensions that the constant
/// lists, as owned strings.
#[verifier::external_body]
fn listed_extensions() -> (extensions: Vec<String>)
    ensures
        extensions.deep_view() == known_extensions(),
{
    VALID_EXTENSIONS.iter().map(|extension| extension.to_string()).collect()
}

/// The extensions of the files that can be parsed, without the dot.
pub fn valid_extensions() -> (extensions: Vec<String>)
    ensures
        extensions.deep_view() == known_extensions(),
{
    listed_extensions()
}

/// The byte that separates the segments of a path.
pub const SEPARATOR: u8 = 47;

/// The name of the directory that holds vendored dependencies.
pub open spec fn vendor_directory() -> Seq<u8> {
    encode_utf8("node_modules"@)
}

/// `bytes[start..end]` is a segment: it starts the path or follows a
/// separator, it ends the path or a separator follows it, and it holds no
/// separator.
pub open spec fn is_segment(bytes: Seq<u8>, start: int, end: int) -> bool {
    &&& 0 <= start <= end <= bytes.len()
    &&& (start == 0 || bytes[start - 1] == SEPARATOR)
    &&& (end == bytes.len() || bytes[end] == SEPARATOR)
    &&& forall|k: int| start <= k < end ==> bytes[k] != SEPARATOR
}

/// Some segment of `bytes` is `name`.
pub open spec fn has_segment(bytes: Seq<u8>, name: Seq<u8>) -> bool {
    exists|start: int, end: int| #[trigger]
        is_segment(bytes, start, end) && bytes.subrange(start, end) == name
}

/// The file lies under a vendor directory: some segment of its path, taken
/// as UTF-8, is the vendor directory's name.
pub open spec fn is_vendor_path(path: Seq<char>) -> bool {
    has_segment(encode_utf8(path), vendor_directory())
}

/// Two segments that end at the same place start at the same place.
proof fn lemma_segment_start_unique(bytes: Seq<u8>, first: int, second: int, end: int)
    requires
        is_segment(bytes, first, end),
        0 <= second <= end <= bytes.len(),
        second == 0 || bytes[second - 1] == SEPARATOR,
        forall|k: int| second <= k < end ==> bytes[k] != SEPARATOR,
    ensures
        first == second,
{
    if first < second {
        assert(bytes[second - 1] != SEPARATOR);
    }
    if second < first {
        assert(bytes[first - 1] != SEPARATOR);
    }
}

/// Whether `bytes[start..end]` is `name`.
fn range_equals(bytes: &[u8], start: usize, end: usize, name: &[u8]) -> (same: bool)
    requires
        start <= end <= bytes@.len(),
    ensures
        same == (bytes@.subrange(start as int, end as int) == name@),
{
    if end - start != name.len() {
        return false;
    }
    let ghost range = bytes@.subrange(start as int, end as int);
    let mut i: usize = 0;
    while i < name.len()
        invariant
            start <= end <= bytes@.len(),
            end - start == name@.len(),
            range == bytes@.subrange(start as int, end as int),
            i <= name@.len(),
            forall|k: int| 0 <= k < i ==> range[k] == name@[k],
        decreases name.len() - i,
    {
        if bytes[start + i] != name[i] {
            assert(range[i as int] != name@[i as int]);
            return false;
        }
        i += 1;
    }
    assert(range =~= name@);
    true
}

/// Whether the file at `path` lies under a vendor directory. Such a file is
/// a source of import edges only: it is traversed and not linted.
pub fn in_node_modules(path: &str) -> (vendor: bool)
    ensures
        vendor == is_vendor_path(path@),
{
    let bytes = path.as_bytes();
    let name = "node_modules".as_bytes();
    let n: usize = bytes.len();
    let mut start: usize = 0;
    let mut i: usize = 0;
    while i < n
        invariant
            n == bytes@.len(),
            bytes@ == encode_utf8(path@),
            name@ == vendor_directory(),
            0 <= start <= i <= n,
            start == 0 || bytes@[start - 1] == SEPARATOR,
            forall|k: int| start <= k < i ==> bytes@[k] != SEPARATOR,
            forall|s: int, e: int| #[trigger]
                is_segment(bytes@, s, e) && e < i ==> bytes@.subrange(s, e) != name@,
        decreases n - i,
    {
        if bytes[i] == SEPARATOR {
            assert(is_segment(bytes@, start as int, i as int));
            if range_equals(bytes, start, i, name) {
                return true;
            }
            assert forall|s: int, e: int| #[trigger]
                is_segment(bytes@, s, e) && e < i + 1 implies bytes@.subrange(s, e)
                != name@ by {
                if e == i {
                    lemma_segment_start_unique(bytes@, s, start as int, e);
                }
            }
            start = i + 1;
        } else {
            assert forall|s: int, e: int| #[trigger]
                is_segment(bytes@, s, e) && e < i + 1 implies bytes@.subrange(s, e)
                != name@ by {
                if e == i {
                    assert(bytes@[e] == SEPARATOR);
                }
            }
        }
        i += 1;
    }
    assert(is_segment(bytes@, start as int, n as int));
    let vendor = range_equals(bytes, start, n, name);
    proof {
        if !vendor {
            assert forall|s: int, e: int| #[trigger]
                is_segment(bytes@, s, e) implies bytes@.subrange(s, e) != name@ by {
                if e == n {
                    lemma_segment_start_unique(bytes@, s, start as int, e);
                }
            }
        }
    }
    vendor
}

} // verus!
