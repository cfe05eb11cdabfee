//! The length guard on rendered output.
//!
//! A rendered diagnostic quotes the source line it is about. Where that line
//! has hundreds of bytes the file is almost certainly minified, and printing
//! it would flood the output. The guard finds such text.

use vstd::prelude::*;
use vstd::utf8::encode_utf8;

verus! {

/// A line of this many bytes, or more, is too long to print.
pub const LINE_GUARD: usize = 400;

/// The line feed.
pub const LINE_FEED: u8 = 10;

/// The carriage return.
pub const CARRIAGE_RETURN: u8 = 13;

/// `bytes[start..end]` is a line with its carriage return, if it has one: it
/// starts the text or follows a line feed, it ends the text or a line feed
/// follows it, and it holds no line feed.
pub open spec fn is_line(bytes: Seq<u8>, start: int, end: int) -> bool {
    &&& 0 <= start <= end <= bytes.len()
    &&& (start == 0 || bytes[start - 1] == LINE_FEED)
    &&& (end == bytes.len() || bytes[end] == LINE_FEED)
    &&& forall|k: int| start <= k < end ==> bytes[k] != LINE_FEED
}

/// The length of the line `bytes[start..end]`. A carriage return just before
/// the line feed belongs to the line ending and is not counted. At the end
/// of the text, where no line feed follows, it is counted.
pub open spec fn line_length(bytes: Seq<u8>, start: int, end: int) -> int {
    if start < end < bytes.len() && bytes[end - 1] == CARRIAGE_RETURN {
        end - start - 1
    } else {
        end - start
    }
}

/// Some line of `bytes` has `LINE_GUARD` bytes or more.
pub open spec fn has_long_line(bytes: Seq<u8>) -> bool {
    exists|start: int, end: int| #[trigger]
        is_line(bytes, start, end) && line_length(bytes, start, end) >= LINE_GUARD
}

/// Some line of `text`, encoded as UTF-8, has `LINE_GUARD` bytes or more.
pub open spec fn is_minified(text: Seq<char>) -> bool {
    has_long_line(encode_utf8(text))
}

/// One of the texts is minified.
pub open spec fn any_minified(texts: Seq<Seq<char>>) -> bool {
    exists|i: int| 0 <= i < texts.len() && is_minified(#[trigger] texts[i])
}

/// Two lines that end at the same place start at the same place.
proof fn lemma_line_start_unique(bytes: Seq<u8>, first: int, second: int, end: int)
    requires
        is_line(bytes, first, end),
        0 <= second <= end <= bytes.len(),
        second == 0 || bytes[second - 1] == LINE_FEED,
        forall|k: int| second <= k < end ==> bytes[k] != LINE_FEED,
    ensures
        first == second,
{
    if first < second {
        assert(bytes[second - 1] != LINE_FEED);
    }
    if second < first {
        assert(bytes[first - 1] != LINE_FEED);
    }
}

/// Whether some line of `text` has `LINE_GUARD` bytes or more.
pub fn exceeds_line_guard(text: &str) -> (long: bool)
    ensures
        long == is_minified(text@),
{
    let bytes = text.as_bytes();
    let n: usize = bytes.len();
    let mut start: usize = 0;
    let mut i: usize = 0;
    while i < n
        invariant
            n == bytes@.len(),
            bytes@ == encode_utf8(text@),
            0 <= start <= i <= n,
            start == 0 || bytes@[start - 1] == LINE_FEED,
            forall|k: int| start <= k < i ==> bytes@[k] != LINE_FEED,
            forall|s: int, e: int| #[trigger]
                is_line(bytes@, s, e) && e < i ==> line_length(bytes@, s, e) < LINE_GUARD,
        decreases n - i,
    {
        if bytes[i] == LINE_FEED {
            let mut length: usize = i - start;
            if length > 0 && bytes[i - 1] == CARRIAGE_RETURN {
                length = length - 1;
            }
            assert(is_line(bytes@, start as int, i as int));
            assert(length == line_length(bytes@, start as int, i as int));
            if length >= LINE_GUARD {
                return true;
            }
            assert forall|s: int, e: int| #[trigger]
                is_line(bytes@, s, e) && e < i + 1 implies line_length(bytes@, s, e)
                < LINE_GUARD by {
                if e == i {
                    lemma_line_start_unique(bytes@, s, start as int, e);
                }
            }
            start = i + 1;
        } else {
            assert forall|s: int, e: int| #[trigger]
                is_line(bytes@, s, e) && e < i + 1 implies line_length(bytes@, s, e)
                < LINE_GUARD by {
                if e == i {
                    assert(bytes@[e] == LINE_FEED);
                }
            }
        }
        i += 1;
    }
    assert(is_line(bytes@, start as int, n as int));
    let long = n - start >= LINE_GUARD;
    proof {
        if !long {
            assert forall|s: int, e: int| #[trigger]
                is_line(bytes@, s, e) implies line_length(bytes@, s, e) < LINE_GUARD by {
                if e == n {
                    lemma_line_start_unique(bytes@, s, start as int, e);
                }
            }
        }
    }
    long
}

} // verus!
