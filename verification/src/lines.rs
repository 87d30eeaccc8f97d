//! Which line of a freshly decoded chunk is forwarded.
//!
//! A chunk holds everything that was appended to a file since the previous
//! read. At most one of its lines is forwarded: the last one that is known
//! to be complete.

use vstd::prelude::*;
use vstd::string::*;
use crate::text::{find_last, last_index_of, lemma_last_index_of, to_chars};

verus! {

/// Position of the last line feed of a text, or -1 where it has none.
pub open spec fn last_line_feed(text: Seq<char>) -> int {
    last_index_of(text, '\n')
}

/// A line without the carriage return that may precede its line feed.
pub open spec fn without_carriage_return(line: Seq<char>) -> Seq<char> {
    if line.len() > 0 && line.last() == '\r' {
        line.drop_last()
    } else {
        line
    }
}

/// The text ends with a line feed (alone or after a carriage return).
pub open spec fn ends_with_line_feed(text: Seq<char>) -> bool {
    text.len() > 0 && text.last() == '\n'
}

/// Where the last line of a non-empty text starts: behind the last line feed
/// that is not the final character.
pub open spec fn last_line_start(text: Seq<char>) -> int {
    last_line_feed(text.drop_last()) + 1
}

/// The last line of a non-empty text. A line that is closed by a line feed
/// loses it, together with a carriage return before it; an open line is kept
/// whole.
pub open spec fn last_line(text: Seq<char>) -> Seq<char> {
    if ends_with_line_feed(text) {
        without_carriage_return(text.subrange(last_line_start(text), text.len() - 1))
    } else {
        text.subrange(last_line_start(text), text.len() as int)
    }
}

/// The lines of a text, first to last. Lines end at a line feed or at a
/// carriage return followed by a line feed; the final line need not be closed,
/// and a text that ends with a line ending has no empty line after it.
pub open spec fn lines(text: Seq<char>) -> Seq<Seq<char>>
    decreases text.len(),
    via lines_shrink
{
    if text.len() == 0 {
        seq![]
    } else {
        lines(text.take(last_line_start(text))).push(last_line(text))
    }
}

#[via_fn]
proof fn lines_shrink(text: Seq<char>) {
    if text.len() > 0 {
        lemma_last_index_of(text.drop_last(), '\n');
    }
}

/// The line of a chunk that is forwarded. Where the chunk ends with a line
/// ending, its last line; otherwise the chunk's tail is still being written,
/// and the line before it is taken. `None` where there is no such line.
pub open spec fn forwarded_line(chunk: Seq<char>) -> Option<Seq<char>> {
    let all = lines(chunk);
    if ends_with_line_feed(chunk) {
        if all.len() >= 1 {
            Some(all.last())
        } else {
            None
        }
    } else if all.len() >= 2 {
        Some(all[all.len() - 2])
    } else {
        None
    }
}

/// The last line of a chunk that a line feed closes, without that line
/// feed and the carriage return before it: what stands between the last line
/// feed and the one before it. `None` where the chunk holds no line feed.
pub open spec fn last_closed_line(chunk: Seq<char>) -> Option<Seq<char>> {
    let end = last_line_feed(chunk);
    if end < 0 {
        None
    } else {
        let start = last_line_feed(chunk.take(end)) + 1;
        Some(without_carriage_return(chunk.subrange(start, end)))
    }
}

/// The forwarded line is the last closed line of the chunk, whether the
/// chunk ends with it or with the beginning of a further line.
pub proof fn lemma_forwarded_is_last_closed(chunk: Seq<char>)
    ensures
        forwarded_line(chunk) == last_closed_line(chunk),
{
    if chunk.len() > 0 {
        let end = last_line_feed(chunk);
        lemma_last_index_of(chunk, '\n');
        lemma_last_index_of(chunk.drop_last(), '\n');
        if ends_with_line_feed(chunk) {
            assert(chunk.take(end) =~= chunk.drop_last());
        } else if end < 0 {
            assert(chunk.take(0) =~= Seq::<char>::empty());
            assert(lines(chunk.take(0)).len() == 0);
            assert(lines(chunk).len() == 1);
        } else {
            let head = chunk.take(end + 1);
            assert(head.drop_last() =~= chunk.take(end));
            lemma_last_index_of(head.drop_last(), '\n');
            assert(ends_with_line_feed(head));
            assert(lines(head).last() == last_line(head));
            let start = last_line_start(head);
            assert(head.subrange(start, end) =~= chunk.subrange(start, end));
            assert(lines(chunk) == lines(head).push(last_line(chunk)));
            assert(lines(chunk)[lines(chunk).len() - 2] == lines(head).last());
        }
    }
}

/// Picks the line of a chunk that is forwarded, if there is one.
pub fn extract_last_line(chunk: &str) -> (line: Option<String>)
    ensures
        line is Some <==> forwarded_line(chunk@) is Some,
        line is Some ==> line->Some_0@ == forwarded_line(chunk@)->Some_0,
{
    let chars = to_chars(chunk);
    let n: usize = chars.len();
    let ghost text = chars@;
    proof {
        lemma_forwarded_is_last_closed(text);
        assert(text.take(n as int) =~= text);
    }
    let term: usize = match find_last(&chars, n, '\n') {
        Some(at) => at,
        None => {
            return None;
        },
    };
    proof {
        lemma_last_index_of(text, '\n');
        lemma_last_index_of(text.take(term as int), '\n');
    }
    let start: usize = match find_last(&chars, term, '\n') {
        Some(at) => at + 1,
        None => 0,
    };
    let end: usize = if term > start && chars[term - 1] == '\r' {
        term - 1
    } else {
        term
    };
    proof {
        let raw = text.subrange(start as int, term as int);
        if term > start && chars[term - 1] == '\r' {
            assert(raw.drop_last() =~= text.subrange(start as int, end as int));
        }
        assert(without_carriage_return(raw) == text.subrange(start as int, end as int));
    }
    Some(String::from_str(chunk.substring_char(start, end)))
}

} // verus!
