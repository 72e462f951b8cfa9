//! Splitting a text into its lines.
use vstd::prelude::*;
use crate::text::{chars_before, find_char, slice_text, text_of, to_chars, views};

verus! {

/// A line without the carriage return that stood before its line feed.
pub open spec fn strip_cr(line: Seq<char>) -> Seq<char> {
    if line.len() > 0 && line.last() == '\r' {
        line.drop_last()
    } else {
        line
    }
}

/// The lines of a text. A line ends at a line feed, or at a carriage return
/// directly followed by one; the ending is not part of the line. A last line
/// needs no ending, and an ending at the very end opens no further line.
pub open spec fn lines_of(s: Seq<char>) -> Seq<Seq<char>>
    decreases s.len(),
{
    let k = chars_before(s, '\n');
    if s.len() == 0 {
        Seq::empty()
    } else if k >= s.len() {
        seq![s]
    } else {
        seq![strip_cr(s.take(k as int))] + lines_of(s.skip(k as int + 1))
    }
}

/// The lines of `content`.
pub fn split_lines(content: &str) -> (r: Vec<String>)
    ensures
        views(r@) == lines_of(content@),
{
    let v = to_chars(content);
    let n = v.len();
    let mut out: Vec<String> = Vec::new();
    let mut start: usize = 0;
    assert(v@.subrange(0, n as int) =~= v@);
    while start < n
        invariant
            start <= n == v.len(),
            lines_of(v@) == views(out@) + lines_of(v@.subrange(start as int, n as int)),
        decreases n - start,
    {
        let ghost rest = v@.subrange(start as int, n as int);
        let ghost before = views(out@);
        let k = find_char(&v, start, n, '\n');
        // The line is v[start..k], less a carriage return before a line feed.
        let stop: usize = if k < n && k > start && v[k - 1] == '\r' {
            (k - 1) as usize
        } else {
            k
        };
        let line = slice_text(&v, start, stop);
        out.push(line);
        if k < n {
            assert(line@ =~= strip_cr(rest.take(k - start)));
            assert(rest.skip(k - start + 1) =~= v@.subrange(k + 1, n as int));
            start = k + 1;
        } else {
            start = k;
        }
    }
    out
}

/// The names that the allow-list file holds, one per line; none where the
/// file does not exist.
pub open spec fn file_containers(content: Option<Seq<char>>) -> Seq<Seq<char>> {
    match content {
        Some(text) => lines_of(text),
        None => Seq::empty(),
    }
}

/// The names that the allow-list file holds; `content` is `None` where the
/// file does not exist.
pub fn load_file_containers(content: Option<&str>) -> (r: Vec<String>)
    ensures
        views(r@) == file_containers(text_of(content)),
{
    match content {
        Some(text) => split_lines(text),
        None => {
            let out: Vec<String> = Vec::new();
            out
        },
    }
}

} // verus!
