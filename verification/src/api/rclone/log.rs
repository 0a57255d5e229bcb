//! The backend's log, read as a snapshot of the bytes of its file.
//!
//! The log only grows while the backend runs. A position in it is a count of
//! bytes from its start; what was written since a position is everything
//! from there to the end.

use vstd::prelude::*;
use crate::text::{find, first_index_of, from_chars, slice, texts, to_chars};

verus! {

/// What marks a log line as the record of a deletion. The path follows it.
pub const DELETE_KEYWORD: &'static str = "Deleted ";

/// The text of `bytes` read as UTF-8, with U+FFFD in place of each
/// sequence that is no UTF-8.
pub uninterp spec fn utf8_lossy(bytes: Seq<u8>) -> Seq<char>;

/// The text of `bytes`.
///
/// Trusted: the body is `String::from_utf8_lossy`, which decodes UTF-8 and
/// replaces every invalid sequence by U+FFFD, turned into an owned string.
/// The contract only names that result.
#[verifier::external_body]
fn decode_lossy(bytes: &Vec<u8>) -> (text: String)
    ensures
        text@ == utf8_lossy(bytes@),
{
    String::from_utf8_lossy(bytes).into_owned()
}

/// The position at the end of `log`: the next byte written lands here.
pub open spec fn current_offset(log: Seq<u8>) -> nat {
    log.len()
}

/// The bytes of `log` from `offset` on. Nothing where the log is shorter than
/// that: the position belongs to an earlier, longer log.
pub open spec fn written_since(log: Seq<u8>, offset: nat) -> Seq<u8> {
    if offset <= log.len() {
        log.skip(offset as int)
    } else {
        Seq::empty()
    }
}

/// The number of bytes before the first line feed of `bytes`, or its length
/// where it has none.
pub open spec fn line_len(bytes: Seq<u8>) -> nat
    decreases bytes.len(),
{
    if bytes.len() == 0 || bytes[0] == 10 {
        0
    } else {
        1 + line_len(bytes.drop_first())
    }
}

/// A line that a line feed ended, without the carriage return that may stand
/// before the line feed.
pub open spec fn without_carriage_return(line: Seq<u8>) -> Seq<u8> {
    if line.len() > 0 && line.last() == 13 {
        line.drop_last()
    } else {
        line
    }
}

/// The lines of `bytes`. A line ends at a line feed, or at a carriage return
/// and a line feed; neither belongs to the line. What follows the last line
/// feed is a line too unless it is empty.
pub open spec fn split_lines(bytes: Seq<u8>) -> Seq<Seq<u8>>
    decreases bytes.len(),
{
    if bytes.len() == 0 {
        Seq::empty()
    } else {
        let n = line_len(bytes);
        if n < bytes.len() {
            seq![without_carriage_return(bytes.take(n as int))] + split_lines(
                bytes.skip(n as int + 1),
            )
        } else {
            seq![bytes]
        }
    }
}

/// The text of each line written to `log` since `offset`.
pub open spec fn log_lines(log: Seq<u8>, offset: nat) -> Seq<Seq<char>> {
    split_lines(written_since(log, offset)).map_values(|line: Seq<u8>| utf8_lossy(line))
}

/// The path that a log line reports as deleted: what follows the first
/// `Deleted ` in the line, up to its end. `None` for a line without the
/// keyword or with nothing after it.
pub open spec fn deleted_path(line: Seq<char>) -> Option<Seq<char>> {
    match first_index_of(line, DELETE_KEYWORD@) {
        Some(at) => {
            let path = line.skip(at + DELETE_KEYWORD@.len());
            if path.len() > 0 {
                Some(path)
            } else {
                None
            }
        },
        None => None,
    }
}

/// The paths reported as deleted by `lines`, in the order of the lines. Lines
/// of any other shape are passed over.
pub open spec fn deleted_paths(lines: Seq<Seq<char>>) -> Seq<Seq<char>>
    decreases lines.len(),
{
    if lines.len() == 0 {
        Seq::empty()
    } else {
        let before = deleted_paths(lines.drop_last());
        match deleted_path(lines.last()) {
            Some(path) => before.push(path),
            None => before,
        }
    }
}

/// `line_len` stops at the first line feed: the bytes before it hold none.
proof fn lemma_line_len(bytes: Seq<u8>, n: nat)
    requires
        n <= bytes.len(),
        forall|j: int| 0 <= j < n ==> bytes[j] != 10,
        n < bytes.len() ==> bytes[n as int] == 10,
    ensures
        line_len(bytes) == n,
    decreases n,
{
    if n > 0 {
        let rest = bytes.drop_first();
        assert forall|j: int| 0 <= j < n - 1 implies rest[j] != 10 by {
            assert(rest[j] == bytes[j + 1]);
        }
        lemma_line_len(rest, (n - 1) as nat);
    }
}

/// The position depends on the log alone, so reading it twice without a
/// write in between gives the same position; after a write of at least one
/// byte it is strictly greater.
pub proof fn lemma_offset_monotonic(log: Seq<u8>, written: Seq<u8>)
    ensures
        written.len() == 0 ==> current_offset(log + written) == current_offset(log),
        written.len() > 0 ==> current_offset(log + written) > current_offset(log),
{
}

/// What is read from a position taken at the end of `log` is made of the
/// bytes written after that and of nothing else: no line that stood in the
/// log when the position was taken comes back.
pub proof fn lemma_lines_since_offset(log: Seq<u8>, written: Seq<u8>)
    ensures
        written_since(log + written, current_offset(log)) == written,
        log_lines(log + written, current_offset(log)) == log_lines(written, 0),
        log_lines(log, current_offset(log)) == Seq::<Seq<char>>::empty(),
{
    assert((log + written).skip(log.len() as int) =~= written);
    assert(written.skip(0) =~= written);
    assert(log.skip(log.len() as int) =~= Seq::<u8>::empty());
    assert(split_lines(Seq::<u8>::empty()).map_values(|line: Seq<u8>| utf8_lossy(line))
        =~= Seq::<Seq<char>>::empty());
}

/// The position at the end of the log.
pub fn get_current_offset(log: &[u8]) -> (offset: usize)
    ensures
        offset == current_offset(log@),
{
    log.len()
}

/// The lines written to the log since `offset`, oldest first.
pub fn lines_since(log: &[u8], offset: usize) -> (lines: Vec<String>)
    ensures
        texts(lines@) == log_lines(log@, offset as nat),
{
    let n: usize = log.len();
    let mut lines: Vec<String> = Vec::new();
    if offset > n {
        assert(texts(lines@) =~= log_lines(log@, offset as nat));
        return lines;
    }
    let ghost all = log@.skip(offset as int);
    let ghost mut raw: Seq<Seq<u8>> = Seq::empty();
    let mut start: usize = offset;
    assert(log@.skip(start as int) =~= all);
    while start < n
        invariant
            n == log@.len(),
            offset <= start <= n,
            all == log@.skip(offset as int),
            split_lines(all) == raw + split_lines(log@.skip(start as int)),
            lines@.len() == raw.len(),
            forall|k: int| 0 <= k < raw.len() ==> (#[trigger] lines@[k])@ == utf8_lossy(raw[k]),
        decreases n - start,
    {
        let ghost rest = log@.skip(start as int);
        let mut end: usize = start;
        while end < n && log[end] != 10
            invariant
                n == log@.len(),
                start <= end <= n,
                forall|j: int| start <= j < end ==> log@[j] != 10,
            decreases n - end,
        {
            end += 1;
        }
        proof {
            lemma_line_len(rest, (end - start) as nat);
        }
        let terminated = end < n;
        let mut stop: usize = end;
        if terminated && stop > start && log[stop - 1] == 13 {
            stop -= 1;
        }
        let mut line: Vec<u8> = Vec::new();
        let mut i: usize = start;
        while i < stop
            invariant
                start <= i <= stop <= n,
                n == log@.len(),
                line@ == log@.subrange(start as int, i as int),
            decreases stop - i,
        {
            line.push(log[i]);
            i += 1;
            assert(line@ =~= log@.subrange(start as int, i as int));
        }
        let ghost next_raw = if terminated {
            without_carriage_return(rest.take(end - start))
        } else {
            rest
        };
        proof {
            assert(rest.take(end - start) =~= log@.subrange(start as int, end as int));
            if terminated {
                assert(line@ =~= next_raw);
                assert(rest.skip(end - start + 1) =~= log@.skip(end + 1));
                assert(split_lines(rest) == seq![next_raw] + split_lines(log@.skip(end + 1)));
            } else {
                assert(line@ =~= rest);
                assert(log@.skip(n as int) =~= Seq::<u8>::empty());
                assert(split_lines(rest) =~= seq![next_raw] + split_lines(log@.skip(n as int)));
            }
            assert(raw + (seq![next_raw] + split_lines(
                log@.skip(if terminated { end + 1 } else { n as int }),
            )) =~= raw.push(next_raw) + split_lines(
                log@.skip(if terminated { end + 1 } else { n as int }),
            ));
            raw = raw.push(next_raw);
        }
        lines.push(decode_lossy(&line));
        start = if terminated {
            end + 1
        } else {
            end
        };
    }
    proof {
        assert(log@.skip(n as int) =~= Seq::<u8>::empty());
        assert(split_lines(all) =~= raw);
        assert(texts(lines@) =~= log_lines(log@, offset as nat));
    }
    lines
}

/// The path that `line` reports as deleted, if it reports one.
pub fn deleted_path_in(line: &str) -> (r: Option<String>)
    ensures
        match r {
            Some(path) => deleted_path(line@) == Some(path@),
            None => deleted_path(line@) is None,
        },
{
    let chars = to_chars(line);
    let keyword = to_chars(DELETE_KEYWORD);
    let n: usize = chars.len();
    match find(&chars, &keyword) {
        Some(at) => {
            proof {
                crate::text::lemma_first_index_of_is_first(chars@, keyword@);
            }
            let from: usize = at + keyword.len();
            if from < n {
                let path = slice(&chars, from, n);
                assert(path@ =~= chars@.skip(from as int));
                Some(from_chars(&path))
            } else {
                assert(chars@.skip(from as int).len() == 0);
                None
            }
        },
        None => None,
    }
}

/// The paths whose deletion the given lines report, in the order of the
/// lines.
pub fn deleted_files_in(lines: &Vec<String>) -> (paths: Vec<String>)
    ensures
        texts(paths@) == deleted_paths(texts(lines@)),
{
    let mut paths: Vec<String> = Vec::new();
    let ghost all = texts(lines@);
    let mut i: usize = 0;
    assert(all.take(0) =~= Seq::<Seq<char>>::empty());
    while i < lines.len()
        invariant
            i <= lines@.len(),
            all == texts(lines@),
            texts(paths@) == deleted_paths(all.take(i as int)),
        decreases lines.len() - i,
    {
        let ghost before = texts(paths@);
        let found = deleted_path_in(lines[i].as_str());
        proof {
            assert(all.take(i + 1).drop_last() =~= all.take(i as int));
            assert(all.take(i + 1).last() == lines@[i as int]@);
        }
        match found {
            Some(path) => {
                paths.push(path);
                assert(texts(paths@) =~= before.push(path@));
            },
            None => {},
        }
        i += 1;
    }
    assert(all.take(lines@.len() as int) =~= all);
    paths
}

/// The paths reported as deleted by the lines written to the log since
/// `offset`, oldest first.
pub fn parse_deleted_files(log: &[u8], offset: usize) -> (paths: Vec<String>)
    ensures
        texts(paths@) == deleted_paths(log_lines(log@, offset as nat)),
{
    let lines = lines_since(log, offset);
    deleted_files_in(&lines)
}

} // verus!
