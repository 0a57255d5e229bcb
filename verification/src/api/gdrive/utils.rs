//! Reading a folder identifier out of what the user pasted.

use vstd::prelude::*;
use crate::text::{
    find, find_char, find_either, first_index_of, first_index_of_char, first_index_of_two,
    from_chars, slice, to_chars,
};

verus! {

/// `s` up to, not including, its first `a` or `b`; all of `s` if it holds neither.
pub open spec fn until_either(s: Seq<char>, a: char, b: char) -> Seq<char> {
    match first_index_of_two(s, a, b) {
        Some(end) => s.take(end),
        None => s,
    }
}

/// `s` up to, not including, its first `c`; all of `s` if it holds none.
pub open spec fn until_char(s: Seq<char>, c: char) -> Seq<char> {
    match first_index_of_char(s, c) {
        Some(end) => s.take(end),
        None => s,
    }
}

/// The folder identifier that `source` designates.
///
/// In a folder URL it is what follows the first `/folders/`, up to the next
/// `/` or `?`. Failing that, in a link with an `id=` parameter it is what
/// follows the first `id=`, up to the next `&`. Anything else is taken to be
/// the identifier itself.
pub open spec fn gdrive_id(source: Seq<char>) -> Seq<char> {
    match first_index_of(source, "/folders/"@) {
        Some(start) => until_either(source.skip(start + "/folders/"@.len()), '/', '?'),
        None => match first_index_of(source, "id="@) {
            Some(start) => until_char(source.skip(start + "id="@.len()), '&'),
            None => source,
        },
    }
}

/// Extracts the folder identifier from a share link, or returns the input
/// unchanged when it has none of the known shapes.
pub fn parse_gdrive_id(source: &str) -> (id: String)
    ensures
        id@ == gdrive_id(source@),
{
    let chars = to_chars(source);
    let n: usize = chars.len();
    let folders = to_chars("/folders/");
    if let Some(start) = find(&chars, &folders) {
        proof {
            crate::text::lemma_first_index_of_is_first(chars@, folders@);
        }
        let rest = slice(&chars, start + folders.len(), n);
        assert(rest@ == chars@.skip(start + folders@.len()));
        let m: usize = rest.len();
        let id = match find_either(&rest, '/', '?') {
            Some(end) => slice(&rest, 0, end),
            None => slice(&rest, 0, m),
        };
        assert(id@ =~= until_either(rest@, '/', '?'));
        return from_chars(&id);
    }
    let marker = to_chars("id=");
    if let Some(start) = find(&chars, &marker) {
        proof {
            crate::text::lemma_first_index_of_is_first(chars@, marker@);
        }
        let rest = slice(&chars, start + marker.len(), n);
        assert(rest@ == chars@.skip(start + marker@.len()));
        let m: usize = rest.len();
        let id = match find_char(&rest, '&') {
            Some(end) => slice(&rest, 0, end),
            None => slice(&rest, 0, m),
        };
        assert(id@ =~= until_char(rest@, '&'));
        return from_chars(&id);
    }
    source.to_owned()
}

} // verus!
