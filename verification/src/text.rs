//! Searching and slicing of character sequences.
//!
//! Strings are viewed as `Seq<char>`; every index in this module counts
//! characters, never bytes.

use vstd::prelude::*;

verus! {

/// The characters of an optional string.
pub open spec fn opt_text(o: Option<String>) -> Option<Seq<char>> {
    match o {
        Some(s) => Some(s@),
        None => None,
    }
}

/// The characters of each string of a list.
pub open spec fn texts(v: Seq<String>) -> Seq<Seq<char>> {
    Seq::new(v.len(), |i: int| v[i]@)
}

/// `needle` occurs in `hay` starting at character `i`.
pub open spec fn matches_at(hay: Seq<char>, needle: Seq<char>, i: int) -> bool {
    &&& 0 <= i
    &&& i + needle.len() <= hay.len()
    &&& forall|k: int| 0 <= k < needle.len() ==> hay[i + k] == needle[k]
}

/// `needle` occurs somewhere in `hay`.
pub open spec fn occurs_in(hay: Seq<char>, needle: Seq<char>) -> bool {
    exists|i: int| matches_at(hay, needle, i)
}

/// `i` is the leftmost position at which `needle` occurs in `hay`.
pub open spec fn is_first_match(hay: Seq<char>, needle: Seq<char>, i: int) -> bool {
    &&& matches_at(hay, needle, i)
    &&& forall|j: int| 0 <= j < i ==> !matches_at(hay, needle, j)
}

/// The leftmost position at which `needle` occurs in `hay`, if any.
pub open spec fn first_index_of(hay: Seq<char>, needle: Seq<char>) -> Option<int> {
    if occurs_in(hay, needle) {
        Some(choose|i: int| is_first_match(hay, needle, i))
    } else {
        None
    }
}

/// `i` is the leftmost position of `s` that holds the character `c`.
pub open spec fn is_first_char(s: Seq<char>, c: char, i: int) -> bool {
    &&& 0 <= i < s.len()
    &&& s[i] == c
    &&& forall|j: int| 0 <= j < i ==> s[j] != c
}

/// The leftmost position of the character `c` in `s`, if any.
pub open spec fn first_index_of_char(s: Seq<char>, c: char) -> Option<int> {
    if s.contains(c) {
        Some(choose|i: int| is_first_char(s, c, i))
    } else {
        None
    }
}

/// `i` is the rightmost position of `s` that holds the character `c`.
pub open spec fn is_last_char(s: Seq<char>, c: char, i: int) -> bool {
    &&& 0 <= i < s.len()
    &&& s[i] == c
    &&& forall|j: int| i < j < s.len() ==> s[j] != c
}

/// The rightmost position of the character `c` in `s`, if any.
pub open spec fn last_index_of_char(s: Seq<char>, c: char) -> Option<int> {
    if s.contains(c) {
        Some(choose|i: int| is_last_char(s, c, i))
    } else {
        None
    }
}

/// `i` is the leftmost position of `s` that holds one of the characters `a`, `b`.
pub open spec fn is_first_of_two(s: Seq<char>, a: char, b: char, i: int) -> bool {
    &&& 0 <= i < s.len()
    &&& (s[i] == a || s[i] == b)
    &&& forall|j: int| 0 <= j < i ==> s[j] != a && s[j] != b
}

/// The leftmost position in `s` of either of the characters `a`, `b`, if any.
pub open spec fn first_index_of_two(s: Seq<char>, a: char, b: char) -> Option<int> {
    if s.contains(a) || s.contains(b) {
        Some(choose|i: int| is_first_of_two(s, a, b, i))
    } else {
        None
    }
}

/// `s` without its leading run of the character `c`.
pub open spec fn strip_leading(s: Seq<char>, c: char) -> Seq<char>
    decreases s.len(),
{
    if s.len() > 0 && s[0] == c {
        strip_leading(s.drop_first(), c)
    } else {
        s
    }
}

/// The decimal digit for `d`, which is below ten.
pub open spec fn digit(d: int) -> char {
    if d == 0 {
        '0'
    } else if d == 1 {
        '1'
    } else if d == 2 {
        '2'
    } else if d == 3 {
        '3'
    } else if d == 4 {
        '4'
    } else if d == 5 {
        '5'
    } else if d == 6 {
        '6'
    } else if d == 7 {
        '7'
    } else if d == 8 {
        '8'
    } else {
        '9'
    }
}

/// The decimal digits of `n`, most significant first, without leading zeros.
pub open spec fn digits(n: nat) -> Seq<char>
    decreases n,
{
    if n < 10 {
        seq![digit(n as int)]
    } else {
        digits(n / 10).push(digit((n % 10) as int))
    }
}

/// `n` in decimal, with a minus sign in front when it is negative.
pub open spec fn decimal(n: int) -> Seq<char> {
    if n < 0 {
        seq!['-'] + digits((-n) as nat)
    } else {
        digits(n as nat)
    }
}

/// A character with the Unicode property White_Space.
pub open spec fn is_space(c: char) -> bool {
    ||| '\u{9}' <= c <= '\u{D}'
    ||| c == ' '
    ||| c == '\u{85}'
    ||| c == '\u{A0}'
    ||| c == '\u{1680}'
    ||| '\u{2000}' <= c <= '\u{200A}'
    ||| c == '\u{2028}'
    ||| c == '\u{2029}'
    ||| c == '\u{202F}'
    ||| c == '\u{205F}'
    ||| c == '\u{3000}'
}

/// `s` without its leading white space.
pub open spec fn trim_start(s: Seq<char>) -> Seq<char>
    decreases s.len(),
{
    if s.len() > 0 && is_space(s[0]) {
        trim_start(s.drop_first())
    } else {
        s
    }
}

/// `s` without its trailing white space.
pub open spec fn trim_end(s: Seq<char>) -> Seq<char>
    decreases s.len(),
{
    if s.len() > 0 && is_space(s.last()) {
        trim_end(s.drop_last())
    } else {
        s
    }
}

/// `s` without its leading and trailing white space.
pub open spec fn trimmed(s: Seq<char>) -> Seq<char> {
    trim_end(trim_start(s))
}

/// `s` ends with `suffix`.
pub open spec fn has_suffix(s: Seq<char>, suffix: Seq<char>) -> bool {
    suffix.len() <= s.len() && matches_at(s, suffix, s.len() - suffix.len())
}

/// What `strip_leading` removes is a run of `c` at the start of `s`, and it
/// removes all of it: what is left is the rest of `s` and does not begin
/// with `c`.
pub proof fn lemma_strip_leading(s: Seq<char>, c: char) -> (run: nat)
    ensures
        run <= s.len(),
        forall|j: int| 0 <= j < run ==> s[j] == c,
        strip_leading(s, c) == s.skip(run as int),
        run < s.len() ==> s[run as int] != c,
    decreases s.len(),
{
    if s.len() > 0 && s[0] == c {
        let rest = lemma_strip_leading(s.drop_first(), c);
        assert(s.drop_first().skip(rest as int) =~= s.skip(rest as int + 1));
        assert forall|j: int| 0 <= j < rest + 1 implies s[j] == c by {
            if j > 0 {
                assert(s.drop_first()[j - 1] == s[j]);
            }
        }
        rest + 1
    } else {
        assert(s.skip(0) =~= s);
        0
    }
}

/// A leftmost match is unique, so it is the one `first_index_of` names.
pub proof fn lemma_first_index_of(hay: Seq<char>, needle: Seq<char>, i: int)
    requires
        is_first_match(hay, needle, i),
    ensures
        first_index_of(hay, needle) == Some(i),
{
    assert(matches_at(hay, needle, i));
    let j = choose|j: int| is_first_match(hay, needle, j);
    assert(is_first_match(hay, needle, j));
    if j < i {
        assert(!matches_at(hay, needle, j));
    }
    if i < j {
        assert(!matches_at(hay, needle, i));
    }
}

/// Where nothing matches, `first_index_of` is `None`; where it is `Some`, the
/// position it names is the leftmost match.
pub proof fn lemma_first_index_of_is_first(hay: Seq<char>, needle: Seq<char>)
    ensures
        match first_index_of(hay, needle) {
            Some(i) => is_first_match(hay, needle, i),
            None => forall|j: int| !matches_at(hay, needle, j),
        },
{
    if occurs_in(hay, needle) {
        let w = choose|i: int| matches_at(hay, needle, i);
        lemma_least_match(hay, needle, w);
    }
}

/// Below any match there is a leftmost one.
proof fn lemma_least_match(hay: Seq<char>, needle: Seq<char>, w: int)
    requires
        matches_at(hay, needle, w),
    ensures
        exists|i: int| is_first_match(hay, needle, i),
    decreases w,
{
    if exists|j: int| 0 <= j < w && matches_at(hay, needle, j) {
        let j = choose|j: int| 0 <= j < w && matches_at(hay, needle, j);
        lemma_least_match(hay, needle, j);
    } else {
        assert(is_first_match(hay, needle, w));
    }
}

/// A leftmost position of `c` is the one `first_index_of_char` names.
pub proof fn lemma_first_index_of_char(s: Seq<char>, c: char, i: int)
    requires
        is_first_char(s, c, i),
    ensures
        first_index_of_char(s, c) == Some(i),
{
    assert(s.contains(c));
    let j = choose|j: int| is_first_char(s, c, j);
    assert(is_first_char(s, c, j));
    if j < i {
        assert(s[j] != c);
    }
    if i < j {
        assert(s[i] != c);
    }
}

/// A rightmost position of `c` is the one `last_index_of_char` names.
pub proof fn lemma_last_index_of_char(s: Seq<char>, c: char, i: int)
    requires
        is_last_char(s, c, i),
    ensures
        last_index_of_char(s, c) == Some(i),
{
    assert(s.contains(c));
    let j = choose|j: int| is_last_char(s, c, j);
    assert(is_last_char(s, c, j));
    if j < i {
        assert(s[i] != c);
    }
    if i < j {
        assert(s[j] != c);
    }
}

/// A leftmost position of `a` or `b` is the one `first_index_of_two` names.
pub proof fn lemma_first_index_of_two(s: Seq<char>, a: char, b: char, i: int)
    requires
        is_first_of_two(s, a, b, i),
    ensures
        first_index_of_two(s, a, b) == Some(i),
{
    assert(s.contains(s[i]));
    let j = choose|j: int| is_first_of_two(s, a, b, j);
    assert(is_first_of_two(s, a, b, j));
    if j < i {
        assert(s[j] != a && s[j] != b);
    }
    if i < j {
        assert(s[i] != a && s[i] != b);
    }
}

/// The characters of `s`, in order.
pub fn to_chars(s: &str) -> (v: Vec<char>)
    ensures
        v@ == s@,
{
    let mut v: Vec<char> = Vec::new();
    for c in it: s.chars()
        invariant
            it.seq() == s@,
            v@ == it.seq().take(it.index()),
    {
        v.push(c);
    }
    v
}

/// The string whose characters are those of `chars`, in order.
///
/// Trusted: the body collects the characters through std's
/// `FromIterator<&char>` for `String`, which appends each character of the
/// iterator in turn to an empty string. The contract claims exactly that: the
/// result holds the same characters in the same order.
#[verifier::external_body]
pub(crate) fn from_chars(chars: &Vec<char>) -> (s: String)
    ensures
        s@ == chars@,
{
    chars.iter().collect()
}

/// The characters of `v` from position `from` up to, not including, `to`.
pub(crate) fn slice(v: &Vec<char>, from: usize, to: usize) -> (r: Vec<char>)
    requires
        from <= to <= v@.len(),
    ensures
        r@ == v@.subrange(from as int, to as int),
{
    let mut r: Vec<char> = Vec::new();
    let mut i: usize = from;
    while i < to
        invariant
            from <= i <= to <= v@.len(),
            r@ == v@.subrange(from as int, i as int),
        decreases to - i,
    {
        r.push(v[i]);
        i += 1;
        assert(r@ =~= v@.subrange(from as int, i as int));
    }
    r
}

/// Appends the characters of `tail` to `v`.
pub fn extend(v: &mut Vec<char>, tail: &Vec<char>)
    ensures
        final(v)@ == old(v)@ + tail@,
{
    let mut i: usize = 0;
    while i < tail.len()
        invariant
            i <= tail@.len(),
            v@ == old(v)@ + tail@.subrange(0, i as int),
        decreases tail.len() - i,
    {
        v.push(tail[i]);
        i += 1;
        assert(v@ =~= old(v)@ + tail@.subrange(0, i as int));
    }
    assert(tail@.subrange(0, tail@.len() as int) =~= tail@);
}

/// Appends the characters of the string `tail` to `v`.
pub fn extend_str(v: &mut Vec<char>, tail: &str)
    ensures
        final(v)@ == old(v)@ + tail@,
{
    let t = to_chars(tail);
    extend(v, &t);
}

/// `v` without its leading run of the character `c`.
pub fn trim_start_matches(v: &Vec<char>, c: char) -> (r: Vec<char>)
    ensures
        r@ == strip_leading(v@, c),
        r@.len() > 0 ==> r@[0] != c,
{
    let n: usize = v.len();
    let mut i: usize = 0;
    assert(v@.skip(0) =~= v@);
    while i < n && v[i] == c
        invariant
            n == v@.len(),
            i <= n,
            strip_leading(v@, c) == strip_leading(v@.skip(i as int), c),
        decreases n - i,
    {
        assert(v@.skip(i as int).drop_first() =~= v@.skip(i + 1));
        i += 1;
    }
    assert(v@.skip(i as int) =~= v@.subrange(i as int, n as int));
    slice(v, i, n)
}

/// The decimal digit for `d`.
fn digit_char(d: u64) -> (c: char)
    requires
        d < 10,
    ensures
        c == digit(d as int),
{
    if d == 0 {
        '0'
    } else if d == 1 {
        '1'
    } else if d == 2 {
        '2'
    } else if d == 3 {
        '3'
    } else if d == 4 {
        '4'
    } else if d == 5 {
        '5'
    } else if d == 6 {
        '6'
    } else if d == 7 {
        '7'
    } else if d == 8 {
        '8'
    } else {
        '9'
    }
}

/// Appends the decimal digits of `n` to `out`.
pub fn push_digits(out: &mut Vec<char>, n: u64)
    ensures
        final(out)@ == old(out)@ + digits(n as nat),
    decreases n,
{
    if n >= 10 {
        push_digits(out, n / 10);
    }
    out.push(digit_char(n % 10));
    assert(out@ =~= old(out)@ + digits(n as nat));
}

/// Appends `n` in decimal to `out`.
pub fn push_decimal(out: &mut Vec<char>, n: i64)
    ensures
        final(out)@ == old(out)@ + decimal(n as int),
{
    if n < 0 {
        out.push('-');
        let magnitude: u64 = (-(n + 1)) as u64 + 1;
        push_digits(out, magnitude);
        assert(out@ =~= old(out)@ + (seq!['-'] + digits((-n) as nat)));
    } else {
        push_digits(out, n as u64);
    }
}

/// `a` followed by `b`.
pub fn joined(a: &str, b: &str) -> (r: String)
    ensures
        r@ == a@ + b@,
{
    let mut chars = to_chars(a);
    extend_str(&mut chars, b);
    from_chars(&chars)
}

/// Whether `c` has the Unicode property White_Space.
pub fn is_whitespace(c: char) -> (r: bool)
    ensures
        r == is_space(c),
{
    ('\u{9}' <= c && c <= '\u{D}') || c == ' ' || c == '\u{85}' || c == '\u{A0}' || c
        == '\u{1680}' || ('\u{2000}' <= c && c <= '\u{200A}') || c == '\u{2028}' || c
        == '\u{2029}' || c == '\u{202F}' || c == '\u{205F}' || c == '\u{3000}'
}

/// `v` without its leading and trailing white space.
pub fn trim(v: &Vec<char>) -> (r: Vec<char>)
    ensures
        r@ == trimmed(v@),
{
    let n: usize = v.len();
    let mut from: usize = 0;
    assert(v@.skip(0) =~= v@);
    while from < n && is_whitespace(v[from])
        invariant
            n == v@.len(),
            from <= n,
            trim_start(v@) == trim_start(v@.skip(from as int)),
        decreases n - from,
    {
        assert(v@.skip(from as int).drop_first() =~= v@.skip(from + 1));
        from += 1;
    }
    let ghost body = v@.skip(from as int);
    assert(trim_start(v@) == body);
    let mut to: usize = n;
    assert(body.take(n - from) =~= body);
    while to > from && is_whitespace(v[to - 1])
        invariant
            n == v@.len(),
            from <= to <= n,
            body == v@.skip(from as int),
            trim_end(body) == trim_end(body.take(to - from)),
        decreases to,
    {
        assert(body.take(to - from).drop_last() =~= body.take(to - from - 1));
        to -= 1;
    }
    assert(body.take(to - from) =~= v@.subrange(from as int, to as int));
    slice(v, from, to)
}

/// Whether `s` ends with `suffix`.
pub fn ends_with(s: &str, suffix: &str) -> (r: bool)
    ensures
        r == has_suffix(s@, suffix@),
{
    let chars = to_chars(s);
    let tail = to_chars(suffix);
    if tail.len() > chars.len() {
        return false;
    }
    starts_at(&chars, &tail, chars.len() - tail.len())
}

/// Whether two character vectors hold the same characters.
pub fn same(a: &Vec<char>, b: &Vec<char>) -> (r: bool)
    ensures
        r == (a@ == b@),
{
    if a.len() != b.len() {
        return false;
    }
    let mut i: usize = 0;
    while i < a.len()
        invariant
            i <= a@.len(),
            a@.len() == b@.len(),
            forall|j: int| 0 <= j < i ==> a@[j] == b@[j],
        decreases a.len() - i,
    {
        if a[i] != b[i] {
            return false;
        }
        i += 1;
    }
    assert(a@ =~= b@);
    true
}

/// Whether two strings hold the same characters.
pub fn str_eq(a: &str, b: &str) -> (r: bool)
    ensures
        r == (a@ == b@),
{
    let x = to_chars(a);
    let y = to_chars(b);
    same(&x, &y)
}

/// Whether `needle` occurs in `hay` at position `i`.
pub fn starts_at(hay: &Vec<char>, needle: &Vec<char>, i: usize) -> (r: bool)
    ensures
        r == matches_at(hay@, needle@, i as int),
{
    if needle.len() > hay.len() || i > hay.len() - needle.len() {
        return false;
    }
    let mut k: usize = 0;
    while k < needle.len()
        invariant
            k <= needle.len(),
            i + needle.len() <= hay.len(),
            forall|m: int| 0 <= m < k ==> hay@[i + m] == needle@[m],
        decreases needle.len() - k,
    {
        if hay[i + k] != needle[k] {
            return false;
        }
        k += 1;
    }
    true
}

/// The leftmost position at which `needle` occurs in `hay`.
pub fn find(hay: &Vec<char>, needle: &Vec<char>) -> (r: Option<usize>)
    ensures
        r is Some <==> occurs_in(hay@, needle@),
        r is Some ==> first_index_of(hay@, needle@) == Some(r.unwrap() as int),
        r is None ==> first_index_of(hay@, needle@) is None,
{
    if needle.len() > hay.len() {
        return None;
    }
    let last: usize = hay.len() - needle.len();
    let mut i: usize = 0;
    while i <= last
        invariant
            last == hay.len() - needle.len(),
            i <= last + 1,
            forall|j: int| 0 <= j < i ==> !matches_at(hay@, needle@, j),
        decreases last + 1 - i,
    {
        if starts_at(hay, needle, i) {
            proof {
                lemma_first_index_of(hay@, needle@, i as int);
            }
            return Some(i);
        }
        i += 1;
    }
    None
}

/// The leftmost position of the character `c` in `s`.
pub fn find_char(s: &Vec<char>, c: char) -> (r: Option<usize>)
    ensures
        match r {
            Some(i) => is_first_char(s@, c, i as int),
            None => !s@.contains(c),
        },
        first_index_of_char(s@, c) == match r {
            Some(i) => Some(i as int),
            None => None,
        },
{
    let mut i: usize = 0;
    while i < s.len()
        invariant
            i <= s.len(),
            forall|j: int| 0 <= j < i ==> s@[j] != c,
        decreases s.len() - i,
    {
        if s[i] == c {
            proof {
                lemma_first_index_of_char(s@, c, i as int);
            }
            return Some(i);
        }
        i += 1;
    }
    None
}

/// The leftmost position in `s` of either of the characters `a`, `b`.
pub fn find_either(s: &Vec<char>, a: char, b: char) -> (r: Option<usize>)
    ensures
        match r {
            Some(i) => is_first_of_two(s@, a, b, i as int),
            None => !s@.contains(a) && !s@.contains(b),
        },
        first_index_of_two(s@, a, b) == match r {
            Some(i) => Some(i as int),
            None => None,
        },
{
    let mut i: usize = 0;
    while i < s.len()
        invariant
            i <= s.len(),
            forall|j: int| 0 <= j < i ==> s@[j] != a && s@[j] != b,
        decreases s.len() - i,
    {
        if s[i] == a || s[i] == b {
            proof {
                lemma_first_index_of_two(s@, a, b, i as int);
            }
            return Some(i);
        }
        i += 1;
    }
    None
}

/// The rightmost position of the character `c` in `s`.
pub fn rfind_char(s: &Vec<char>, c: char) -> (r: Option<usize>)
    ensures
        match r {
            Some(i) => is_last_char(s@, c, i as int),
            None => !s@.contains(c),
        },
        last_index_of_char(s@, c) == match r {
            Some(i) => Some(i as int),
            None => None,
        },
{
    let mut i: usize = s.len();
    while i > 0
        invariant
            i <= s.len(),
            forall|j: int| i <= j < s.len() ==> s@[j] != c,
        decreases i,
    {
        i -= 1;
        if s[i] == c {
            proof {
                lemma_last_index_of_char(s@, c, i as int);
            }
            return Some(i);
        }
    }
    None
}

/// Whether `needle` occurs anywhere in `hay`.
pub fn contains(hay: &str, needle: &str) -> (r: bool)
    ensures
        r == occurs_in(hay@, needle@),
{
    let h = to_chars(hay);
    let n = to_chars(needle);
    find(&h, &n).is_some()
}

} // verus!
