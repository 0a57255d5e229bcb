//! Putting lists in order by a rank and a name.
//!
//! Names are compared character by character, by code point, which is how
//! Rust compares strings. Lists are sorted stably: entries that compare equal
//! stay in the order they came in.

use vstd::prelude::*;
use crate::text::{texts, to_chars};

verus! {

/// `a` comes before `b` in the dictionary, or equals it.
pub open spec fn lex_le(a: Seq<char>, b: Seq<char>) -> bool
    decreases a.len(),
{
    if a.len() == 0 {
        true
    } else if b.len() == 0 {
        false
    } else if a[0] == b[0] {
        lex_le(a.drop_first(), b.drop_first())
    } else {
        a[0] < b[0]
    }
}

/// What an entry is sorted by: first its rank, lower ranks first, then its
/// text, in dictionary order.
pub struct SortKey {
    pub rank: u8,
    pub text: Vec<char>,
}

impl View for SortKey {
    type V = (u8, Seq<char>);

    open spec fn view(&self) -> (u8, Seq<char>) {
        (self.rank, self.text@)
    }
}

/// The key `a` is not after the key `b`.
pub open spec fn key_le(a: (u8, Seq<char>), b: (u8, Seq<char>)) -> bool {
    a.0 < b.0 || (a.0 == b.0 && lex_le(a.1, b.1))
}

/// The views of a list of keys.
pub open spec fn key_views(keys: Seq<SortKey>) -> Seq<(u8, Seq<char>)> {
    Seq::new(keys.len(), |i: int| keys[i]@)
}

/// In a stable sort of `keys`, the entry at position `i` of the input comes
/// before the one at position `j`: its key is smaller, or the keys compare
/// equal and `i` is the earlier position.
pub open spec fn precedes(keys: Seq<(u8, Seq<char>)>, i: int, j: int) -> bool {
    !key_le(keys[j], keys[i]) || (key_le(keys[i], keys[j]) && i < j)
}

/// `order` lists the positions of `keys` as a stable sort leaves them: every
/// position once, and each before all those that it precedes.
pub open spec fn is_stable_order(keys: Seq<(u8, Seq<char>)>, order: Seq<usize>) -> bool {
    &&& order.len() == keys.len()
    &&& forall|i: int| 0 <= i < order.len() ==> 0 <= #[trigger] order[i] < keys.len()
    &&& forall|x: int| 0 <= x < keys.len() ==> #[trigger] order.contains(x as usize)
    &&& forall|i: int, j: int|
        0 <= i < j < order.len() ==> precedes(
            keys,
            #[trigger] order[i] as int,
            #[trigger] order[j] as int,
        )
}

/// The keys of names that are sorted by their text alone.
pub open spec fn name_keys(names: Seq<Seq<char>>) -> Seq<(u8, Seq<char>)> {
    Seq::new(names.len(), |i: int| (0u8, names[i]))
}

/// The positions of `keys` as a stable sort leaves them. There is exactly one
/// such list for any `keys`.
pub open spec fn sorted_positions(keys: Seq<(u8, Seq<char>)>) -> Seq<usize> {
    choose|order: Seq<usize>| is_stable_order(keys, order)
}

/// `items` taken in the order that `order` lists their positions in.
pub open spec fn permuted<T>(items: Seq<T>, order: Seq<usize>) -> Seq<T> {
    Seq::new(order.len(), |i: int| items[order[i] as int])
}

/// Any two texts are comparable.
pub proof fn lemma_lex_le_total(a: Seq<char>, b: Seq<char>)
    ensures
        lex_le(a, b) || lex_le(b, a),
    decreases a.len(),
{
    if a.len() > 0 && b.len() > 0 && a[0] == b[0] {
        lemma_lex_le_total(a.drop_first(), b.drop_first());
    }
}

/// The dictionary order is transitive.
pub proof fn lemma_lex_le_transitive(a: Seq<char>, b: Seq<char>, c: Seq<char>)
    requires
        lex_le(a, b),
        lex_le(b, c),
    ensures
        lex_le(a, c),
    decreases a.len(),
{
    if a.len() > 0 && b.len() > 0 && c.len() > 0 && a[0] == b[0] && b[0] == c[0] {
        lemma_lex_le_transitive(a.drop_first(), b.drop_first(), c.drop_first());
    }
}

/// Texts that are each not after the other are the same text.
pub proof fn lemma_lex_le_antisymmetric(a: Seq<char>, b: Seq<char>)
    requires
        lex_le(a, b),
        lex_le(b, a),
    ensures
        a == b,
    decreases a.len(),
{
    if a.len() > 0 && b.len() > 0 {
        lemma_lex_le_antisymmetric(a.drop_first(), b.drop_first());
        assert(a =~= seq![a[0]] + a.drop_first());
        assert(b =~= seq![b[0]] + b.drop_first());
    } else {
        assert(a =~= b);
    }
}

/// Any two keys are comparable.
pub proof fn lemma_key_le_total(a: (u8, Seq<char>), b: (u8, Seq<char>))
    ensures
        key_le(a, b) || key_le(b, a),
{
    lemma_lex_le_total(a.1, b.1);
}

/// The order of keys is transitive.
pub proof fn lemma_key_le_transitive(a: (u8, Seq<char>), b: (u8, Seq<char>), c: (u8, Seq<char>))
    requires
        key_le(a, b),
        key_le(b, c),
    ensures
        key_le(a, c),
{
    if a.0 == b.0 && b.0 == c.0 {
        lemma_lex_le_transitive(a.1, b.1, c.1);
    }
}

/// Of two different positions exactly one precedes the other, so a stable
/// order cannot hold two positions both ways round.
proof fn lemma_precedes_one_way(keys: Seq<(u8, Seq<char>)>, x: int, y: int)
    ensures
        !(precedes(keys, x, y) && precedes(keys, y, x)),
{
    lemma_key_le_total(keys[x], keys[y]);
}

/// Two stable orders of the same keys agree up to any position.
proof fn lemma_stable_orders_agree(
    keys: Seq<(u8, Seq<char>)>,
    a: Seq<usize>,
    b: Seq<usize>,
    upto: int,
)
    requires
        is_stable_order(keys, a),
        is_stable_order(keys, b),
        0 <= upto <= keys.len(),
    ensures
        forall|i: int| 0 <= i < upto ==> a[i] == b[i],
    decreases upto,
{
    if upto > 0 {
        lemma_stable_orders_agree(keys, a, b, upto - 1);
        let i = upto - 1;
        let x = a[i];
        let y = b[i];
        if x != y {
            // `x` stands somewhere in `b`, and not before `i`
            let xi = x as int;
            assert(0 <= xi < keys.len());
            assert(b.contains(xi as usize));
            let j = choose|j: int| 0 <= j < b.len() && b[j] == x;
            if j < i {
                assert(a[j] == b[j]);
                assert(precedes(keys, a[j] as int, a[i] as int));
                lemma_key_le_total(keys[x as int], keys[x as int]);
            }
            assert(j > i);
            // and `y` stands somewhere in `a`, and not before `i`
            let yi = y as int;
            assert(0 <= yi < keys.len());
            assert(a.contains(yi as usize));
            let k = choose|k: int| 0 <= k < a.len() && a[k] == y;
            if k < i {
                assert(a[k] == b[k]);
                assert(precedes(keys, b[k] as int, b[i] as int));
                lemma_key_le_total(keys[y as int], keys[y as int]);
            }
            assert(k > i);
            assert(precedes(keys, a[i] as int, a[k] as int));
            assert(precedes(keys, b[i] as int, b[j] as int));
            lemma_precedes_one_way(keys, x as int, y as int);
        }
    }
}

/// The keys have one stable order only: any stable order of them is
/// `sorted_positions`.
pub proof fn lemma_stable_order_unique(keys: Seq<(u8, Seq<char>)>, order: Seq<usize>)
    requires
        is_stable_order(keys, order),
    ensures
        order == sorted_positions(keys),
{
    let chosen = sorted_positions(keys);
    lemma_stable_orders_agree(keys, order, chosen, keys.len() as int);
    assert(order =~= chosen);
}

/// Along a stable order the keys never go down.
pub proof fn lemma_stable_order_is_sorted(keys: Seq<(u8, Seq<char>)>, order: Seq<usize>)
    requires
        is_stable_order(keys, order),
    ensures
        forall|i: int, j: int|
            0 <= i < j < order.len() ==> key_le(
                #[trigger] permuted(keys, order)[i],
                #[trigger] permuted(keys, order)[j],
            ),
{
    assert forall|i: int, j: int| 0 <= i < j < order.len() implies key_le(
        #[trigger] permuted(keys, order)[i],
        #[trigger] permuted(keys, order)[j],
    ) by {
        assert(precedes(keys, order[i] as int, order[j] as int));
        lemma_key_le_total(keys[order[i] as int], keys[order[j] as int]);
    }
}

/// Whether `a` comes before `b` in the dictionary, or equals it.
pub fn text_le(a: &Vec<char>, b: &Vec<char>) -> (r: bool)
    ensures
        r == lex_le(a@, b@),
{
    let mut i: usize = 0;
    assert(a@.skip(0) =~= a@ && b@.skip(0) =~= b@);
    while i < a.len() && i < b.len()
        invariant
            i <= a@.len(),
            i <= b@.len(),
            lex_le(a@, b@) == lex_le(a@.skip(i as int), b@.skip(i as int)),
        decreases a.len() - i,
    {
        if a[i] != b[i] {
            return a[i] < b[i];
        }
        assert(a@.skip(i as int).drop_first() =~= a@.skip(i + 1));
        assert(b@.skip(i as int).drop_first() =~= b@.skip(i + 1));
        i += 1;
    }
    i >= a.len()
}

/// Whether the key `a` is not after the key `b`.
pub fn not_after(a: &SortKey, b: &SortKey) -> (r: bool)
    ensures
        r == key_le(a@, b@),
{
    a.rank < b.rank || (a.rank == b.rank && text_le(&a.text, &b.text))
}

/// The positions of `keys` in the order that a stable sort puts them in.
pub fn stable_order(keys: &Vec<SortKey>) -> (order: Vec<usize>)
    ensures
        is_stable_order(key_views(keys@), order@),
        order@ == sorted_positions(key_views(keys@)),
{
    let n: usize = keys.len();
    let ghost all = key_views(keys@);
    let mut order: Vec<usize> = Vec::new();
    let mut k: usize = 0;
    while k < n
        invariant
            n == keys@.len(),
            all == key_views(keys@),
            k <= n,
            order@.len() == k,
            forall|i: int| 0 <= i < k ==> 0 <= #[trigger] order@[i] < k,
            forall|x: int| 0 <= x < k ==> #[trigger] order@.contains(x as usize),
            forall|i: int, j: int|
                0 <= i < j < k ==> precedes(
                    all,
                    #[trigger] order@[i] as int,
                    #[trigger] order@[j] as int,
                ),
        decreases n - k,
    {
        let mut p: usize = k;
        while p > 0 && !not_after(&keys[order[p - 1]], &keys[k])
            invariant
                n == keys@.len(),
                all == key_views(keys@),
                k < n,
                p <= k,
                order@.len() == k,
                forall|i: int| 0 <= i < k ==> 0 <= #[trigger] order@[i] < k,
                forall|j: int|
                    p <= j < k ==> !key_le(all[#[trigger] order@[j] as int], all[k as int]),
            decreases p,
        {
            p -= 1;
        }
        let ghost before = order@;
        order.insert(p, k);
        proof {
            let after = order@;
            assert forall|i: int| 0 <= i < k + 1 implies 0 <= #[trigger] after[i] < k + 1 by {
                if i < p {
                    assert(after[i] == before[i]);
                } else if i > p {
                    assert(after[i] == before[i - 1]);
                }
            }
            assert forall|x: int| 0 <= x < k + 1 implies #[trigger] after.contains(x as usize) by {
                if x == k {
                    assert(after[p as int] == k);
                } else {
                    assert(before.contains(x as usize));
                    let i = choose|i: int| 0 <= i < before.len() && before[i] == x as usize;
                    if i < p {
                        assert(after[i] == before[i]);
                    } else {
                        assert(after[i + 1] == before[i]);
                    }
                }
            }
            assert forall|i: int, j: int| 0 <= i < j < k + 1 implies precedes(
                all,
                #[trigger] after[i] as int,
                #[trigger] after[j] as int,
            ) by {
                if j < p {
                    assert(after[i] == before[i] && after[j] == before[j]);
                } else if i > p {
                    assert(after[i] == before[i - 1] && after[j] == before[j - 1]);
                } else if i < p && j > p {
                    assert(after[i] == before[i] && after[j] == before[j - 1]);
                } else if j == p {
                    // an earlier entry against the new one
                    assert(after[i] == before[i]);
                    assert(key_le(all[before[p - 1] as int], all[k as int]));
                    if i < p - 1 {
                        assert(precedes(all, before[i] as int, before[p - 1] as int));
                        lemma_key_le_total(all[before[i] as int], all[before[p - 1] as int]);
                        lemma_key_le_transitive(
                            all[before[i] as int],
                            all[before[p - 1] as int],
                            all[k as int],
                        );
                    }
                } else {
                    // the new entry against a later one
                    assert(i == p);
                    assert(after[j] == before[j - 1]);
                }
            }
        }
        k += 1;
    }
    proof {
        lemma_stable_order_unique(all, order@);
    }
    order
}

/// The names in dictionary order. Equal names stay in the order they came
/// in; every name is kept.
pub fn sort_names(names: &Vec<String>) -> (sorted: Vec<String>)
    ensures
        texts(sorted@) == permuted(texts(names@), sorted_positions(name_keys(texts(names@)))),
        is_stable_order(name_keys(texts(names@)), sorted_positions(name_keys(texts(names@)))),
        forall|i: int, j: int|
            0 <= i < j < sorted@.len() ==> lex_le(#[trigger] sorted@[i]@, #[trigger] sorted@[j]@),
{
    let ghost all = texts(names@);
    let mut keys: Vec<SortKey> = Vec::new();
    let mut i: usize = 0;
    while i < names.len()
        invariant
            i <= names@.len(),
            all == texts(names@),
            keys@.len() == i,
            forall|j: int| 0 <= j < i ==> (#[trigger] keys@[j])@ == name_keys(all)[j],
        decreases names.len() - i,
    {
        keys.push(SortKey { rank: 0, text: to_chars(names[i].as_str()) });
        i += 1;
    }
    assert(key_views(keys@) =~= name_keys(all));
    let order = stable_order(&keys);
    let mut sorted: Vec<String> = Vec::new();
    let mut n: usize = 0;
    while n < order.len()
        invariant
            n <= order@.len(),
            all == texts(names@),
            is_stable_order(name_keys(all), order@),
            sorted@.len() == n,
            forall|j: int| 0 <= j < n ==> (#[trigger] sorted@[j])@ == all[order@[j] as int],
        decreases order.len() - n,
    {
        let at: usize = order[n];
        assert(at < all.len());
        sorted.push(names[at].clone());
        n += 1;
    }
    proof {
        assert(texts(sorted@) =~= permuted(all, order@));
        lemma_stable_order_is_sorted(name_keys(all), order@);
        assert forall|i: int, j: int| 0 <= i < j < sorted@.len() implies lex_le(
            #[trigger] sorted@[i]@,
            #[trigger] sorted@[j]@,
        ) by {
            assert(key_le(
                permuted(name_keys(all), order@)[i],
                permuted(name_keys(all), order@)[j],
            ));
        }
    }
    sorted
}

} // verus!
