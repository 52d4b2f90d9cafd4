//! The total order under which collected records are committed, and the
//! sort that arranges a period's records by it.
//!
//! Records stay where the caller holds them. The sort reads one key per
//! record and returns the arrangement: the positions of the records in the
//! sequence in which they are to be written.

use vstd::prelude::*;
use vstd::seq_lib::lemma_multiset_commutative;
use vstd::utf8::encode_utf8;

verus! {

/// What a record is ordered by: the time of its event, in nanoseconds since
/// the epoch, and its symbol.
#[derive(Debug)]
pub struct RecordKey {
    pub timestamp: i64,
    pub symbol: String,
}

/// The order that a dataset is written in.
#[derive(Clone, Copy, Debug, PartialEq, Eq, Structural)]
pub enum OrderBy {
    /// By timestamp, and by symbol among equal timestamps: bars and trades.
    TimeThenSymbol,
    /// By symbol alone: reference details.
    Symbol,
}

/// The bytes of a symbol, by which symbols are compared.
pub open spec fn symbol_bytes(symbol: Seq<char>) -> Seq<u8> {
    encode_utf8(symbol)
}

/// Lexicographic order on byte strings: a proper prefix comes first, and
/// otherwise the first differing byte decides.
pub open spec fn bytes_le(a: Seq<u8>, b: Seq<u8>) -> bool
    decreases a.len(),
{
    if a.len() == 0 {
        true
    } else if b.len() == 0 {
        false
    } else if a[0] != b[0] {
        a[0] < b[0]
    } else {
        bytes_le(a.drop_first(), b.drop_first())
    }
}

/// `a` comes no later than `b` in the order `by`.
pub open spec fn key_le(by: OrderBy, a: RecordKey, b: RecordKey) -> bool {
    match by {
        OrderBy::TimeThenSymbol => a.timestamp < b.timestamp || (a.timestamp == b.timestamp
            && bytes_le(symbol_bytes(a.symbol@), symbol_bytes(b.symbol@))),
        OrderBy::Symbol => bytes_le(symbol_bytes(a.symbol@), symbol_bytes(b.symbol@)),
    }
}

/// Every entry of `order` is a position below `n`.
pub open spec fn within(order: Seq<usize>, n: nat) -> bool {
    forall|i: int| 0 <= i < order.len() ==> (#[trigger] order[i]) < n
}

/// `order` names each of the positions `0..n` exactly once.
pub open spec fn is_arrangement(order: Seq<usize>, n: nat) -> bool {
    &&& order.len() == n
    &&& within(order, n)
    &&& order.no_duplicates()
    &&& forall|p: usize| p < n ==> #[trigger] order.contains(p)
}

/// Read in the sequence `order`, the keys never decrease.
pub open spec fn ordered(by: OrderBy, keys: Seq<RecordKey>, order: Seq<usize>) -> bool {
    forall|i: int, j: int|
        0 <= i < j < order.len() ==> key_le(
            by,
            #[trigger] keys[order[i] as int],
            #[trigger] keys[order[j] as int],
        )
}

/// Of two byte strings, one comes no later than the other.
pub proof fn lemma_bytes_le_total(a: Seq<u8>, b: Seq<u8>)
    ensures
        bytes_le(a, b) || bytes_le(b, a),
    decreases a.len(),
{
    if a.len() > 0 && b.len() > 0 && a[0] == b[0] {
        lemma_bytes_le_total(a.drop_first(), b.drop_first());
    }
}

/// The order on byte strings is transitive.
pub proof fn lemma_bytes_le_transitive(a: Seq<u8>, b: Seq<u8>, c: Seq<u8>)
    requires
        bytes_le(a, b),
        bytes_le(b, c),
    ensures
        bytes_le(a, c),
    decreases a.len(),
{
    if a.len() > 0 && b.len() > 0 && c.len() > 0 && a[0] == b[0] && b[0] == c[0] {
        lemma_bytes_le_transitive(a.drop_first(), b.drop_first(), c.drop_first());
    }
}

/// Of two keys, one comes no later than the other.
pub proof fn lemma_key_le_total(by: OrderBy, a: RecordKey, b: RecordKey)
    ensures
        key_le(by, a, b) || key_le(by, b, a),
{
    lemma_bytes_le_total(symbol_bytes(a.symbol@), symbol_bytes(b.symbol@));
}

/// The order on keys is transitive.
pub proof fn lemma_key_le_transitive(by: OrderBy, a: RecordKey, b: RecordKey, c: RecordKey)
    requires
        key_le(by, a, b),
        key_le(by, b, c),
    ensures
        key_le(by, a, c),
{
    if bytes_le(symbol_bytes(a.symbol@), symbol_bytes(b.symbol@)) && bytes_le(
        symbol_bytes(b.symbol@),
        symbol_bytes(c.symbol@),
    ) {
        lemma_bytes_le_transitive(
            symbol_bytes(a.symbol@),
            symbol_bytes(b.symbol@),
            symbol_bytes(c.symbol@),
        );
    }
}

/// Whether the byte string `a` comes no later than `b`.
pub fn bytes_precede(a: &[u8], b: &[u8]) -> (r: bool)
    ensures
        r == bytes_le(a@, b@),
{
    let mut i: usize = 0;
    proof {
        assert(a@.skip(0) =~= a@);
        assert(b@.skip(0) =~= b@);
    }
    while i < a.len() && i < b.len()
        invariant
            i <= a@.len(),
            i <= b@.len(),
            bytes_le(a@, b@) == bytes_le(a@.skip(i as int), b@.skip(i as int)),
        decreases a@.len() - i,
    {
        proof {
            assert(a@.skip(i as int).drop_first() =~= a@.skip(i as int + 1));
            assert(b@.skip(i as int).drop_first() =~= b@.skip(i as int + 1));
            assert(a@.skip(i as int)[0] == a@[i as int]);
            assert(b@.skip(i as int)[0] == b@[i as int]);
        }
        if a[i] != b[i] {
            return a[i] < b[i];
        }
        i += 1;
    }
    proof {
        assert(a@.skip(i as int).len() == a@.len() - i);
        assert(b@.skip(i as int).len() == b@.len() - i);
    }
    i == a.len()
}

/// Whether the symbol `a` comes no later than `b`, byte by byte.
pub fn symbol_precedes(a: &String, b: &String) -> (r: bool)
    ensures
        r == bytes_le(symbol_bytes(a@), symbol_bytes(b@)),
{
    bytes_precede(a.as_str().as_bytes(), b.as_str().as_bytes())
}

/// Whether the key `a` comes no later than `b` in the order `by`.
pub fn key_precedes(by: OrderBy, a: &RecordKey, b: &RecordKey) -> (r: bool)
    ensures
        r == key_le(by, *a, *b),
{
    match by {
        OrderBy::TimeThenSymbol => {
            if a.timestamp != b.timestamp {
                a.timestamp < b.timestamp
            } else {
                symbol_precedes(&a.symbol, &b.symbol)
            }
        },
        OrderBy::Symbol => symbol_precedes(&a.symbol, &b.symbol),
    }
}

/// The positions `0..n` in rising sequence.
pub open spec fn identity_order(n: nat) -> Seq<usize> {
    Seq::new(n, |i: int| i as usize)
}

/// A sequence that holds the same positions as `0..n`, each as often, names
/// each of them exactly once.
proof fn lemma_same_as_identity(order: Seq<usize>, n: nat)
    requires
        n <= usize::MAX,
        order.to_multiset() =~= identity_order(n).to_multiset(),
    ensures
        is_arrangement(order, n),
{
    broadcast use vstd::seq_lib::group_to_multiset_ensures;

    let id = identity_order(n);
    assert(id.no_duplicates());
    id.lemma_multiset_has_no_duplicates();
    order.lemma_multiset_has_no_duplicates_conv();
    assert(order.len() == order.to_multiset().len());
    assert(id.len() == id.to_multiset().len());
    assert forall|i: int| 0 <= i < order.len() implies (#[trigger] order[i]) < n by {
        assert(order.contains(order[i]));
        assert(id.to_multiset().count(order[i]) > 0);
        assert(id.contains(order[i]));
    }
    assert forall|p: usize| p < n implies #[trigger] order.contains(p) by {
        assert(id[p as int] == p);
        assert(id.contains(p));
        assert(id.to_multiset().count(p) > 0);
        assert(order.to_multiset().count(p) > 0);
    }
}

/// Merges two runs that are each in order into one run in order.
fn merge_runs(by: OrderBy, keys: &Vec<RecordKey>, left: &Vec<usize>, right: &Vec<usize>) -> (out:
    Vec<usize>)
    requires
        within(left@, keys@.len()),
        within(right@, keys@.len()),
        ordered(by, keys@, left@),
        ordered(by, keys@, right@),
        left@.len() + right@.len() <= usize::MAX,
    ensures
        within(out@, keys@.len()),
        ordered(by, keys@, out@),
        out@.to_multiset() =~= left@.to_multiset().add(right@.to_multiset()),
        out@.len() == left@.len() + right@.len(),
{
    broadcast use vstd::seq_lib::group_to_multiset_ensures;

    let mut out: Vec<usize> = Vec::new();
    let mut i: usize = 0;
    let mut j: usize = 0;
    proof {
        assert(left@.subrange(0, 0) =~= Seq::<usize>::empty());
        assert(right@.subrange(0, 0) =~= Seq::<usize>::empty());
    }
    while i < left.len() || j < right.len()
        invariant
            i <= left@.len(),
            j <= right@.len(),
            out@.len() == i + j,
            within(left@, keys@.len()),
            within(right@, keys@.len()),
            within(out@, keys@.len()),
            ordered(by, keys@, left@),
            ordered(by, keys@, right@),
            ordered(by, keys@, out@),
            out@.to_multiset() =~= left@.subrange(0, i as int).to_multiset().add(
                right@.subrange(0, j as int).to_multiset(),
            ),
            forall|p: int, q: int|
                0 <= p < out@.len() && i <= q < left@.len() ==> key_le(
                    by,
                    #[trigger] keys@[out@[p] as int],
                    #[trigger] keys@[left@[q] as int],
                ),
            forall|p: int, q: int|
                0 <= p < out@.len() && j <= q < right@.len() ==> key_le(
                    by,
                    #[trigger] keys@[out@[p] as int],
                    #[trigger] keys@[right@[q] as int],
                ),
        decreases left@.len() - i + right@.len() - j,
    {
        let from_left: bool = if i >= left.len() {
            false
        } else if j >= right.len() {
            true
        } else {
            key_precedes(by, &keys[left[i]], &keys[right[j]])
        };
        let ghost before = out@;
        if from_left {
            let pick: usize = left[i];
            proof {
                assert(left@.subrange(0, i as int + 1) =~= left@.subrange(0, i as int).push(pick));
                assert forall|q: int| j <= q < right@.len() implies key_le(
                    by,
                    keys@[pick as int],
                    #[trigger] keys@[right@[q] as int],
                ) by {
                    if q > j {
                        assert(key_le(by, keys@[right@[j as int] as int], keys@[right@[q] as int]));
                        lemma_key_le_transitive(
                            by,
                            keys@[pick as int],
                            keys@[right@[j as int] as int],
                            keys@[right@[q] as int],
                        );
                    }
                }
                assert forall|q: int| i + 1 <= q < left@.len() implies key_le(
                    by,
                    keys@[pick as int],
                    #[trigger] keys@[left@[q] as int],
                ) by {
                    assert(key_le(by, keys@[left@[i as int] as int], keys@[left@[q] as int]));
                }
            }
            out.push(pick);
            proof {
                let l = left@.subrange(0, i as int).to_multiset();
                let r = right@.subrange(0, j as int).to_multiset();
                assert(out@ =~= before.push(pick));
                vstd::seq_lib::to_multiset_build(before, pick);
                vstd::seq_lib::to_multiset_build(left@.subrange(0, i as int), pick);
                assert(out@.to_multiset() =~= before.to_multiset().insert(pick));
                assert(left@.subrange(0, i as int + 1).to_multiset() =~= l.insert(pick));
                assert(l.add(r).insert(pick) =~= l.insert(pick).add(r));
            }
            i += 1;
        } else {
            let pick: usize = right[j];
            proof {
                assert(right@.subrange(0, j as int + 1) =~= right@.subrange(0, j as int).push(
                    pick,
                ));
                assert forall|q: int| i <= q < left@.len() implies key_le(
                    by,
                    keys@[pick as int],
                    #[trigger] keys@[left@[q] as int],
                ) by {
                    lemma_key_le_total(
                        by,
                        keys@[left@[i as int] as int],
                        keys@[right@[j as int] as int],
                    );
                    if q > i {
                        assert(key_le(by, keys@[left@[i as int] as int], keys@[left@[q] as int]));
                        lemma_key_le_transitive(
                            by,
                            keys@[pick as int],
                            keys@[left@[i as int] as int],
                            keys@[left@[q] as int],
                        );
                    }
                }
                assert forall|q: int| j + 1 <= q < right@.len() implies key_le(
                    by,
                    keys@[pick as int],
                    #[trigger] keys@[right@[q] as int],
                ) by {
                    assert(key_le(by, keys@[right@[j as int] as int], keys@[right@[q] as int]));
                }
            }
            out.push(pick);
            proof {
                let l = left@.subrange(0, i as int).to_multiset();
                let r = right@.subrange(0, j as int).to_multiset();
                assert(out@ =~= before.push(pick));
                vstd::seq_lib::to_multiset_build(before, pick);
                vstd::seq_lib::to_multiset_build(right@.subrange(0, j as int), pick);
                assert(out@.to_multiset() =~= before.to_multiset().insert(pick));
                assert(right@.subrange(0, j as int + 1).to_multiset() =~= r.insert(pick));
                assert(l.add(r).insert(pick) =~= l.add(r.insert(pick)));
            }
            j += 1;
        }
        proof {
            assert(out@ =~= before.push(out@[before.len() as int]));
            assert forall|p: int, q: int| 0 <= p < q < out@.len() implies key_le(
                by,
                #[trigger] keys@[out@[p] as int],
                #[trigger] keys@[out@[q] as int],
            ) by {
                if q < before.len() {
                    assert(key_le(by, keys@[before[p] as int], keys@[before[q] as int]));
                }
            }
        }
    }
    proof {
        assert(left@.subrange(0, i as int) =~= left@);
        assert(right@.subrange(0, j as int) =~= right@);
    }
    out
}

/// Sorts one run of positions by their keys.
fn sort_run(by: OrderBy, keys: &Vec<RecordKey>, run: Vec<usize>) -> (out: Vec<usize>)
    requires
        within(run@, keys@.len()),
    ensures
        within(out@, keys@.len()),
        ordered(by, keys@, out@),
        out@.to_multiset() =~= run@.to_multiset(),
        out@.len() == run@.len(),
    decreases run@.len(),
{
    let n: usize = run.len();
    if n <= 1 {
        return run;
    }
    let mid: usize = n / 2;
    let mut left: Vec<usize> = Vec::new();
    let mut right: Vec<usize> = Vec::new();
    let mut k: usize = 0;
    while k < n
        invariant
            n == run@.len(),
            mid == n / 2,
            k <= n,
            left@ =~= run@.subrange(0, if k <= mid { k as int } else { mid as int }),
            right@ =~= run@.subrange(mid as int, if k <= mid { mid as int } else { k as int }),
        decreases n - k,
    {
        if k < mid {
            left.push(run[k]);
        } else {
            right.push(run[k]);
        }
        k += 1;
    }
    proof {
        assert(run@ =~= left@ + right@);
        lemma_multiset_commutative(left@, right@);
    }
    let left_sorted = sort_run(by, keys, left);
    let right_sorted = sort_run(by, keys, right);
    merge_runs(by, keys, &left_sorted, &right_sorted)
}

/// The arrangement of `keys` in the order `by`: each position of `keys`
/// exactly once, so that the keys read in that sequence never decrease.
/// Which of two equal keys comes first is left open.
pub fn sort_order(by: OrderBy, keys: &Vec<RecordKey>) -> (order: Vec<usize>)
    ensures
        is_arrangement(order@, keys@.len()),
        ordered(by, keys@, order@),
{
    let n: usize = keys.len();
    let mut run: Vec<usize> = Vec::new();
    let mut k: usize = 0;
    while k < n
        invariant
            n == keys@.len(),
            k <= n,
            run@ =~= identity_order(k as nat),
        decreases n - k,
    {
        run.push(k);
        k += 1;
    }
    let order = sort_run(by, keys, run);
    proof {
        lemma_same_as_identity(order@, n as nat);
    }
    order
}

} // verus!
