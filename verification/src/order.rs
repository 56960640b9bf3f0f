//! Lexicographic order on names, and sorting by it.

use crate::text::row_texts;
use vstd::prelude::*;
use vstd::relations::{sorted_by, total_ordering};
use vstd::seq_lib::{group_to_multiset_ensures, lemma_sorted_unique};

verus! {

broadcast use group_to_multiset_ensures;

/// `a` comes before `b`, or equals it, in lexicographic order by code point:
/// at the first place where the two differ `a` has the smaller character, or
/// `a` ends there.
pub open spec fn precedes(a: Seq<char>, b: Seq<char>) -> bool
    decreases a.len(),
{
    if a.len() == 0 {
        true
    } else if b.len() == 0 {
        false
    } else if a[0] == b[0] {
        precedes(a.drop_first(), b.drop_first())
    } else {
        (a[0] as u32) < (b[0] as u32)
    }
}

/// `precedes` as a relation value.
pub open spec fn name_order() -> spec_fn(Seq<char>, Seq<char>) -> bool {
    |a: Seq<char>, b: Seq<char>| precedes(a, b)
}

/// Every name comes before, or equals, each name after it.
pub open spec fn ascending(names: Seq<Seq<char>>) -> bool {
    forall|i: int, j: int|
        0 <= i < j < names.len() ==> precedes(#[trigger] names[i], #[trigger] names[j])
}

/// Every name precedes itself.
pub proof fn lemma_precedes_reflexive(a: Seq<char>)
    ensures
        precedes(a, a),
    decreases a.len(),
{
    if a.len() > 0 {
        lemma_precedes_reflexive(a.drop_first());
    }
}

/// Two names that precede each other are the same name.
pub proof fn lemma_precedes_antisymmetric(a: Seq<char>, b: Seq<char>)
    requires
        precedes(a, b),
        precedes(b, a),
    ensures
        a == b,
    decreases a.len(),
{
    if a.len() > 0 && b.len() > 0 {
        lemma_precedes_antisymmetric(a.drop_first(), b.drop_first());
        assert(b =~= seq![b[0]] + b.drop_first());
    }
}

/// `precedes` is transitive.
pub proof fn lemma_precedes_transitive(a: Seq<char>, b: Seq<char>, c: Seq<char>)
    requires
        precedes(a, b),
        precedes(b, c),
    ensures
        precedes(a, c),
    decreases a.len(),
{
    if a.len() > 0 && a[0] == b[0] && b[0] == c[0] {
        lemma_precedes_transitive(a.drop_first(), b.drop_first(), c.drop_first());
    }
}

/// Of any two names, one precedes the other.
pub proof fn lemma_precedes_total(a: Seq<char>, b: Seq<char>)
    ensures
        precedes(a, b) || precedes(b, a),
    decreases a.len(),
{
    if a.len() > 0 && b.len() > 0 {
        if a[0] == b[0] {
            lemma_precedes_total(a.drop_first(), b.drop_first());
        } else {
            vstd::utf8::char_u32_cast(a[0], a[0] as u32);
            vstd::utf8::char_u32_cast(b[0], b[0] as u32);
        }
    }
}

/// `precedes` is a total order on names.
pub proof fn lemma_name_order_total()
    ensures
        total_ordering(name_order()),
{
    let r = name_order();
    assert forall|x: Seq<char>| #[trigger] r(x, x) by {
        lemma_precedes_reflexive(x);
    }
    assert forall|x: Seq<char>, y: Seq<char>| #[trigger] r(x, y) && #[trigger] r(y, x) implies x
        == y by {
        lemma_precedes_antisymmetric(x, y);
    }
    assert forall|x: Seq<char>, y: Seq<char>, z: Seq<char>| #[trigger]
        r(x, y) && #[trigger] r(y, z) implies r(x, z) by {
        lemma_precedes_transitive(x, y, z);
    }
    assert forall|x: Seq<char>, y: Seq<char>| #[trigger] r(x, y) || #[trigger] r(y, x) by {
        lemma_precedes_total(x, y);
    }
}

/// There is one ascending arrangement of a collection of names: two ascending
/// sequences with the same members, counted with multiplicity, are equal.
pub proof fn lemma_ascending_unique(x: Seq<Seq<char>>, y: Seq<Seq<char>>)
    requires
        ascending(x),
        ascending(y),
        x.to_multiset() == y.to_multiset(),
    ensures
        x == y,
{
    lemma_name_order_total();
    lemma_sorted_unique(x, y, name_order());
}

/// Names that agree on their first `k` characters compare as their
/// remainders do.
pub proof fn lemma_precedes_after_common_prefix(a: Seq<char>, b: Seq<char>, k: int)
    requires
        0 <= k <= a.len(),
        k <= b.len(),
        forall|i: int| 0 <= i < k ==> a[i] == b[i],
    ensures
        precedes(a, b) == precedes(a.skip(k), b.skip(k)),
    decreases k,
{
    if k == 0 {
        assert(a.skip(0) =~= a);
        assert(b.skip(0) =~= b);
    } else {
        lemma_precedes_after_common_prefix(a.drop_first(), b.drop_first(), k - 1);
        assert(a.drop_first().skip(k - 1) =~= a.skip(k));
        assert(b.drop_first().skip(k - 1) =~= b.skip(k));
    }
}

/// Decides `precedes`.
pub fn comes_before(a: &[char], b: &[char]) -> (r: bool)
    ensures
        r == precedes(a@, b@),
{
    let mut i: usize = 0;
    while i < a.len() && i < b.len() && a[i] == b[i]
        invariant
            i <= a@.len(),
            i <= b@.len(),
            forall|j: int| 0 <= j < i ==> a@[j] == b@[j],
        decreases a@.len() - i,
    {
        i += 1;
    }
    proof {
        lemma_precedes_after_common_prefix(a@, b@, i as int);
    }
    if i == a.len() {
        true
    } else if i == b.len() {
        false
    } else {
        (a[i] as u32) < (b[i] as u32)
    }
}

/// Index at which `name` enters the ascending `sorted` so that it stays
/// ascending: everything before it precedes `name`, nothing from it on does.
pub fn insertion_point(sorted: &Vec<Vec<char>>, name: &[char]) -> (at: usize)
    requires
        ascending(row_texts(sorted@)),
    ensures
        at <= sorted@.len(),
        forall|i: int| 0 <= i < at ==> precedes(#[trigger] row_texts(sorted@)[i], name@),
        forall|i: int|
            at <= i < sorted@.len() ==> !precedes(#[trigger] row_texts(sorted@)[i], name@),
{
    let ghost rows = row_texts(sorted@);
    let mut low: usize = 0;
    let mut high: usize = sorted.len();
    while low < high
        invariant
            low <= high <= sorted@.len(),
            rows == row_texts(sorted@),
            ascending(rows),
            forall|i: int| 0 <= i < low ==> precedes(#[trigger] rows[i], name@),
            forall|i: int| high <= i < rows.len() ==> !precedes(#[trigger] rows[i], name@),
        decreases high - low,
    {
        let mid: usize = low + (high - low) / 2;
        if comes_before(sorted[mid].as_slice(), name) {
            assert forall|i: int| 0 <= i < mid + 1 implies precedes(#[trigger] rows[i], name@) by {
                if i < mid {
                    lemma_precedes_transitive(rows[i], rows[mid as int], name@);
                }
            }
            low = mid + 1;
        } else {
            assert forall|i: int| mid <= i < rows.len() implies !precedes(
                #[trigger] rows[i],
                name@,
            ) by {
                if mid < i && precedes(rows[i], name@) {
                    lemma_precedes_transitive(rows[mid as int], rows[i], name@);
                }
            }
            high = mid;
        }
    }
    low
}

/// Puts `name` into the ascending `sorted`, which stays ascending.
pub fn insert_ascending(sorted: &mut Vec<Vec<char>>, name: Vec<char>)
    requires
        ascending(row_texts(old(sorted)@)),
    ensures
        ascending(row_texts(final(sorted)@)),
        row_texts(final(sorted)@).to_multiset() == row_texts(old(sorted)@).to_multiset().insert(
            name@,
        ),
{
    let at = insertion_point(sorted, name.as_slice());
    let ghost before = row_texts(sorted@);
    sorted.insert(at, name);
    proof {
        let after = row_texts(sorted@);
        assert(after =~= before.insert(at as int, name@));
        assert forall|i: int, j: int| 0 <= i < j < after.len() implies precedes(
            #[trigger] after[i],
            #[trigger] after[j],
        ) by {
            if i == at {
                lemma_precedes_total(before[j - 1], name@);
            }
        }
    }
}

/// The names of `names` in ascending order. Names that occur more than once
/// are all kept.
pub fn sort_names(names: Vec<Vec<char>>) -> (sorted: Vec<Vec<char>>)
    ensures
        ascending(row_texts(sorted@)),
        row_texts(sorted@).to_multiset() == row_texts(names@).to_multiset(),
{
    let mut names = names;
    let ghost all = row_texts(names@);
    let mut sorted: Vec<Vec<char>> = Vec::new();
    while names.len() > 0
        invariant
            ascending(row_texts(sorted@)),
            row_texts(sorted@).to_multiset().add(row_texts(names@).to_multiset())
                == all.to_multiset(),
        decreases names@.len(),
    {
        let ghost left = row_texts(names@);
        let name = names.pop().unwrap();
        assert(left =~= row_texts(names@).push(name@));
        insert_ascending(&mut sorted, name);
    }
    sorted
}

} // verus!
