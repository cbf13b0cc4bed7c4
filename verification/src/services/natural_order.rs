use vstd::prelude::*;

verus! {

/// How two texts compare in natural order, as `natord::compare` tells it:
/// negative where the first comes before the second, zero where neither comes
/// before the other, positive where the first comes after.
pub uninterp spec fn natural_order(left: Seq<char>, right: Seq<char>) -> int;

/// `natord::compare`: compares two texts so that runs of decimal digits count
/// by their value and white space is skipped.
///
/// The contract names the result and says that it is -1, 0 or 1. It also says
/// that exchanging the arguments negates the result: the function treats its
/// two arguments alike, step by step, and every step either compares the two
/// characters or digits at hand or tells which side ended first.
#[verifier::external_body]
pub(crate) fn compare_natural(left: &str, right: &str) -> (r: i8)
    ensures
        r == natural_order(left@, right@),
        -1 <= r <= 1,
        natural_order(right@, left@) == -r,
{
    match natord::compare(left, right) {
        std::cmp::Ordering::Less => -1,
        std::cmp::Ordering::Equal => 0,
        std::cmp::Ordering::Greater => 1,
    }
}

/// `order` lists each position below `n` exactly once.
pub open spec fn is_arrangement(order: Seq<usize>, n: int) -> bool {
    &&& order.len() == n
    &&& forall|i: int| 0 <= i < order.len() ==> 0 <= #[trigger] order[i] < n
    &&& forall|i: int, j: int|
        0 <= i < j < order.len() ==> #[trigger] order[i] != #[trigger] order[j]
}

/// Taken in the order `order`, no text of `names` comes after its successor.
pub open spec fn in_natural_order(names: Seq<Seq<char>>, order: Seq<usize>) -> bool {
    forall|i: int|
        0 <= i < order.len() - 1 ==> natural_order(
            #[trigger] names[order[i] as int],
            names[order[i + 1] as int],
        ) <= 0
}

/// Natural order is transitive among `names`: what comes not after a name
/// that comes not after a third comes not after the third.
pub open spec fn transitive_among(names: Seq<Seq<char>>) -> bool {
    forall|a: int, b: int, c: int|
        0 <= a < names.len() && 0 <= b < names.len() && 0 <= c < names.len()
            && #[trigger] natural_order(names[a], names[b]) <= 0 && #[trigger] natural_order(
            names[b],
            names[c],
        ) <= 0 ==> natural_order(names[a], names[c]) <= 0
}

/// Where natural order is transitive among the names, an arrangement in
/// which no name comes after its successor is in order throughout: no name
/// comes after any later one.
pub proof fn lemma_in_order_throughout(names: Seq<Seq<char>>, order: Seq<usize>, i: int, j: int)
    requires
        is_arrangement(order, names.len() as int),
        in_natural_order(names, order),
        transitive_among(names),
        0 <= i < j < order.len(),
    ensures
        natural_order(names[order[i] as int], names[order[j] as int]) <= 0,
    decreases j - i,
{
    if j > i + 1 {
        lemma_in_order_throughout(names, order, i, j - 1);
        assert(natural_order(names[order[j - 1] as int], names[order[j] as int]) <= 0);
        assert(0 <= order[i] < names.len());
        assert(0 <= order[j - 1] < names.len());
        assert(0 <= order[j] < names.len());
    }
}

/// The texts of a list of strings.
pub open spec fn texts(names: Seq<String>) -> Seq<Seq<char>> {
    Seq::new(names.len(), |i: int| names[i]@)
}

/// The positions of `names` arranged in natural order: every position once,
/// so that no name comes after its successor.
pub fn natural_arrangement(names: &Vec<String>) -> (order: Vec<usize>)
    ensures
        is_arrangement(order@, names.len() as int),
        in_natural_order(texts(names@), order@),
{
    let mut order: Vec<usize> = Vec::new();
    let mut k: usize = 0;
    while k < names.len()
        invariant
            k <= names.len(),
            is_arrangement(order@, k as int),
            in_natural_order(texts(names@), order@),
        decreases names.len() - k,
    {
        let mut j: usize = order.len();
        while j > 0 && compare_natural(names[order[j - 1]].as_str(), names[k].as_str()) > 0
            invariant
                j <= order.len(),
                k < names.len(),
                is_arrangement(order@, k as int),
                j < order.len() ==> natural_order(
                    texts(names@)[k as int],
                    texts(names@)[order@[j as int] as int],
                ) < 0,
            decreases j,
        {
            j -= 1;
        }
        let ghost before = order@;
        order.insert(j, k);
        proof {
            let t = texts(names@);
            let after = order@;
            assert(after =~= before.insert(j as int, k));
            assert forall|i: int| 0 <= i < after.len() implies 0 <= #[trigger] after[i] < k
                + 1 by {
                if i < j {
                    assert(after[i] == before[i]);
                } else if i > j {
                    assert(after[i] == before[i - 1]);
                }
            }
            assert forall|a: int, b: int| 0 <= a < b < after.len() implies #[trigger] after[a]
                != #[trigger] after[b] by {
                let pa = if a < j { a } else { a - 1 };
                let pb = if b < j { b } else { b - 1 };
                if a != j && b != j {
                    assert(after[a] == before[pa]);
                    assert(after[b] == before[pb]);
                } else if a == j {
                    assert(after[b] == before[pb]);
                } else {
                    assert(after[a] == before[pa]);
                }
            }
            assert forall|i: int| 0 <= i < after.len() - 1 implies natural_order(
                #[trigger] t[after[i] as int],
                t[after[i + 1] as int],
            ) <= 0 by {
                if i + 1 < j {
                    assert(after[i] == before[i]);
                    assert(after[i + 1] == before[i + 1]);
                } else if i + 1 == j {
                    assert(after[i] == before[i]);
                } else if i == j {
                    assert(after[i + 1] == before[i]);
                } else {
                    assert(after[i] == before[i - 1]);
                    assert(after[i + 1] == before[i]);
                }
            }
        }
        k += 1;
    }
    order
}

} // verus!
