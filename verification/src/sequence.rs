//! Laws of sequences that the loops over tables and lists lean on.

use vstd::prelude::*;

verus! {

/// The items before place `i + 1` are the items before place `i` and the item
/// at `i`.
pub proof fn lemma_take_next<A>(s: Seq<A>, i: int)
    requires
        0 <= i < s.len(),
    ensures
        s.take(i + 1) == s.take(i).push(s[i]),
        s.take(i + 1).drop_last() == s.take(i),
        s.take(i + 1).last() == s[i],
        forall|x: A| #[trigger] s.take(i + 1).contains(x) <==> s.take(i).contains(x) || x == s[i],
{
    let earlier = s.take(i);
    let later = s.take(i + 1);
    assert(later =~= earlier.push(s[i]));
    assert(later.drop_last() =~= earlier);
    assert forall|x: A| #[trigger] later.contains(x) <==> earlier.contains(x) || x == s[i] by {
        if later.contains(x) {
            let j = choose|j: int| 0 <= j < later.len() && later[j] == x;
            if j < i {
                assert(earlier[j] == x);
            }
        }
        if earlier.contains(x) {
            let j = choose|j: int| 0 <= j < earlier.len() && earlier[j] == x;
            assert(later[j] == x);
        }
        if x == s[i] {
            assert(later[i] == x);
        }
    }
}

/// All items of a sequence are the items before its length.
pub proof fn lemma_take_all<A>(s: Seq<A>)
    ensures
        s.take(s.len() as int) == s,
{
    assert(s.take(s.len() as int) =~= s);
}

/// What a reading of items one by one gathers: the readings in order, or the
/// fault of the first item that cannot be read.
pub open spec fn gathered<A, B>(items: Seq<A>, read: spec_fn(A) -> Result<B, Seq<char>>) -> Result<
    Seq<B>,
    Seq<char>,
>
    decreases items.len(),
{
    if items.len() == 0 {
        Ok(Seq::empty())
    } else {
        match gathered(items.drop_last(), read) {
            Ok(found) => match read(items.last()) {
                Ok(one) => Ok(found.push(one)),
                Err(fault) => Err(fault),
            },
            Err(fault) => Err(fault),
        }
    }
}

/// Where the items before place `n` hold one that cannot be read, the
/// reading of all items fails with the fault of the first such item.
pub proof fn lemma_gathered_fails<A, B>(
    items: Seq<A>,
    read: spec_fn(A) -> Result<B, Seq<char>>,
    n: int,
)
    requires
        0 <= n <= items.len(),
        gathered(items.take(n), read) is Err,
    ensures
        gathered(items, read) == gathered(items.take(n), read),
    decreases items.len() - n,
{
    if n == items.len() {
        lemma_take_all(items);
    } else {
        lemma_take_next(items, n);
        lemma_gathered_fails(items, read, n + 1);
    }
}

} // verus!
