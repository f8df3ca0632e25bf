use vstd::prelude::*;
use vstd::arithmetic::mul::*;

verus! {

/// The element count of a tensor with the given axis extents: the product of
/// all extents, 1 for the empty shape.
pub open spec fn dims_product(s: Seq<usize>) -> int
    decreases s.len(),
{
    if s.len() == 0 {
        1
    } else {
        dims_product(s.drop_last()) * (s.last() as int)
    }
}

/// Every axis extent is positive.
pub open spec fn dims_positive(s: Seq<usize>) -> bool {
    forall|i: int| 0 <= i < s.len() ==> s[i] >= 1
}

pub proof fn lemma_dims_product_pos(s: Seq<usize>)
    requires
        dims_positive(s),
    ensures
        dims_product(s) >= 1,
    decreases s.len(),
{
    if s.len() > 0 {
        assert(dims_positive(s.drop_last()));
        lemma_dims_product_pos(s.drop_last());
        lemma_mul_strictly_positive(dims_product(s.drop_last()), s.last() as int);
    }
}

/// Extending a prefix by one extent multiplies its product by that extent.
pub proof fn lemma_dims_product_take_step(s: Seq<usize>, i: int)
    requires
        0 <= i < s.len(),
    ensures
        dims_product(s.take(i + 1)) == dims_product(s.take(i)) * (s[i] as int),
{
    assert(s.take(i + 1).drop_last() =~= s.take(i));
    assert(s.take(i + 1).last() == s[i]);
}

/// The product splits multiplicatively at any cut point.
pub proof fn lemma_dims_product_split(s: Seq<usize>, i: int)
    requires
        0 <= i <= s.len(),
    ensures
        dims_product(s) == dims_product(s.take(i)) * dims_product(s.skip(i)),
    decreases s.len() - i,
{
    if i == s.len() {
        assert(s.take(i) =~= s);
        assert(s.skip(i) =~= Seq::<usize>::empty());
    } else {
        lemma_dims_product_take_step(s, i);
        lemma_dims_product_split(s, i + 1);
        assert(s.skip(i) =~= s.skip(i + 1).insert(0, s[i]));
        lemma_dims_product_insert_front(s.skip(i + 1), s[i]);
        // dims_product(s) == (P(take(i)) * s[i]) * P(skip(i + 1))
        //                 == P(take(i)) * (s[i] * P(skip(i + 1)))
        lemma_mul_is_associative(
            dims_product(s.take(i)),
            s[i] as int,
            dims_product(s.skip(i + 1)),
        );
    }
}

/// Prepending one extent multiplies the product by it.
pub proof fn lemma_dims_product_insert_front(s: Seq<usize>, v: usize)
    ensures
        dims_product(s.insert(0, v)) == (v as int) * dims_product(s),
    decreases s.len(),
{
    let t = s.insert(0, v);
    if s.len() == 0 {
        assert(t.drop_last() =~= Seq::<usize>::empty());
        assert(t.last() == v);
        assert(dims_product(t) == dims_product(t.drop_last()) * (t.last() as int));
        assert(dims_product(Seq::<usize>::empty()) == 1);
    } else {
        assert(t.drop_last() =~= s.drop_last().insert(0, v));
        assert(t.last() == s.last());
        lemma_dims_product_insert_front(s.drop_last(), v);
        assert(dims_product(t) == dims_product(t.drop_last()) * (t.last() as int));
        assert(dims_product(s) == dims_product(s.drop_last()) * (s.last() as int));
        lemma_mul_is_associative(v as int, dims_product(s.drop_last()), s.last() as int);
    }
}

/// With positive extents, the product of a prefix never exceeds the whole
/// product.
pub proof fn lemma_dims_product_prefix_bound(s: Seq<usize>, i: int)
    requires
        dims_positive(s),
        0 <= i <= s.len(),
    ensures
        1 <= dims_product(s.take(i)),
        dims_product(s.take(i)) <= dims_product(s),
{
    lemma_dims_product_split(s, i);
    assert(dims_positive(s.take(i)));
    assert(dims_positive(s.skip(i)));
    lemma_dims_product_pos(s.take(i));
    lemma_dims_product_pos(s.skip(i));
    lemma_mul_inequality(1, dims_product(s.skip(i)), dims_product(s.take(i)));
    lemma_mul_is_commutative(dims_product(s.skip(i)), dims_product(s.take(i)));
}

/// The product factors as the collapsed batch size times the last two
/// extents.
pub proof fn lemma_dims_product_last_two(s: Seq<usize>)
    requires
        s.len() >= 2,
    ensures
        dims_product(s) == dims_product(s.take(s.len() - 2)) * (s[s.len() - 2] as int) * (
        s[s.len() - 1] as int),
{
    assert(s.drop_last().drop_last() =~= s.take(s.len() - 2));
    assert(s.drop_last().last() == s[s.len() - 2]);
    assert(dims_product(s) == dims_product(s.drop_last()) * (s.last() as int));
    assert(dims_product(s.drop_last()) == dims_product(s.take(s.len() - 2)) * (s[s.len() - 2]
        as int));
}

} // verus!
