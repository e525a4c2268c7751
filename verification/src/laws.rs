//! What holds of widths however a record is declared.

use crate::composer::{all_sized, record_width, width_in};
use crate::width::SizedData;
use vstd::prelude::*;

verus! {

/// The width of two field lists written one after the other is the sum of
/// their widths.
pub proof fn lemma_width_of_concat(
    table: Map<Seq<char>, nat>,
    front: Seq<Seq<char>>,
    back: Seq<Seq<char>>,
)
    ensures
        record_width(table, front + back) == record_width(table, front) + record_width(
            table,
            back,
        ),
    decreases back.len(),
{
    if back.len() == 0 {
        assert(front + back =~= front);
    } else {
        assert((front + back).drop_last() =~= front + back.drop_last());
        lemma_width_of_concat(table, front, back.drop_last());
    }
}

/// A record of one field is as wide as that field's type.
pub proof fn lemma_width_of_one(table: Map<Seq<char>, nat>, ty: Seq<char>)
    ensures
        record_width(table, seq![ty]) == width_in(table, ty),
{
    assert(seq![ty].drop_last() =~= Seq::<Seq<char>>::empty());
    assert(record_width(table, Seq::<Seq<char>>::empty()) == 0);
}

/// Declaring one more field, at any position, makes the record wider by
/// exactly the width of that field's type.
pub proof fn lemma_field_added(
    table: Map<Seq<char>, nat>,
    types: Seq<Seq<char>>,
    i: int,
    ty: Seq<char>,
)
    requires
        0 <= i <= types.len(),
    ensures
        record_width(table, types.insert(i, ty)) == record_width(table, types) + width_in(
            table,
            ty,
        ),
{
    let front = types.take(i);
    let back = types.skip(i);
    assert(types =~= front + back);
    assert(types.insert(i, ty) =~= (front + seq![ty]) + back);
    lemma_width_of_concat(table, front, back);
    lemma_width_of_concat(table, front + seq![ty], back);
    lemma_width_of_concat(table, front, seq![ty]);
    lemma_width_of_one(table, ty);
}

/// Dropping a declared field makes the record narrower by exactly the width
/// of that field's type.
pub proof fn lemma_field_removed(table: Map<Seq<char>, nat>, types: Seq<Seq<char>>, i: int)
    requires
        0 <= i < types.len(),
    ensures
        record_width(table, types.remove(i)) == record_width(table, types) - width_in(
            table,
            types[i],
        ),
{
    assert(types.remove(i).insert(i, types[i]) =~= types);
    lemma_field_added(table, types.remove(i), i, types[i]);
}

/// Two records that declare the same fields, in whatever order, have the
/// same width.
pub proof fn lemma_order_independent(
    table: Map<Seq<char>, nat>,
    one: Seq<Seq<char>>,
    other: Seq<Seq<char>>,
)
    requires
        one.to_multiset() == other.to_multiset(),
    ensures
        record_width(table, one) == record_width(table, other),
    decreases one.len(),
{
    one.to_multiset_ensures();
    other.to_multiset_ensures();
    if one.len() == 0 {
        assert(other.len() == 0);
    } else {
        let ty = one.last();
        let rest = one.drop_last();
        assert(one[one.len() - 1] == ty);
        assert(other.to_multiset().count(ty) > 0);
        let i = choose|i: int| 0 <= i < other.len() && other[i] == ty;
        assert(rest =~= one.remove(one.len() - 1));
        assert(rest.to_multiset() == other.remove(i).to_multiset());
        lemma_order_independent(table, rest, other.remove(i));
        lemma_field_removed(table, other, i);
    }
}

/// Registering more types changes nothing for a record whose field types
/// were all registered before.
pub proof fn lemma_width_is_stable(
    table: Map<Seq<char>, nat>,
    grown: Map<Seq<char>, nat>,
    types: Seq<Seq<char>>,
)
    requires
        table.submap_of(grown),
        all_sized(table, types),
    ensures
        all_sized(grown, types),
        record_width(grown, types) == record_width(table, types),
    decreases types.len(),
{
    assert forall|i: int| 0 <= i < types.len() implies grown.contains_key(
        #[trigger] types[i],
    ) by {
        assert(table.contains_key(types[i]));
    }
    if types.len() > 0 {
        let rest = types.drop_last();
        assert forall|i: int| 0 <= i < rest.len() implies table.contains_key(
            #[trigger] rest[i],
        ) by {
            assert(rest[i] == types[i]);
        }
        lemma_width_is_stable(table, grown, rest);
        assert(table.contains_key(types[types.len() - 1]));
    }
}

/// A record registered under a new name counts, as a field of another
/// record, for its own width: the outer record is as wide as its other
/// fields and the inner record together.
pub proof fn lemma_nested_record(
    table: Map<Seq<char>, nat>,
    inner: Seq<Seq<char>>,
    name: Seq<char>,
    outer: Seq<Seq<char>>,
    i: int,
)
    requires
        !table.contains_key(name),
        0 <= i <= outer.len(),
    ensures
        record_width(table.insert(name, record_width(table, inner)), outer.insert(i, name))
            == record_width(table.insert(name, record_width(table, inner)), outer) + record_width(
            table,
            inner,
        ),
{
    lemma_field_added(table.insert(name, record_width(table, inner)), outer, i, name);
}

/// A nested record is as wide as its fields written out in its place.
pub proof fn lemma_nested_record_flattens(
    table: Map<Seq<char>, nat>,
    inner: Seq<Seq<char>>,
    name: Seq<char>,
    outer: Seq<Seq<char>>,
    i: int,
)
    requires
        !table.contains_key(name),
        all_sized(table, inner),
        0 <= i <= outer.len(),
    ensures
        record_width(table.insert(name, record_width(table, inner)), outer.insert(i, name))
            == record_width(
            table.insert(name, record_width(table, inner)),
            outer.take(i) + inner + outer.skip(i),
        ),
{
    let grown = table.insert(name, record_width(table, inner));
    lemma_nested_record(table, inner, name, outer, i);
    lemma_width_is_stable(table, grown, inner);
    assert(outer =~= outer.take(i) + outer.skip(i));
    lemma_width_of_concat(grown, outer.take(i), outer.skip(i));
    lemma_width_of_concat(grown, outer.take(i), inner);
    lemma_width_of_concat(grown, outer.take(i) + inner, outer.skip(i));
}

/// A pair is as wide as its two parts together.
pub proof fn lemma_pair_width<A: SizedData, B: SizedData>()
    ensures
        <(A, B) as SizedData>::spec_size() == A::spec_size() + B::spec_size(),
{
}

/// The order of the two parts of a pair does not change its width.
pub proof fn lemma_pair_order<A: SizedData, B: SizedData>()
    ensures
        <(A, B) as SizedData>::spec_size() == <(B, A) as SizedData>::spec_size(),
{
}

/// Three parts are as wide together however they are grouped into pairs.
pub proof fn lemma_pair_grouping<A: SizedData, B: SizedData, C: SizedData>()
    ensures
        <((A, B), C) as SizedData>::spec_size() == <(A, (B, C)) as SizedData>::spec_size(),
{
}

/// A record of two fields, composed from a table that gives each field's
/// type the width the type states of itself, is as wide as the pair of the
/// two types.
pub proof fn lemma_record_matches_pair<A: SizedData, B: SizedData>(
    table: Map<Seq<char>, nat>,
    a: Seq<char>,
    b: Seq<char>,
)
    requires
        table.contains_key(a),
        table.contains_key(b),
        table[a] == A::spec_size(),
        table[b] == B::spec_size(),
    ensures
        record_width(table, seq![a, b]) == <(A, B) as SizedData>::spec_size(),
{
    assert(seq![a, b] =~= seq![a] + seq![b]);
    lemma_width_of_concat(table, seq![a], seq![b]);
    lemma_width_of_one(table, a);
    lemma_width_of_one(table, b);
}

} // verus!
