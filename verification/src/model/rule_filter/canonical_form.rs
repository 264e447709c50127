//! Facts about the canonical form of gating conditions: flattening nested
//! groups twice changes nothing more, the order in which the members of a
//! group are written does not reach the canonical text, and a condition in
//! canonical form stays as it is.
use crate::model::rule_filter::filter::{
    condition_views, lemma_tree_children, ConditionTree, FilterCondition,
};
use crate::text::{
    lemma_lex_le_total, lemma_lex_le_transitive, lemma_lex_order_total, lex_le, lex_order,
};
use vstd::prelude::*;
use vstd::relations::sorted_by;
use vstd::std_specs::cmp::PartialEqSpec;
use vstd::seq_lib::{lemma_sorted_unique, to_multiset_build, to_multiset_insert, to_multiset_remove};

verus! {

impl ConditionTree {
    /// Whether the condition may stand directly in an `And` (where
    /// `and_parent` holds) or an `Or` of a flat condition.
    pub open spec fn fits_under(self, and_parent: bool) -> bool {
        if and_parent {
            !(self is And)
        } else {
            !(self is Or)
        }
    }

    /// Whether no group of the condition holds a group of its own kind
    /// directly.
    pub open spec fn is_flat(self) -> bool
        decreases self,
    {
        match self {
            ConditionTree::And(cs) => forall|i: int|
                0 <= i < cs.len() ==> (#[trigger] cs[i]).is_flat() && cs[i].fits_under(true),
            ConditionTree::Or(cs) => forall|i: int|
                0 <= i < cs.len() ==> (#[trigger] cs[i]).is_flat() && cs[i].fits_under(false),
            ConditionTree::Not(c) => c.is_flat(),
            _ => true,
        }
    }

    /// Whether every member of `cs` is flat and may stand under the parent.
    pub open spec fn all_flat_under(cs: Seq<ConditionTree>, and_parent: bool) -> bool {
        forall|i: int|
            0 <= i < cs.len() ==> (#[trigger] cs[i]).is_flat() && cs[i].fits_under(and_parent)
    }

    /// The canonical texts of the members of `cs`.
    pub open spec fn canonical_texts(cs: Seq<ConditionTree>) -> Seq<Seq<char>> {
        cs.map_values(|c: ConditionTree| c.canonical_text())
    }

    /// The canonical form: flattened, then sorted.
    pub open spec fn canonical(self) -> ConditionTree {
        self.reduced().sorted()
    }
}

/// A flattened condition is flat.
pub proof fn lemma_reduced_is_flat(t: ConditionTree)
    ensures
        t.reduced().is_flat(),
    decreases t,
{
    match t {
        ConditionTree::And(cs) => {
            lemma_spliced_is_flat(cs, true);
        },
        ConditionTree::Or(cs) => {
            lemma_spliced_is_flat(cs, false);
        },
        ConditionTree::Not(c) => {
            lemma_reduced_is_flat(*c);
        },
        _ => {},
    }
}

/// The pieces of flattened members are flat and fit under the parent.
pub proof fn lemma_spliced_is_flat(cs: Seq<ConditionTree>, and_parent: bool)
    ensures
        ConditionTree::all_flat_under(ConditionTree::spliced(cs, and_parent), and_parent),
    decreases cs,
{
    if cs.len() > 0 {
        lemma_spliced_is_flat(cs.drop_last(), and_parent);
        lemma_reduced_is_flat(cs.last());
        let head = ConditionTree::spliced(cs.drop_last(), and_parent);
        let r = cs.last().reduced();
        let tail = r.pieces(and_parent);
        let whole = ConditionTree::spliced(cs, and_parent);
        assert(whole == head + tail);
        assert forall|i: int| 0 <= i < whole.len() implies (#[trigger] whole[i]).is_flat()
            && whole[i].fits_under(and_parent) by {
            if i < head.len() {
                assert(whole[i] == head[i]);
            } else {
                assert(whole[i] == tail[i - head.len()]);
            }
        }
    }
}

/// Flattening leaves a flat condition as it is.
pub proof fn lemma_flat_is_fixed(t: ConditionTree)
    requires
        t.is_flat(),
    ensures
        t.reduced() == t,
    decreases t,
{
    match t {
        ConditionTree::And(cs) => {
            lemma_flat_members_are_fixed(cs, true);
        },
        ConditionTree::Or(cs) => {
            lemma_flat_members_are_fixed(cs, false);
        },
        ConditionTree::Not(c) => {
            lemma_flat_is_fixed(*c);
        },
        _ => {},
    }
}

/// Flat members that fit under the parent are their own pieces.
pub proof fn lemma_flat_members_are_fixed(cs: Seq<ConditionTree>, and_parent: bool)
    requires
        ConditionTree::all_flat_under(cs, and_parent),
    ensures
        ConditionTree::spliced(cs, and_parent) == cs,
    decreases cs,
{
    if cs.len() > 0 {
        let front = cs.drop_last();
        assert forall|i: int| 0 <= i < front.len() implies (#[trigger] front[i]).is_flat()
            && front[i].fits_under(and_parent) by {
            assert(front[i] == cs[i]);
        }
        lemma_flat_members_are_fixed(front, and_parent);
        lemma_flat_is_fixed(cs.last());
        assert(cs.last().pieces(and_parent) == seq![cs.last()]);
        assert(front + seq![cs.last()] =~= cs);
    } else {
        assert(ConditionTree::spliced(cs, and_parent) =~= cs);
    }
}

/// Flattening is idempotent: flattening a flattened condition gives the
/// same condition.
pub proof fn lemma_reduce_idempotent(t: ConditionTree)
    ensures
        t.reduced().reduced() == t.reduced(),
{
    lemma_reduced_is_flat(t);
    lemma_flat_is_fixed(t.reduced());
}

/// Whether the texts of the members of `list` stand in order.
pub open spec fn in_order(list: Seq<ConditionTree>) -> bool {
    sorted_by(ConditionTree::rendered_all(list), lex_order())
}

/// The place of `x` in `list` lies within the list, behind a member whose
/// text does not come after that of `x`, and before members whose texts all
/// come after it.
pub proof fn lemma_place_index(list: Seq<ConditionTree>, x: ConditionTree)
    ensures
        0 <= ConditionTree::place_index(list, x) <= list.len(),
        ConditionTree::place_index(list, x) > 0 ==> lex_le(
            list[ConditionTree::place_index(list, x) - 1].rendered(),
            x.rendered(),
        ),
        forall|m: int|
            ConditionTree::place_index(list, x) <= m < list.len() ==> !lex_le(
                (#[trigger] list[m]).rendered(),
                x.rendered(),
            ),
    decreases list.len(),
{
    if list.len() > 0 && !lex_le(list.last().rendered(), x.rendered()) {
        let front = list.drop_last();
        lemma_place_index(front, x);
        let j = ConditionTree::place_index(front, x);
        assert forall|m: int| j <= m < list.len() implies !lex_le(
            (#[trigger] list[m]).rendered(),
            x.rendered(),
        ) by {
            if m < list.len() - 1 {
                assert(front[m] == list[m]);
            }
        }
        if j > 0 {
            assert(front[j - 1] == list[j - 1]);
        }
    }
}

/// The texts of a list with a member put in are the texts of the list with
/// the member's text put in at the same place.
pub proof fn lemma_rendered_insert(list: Seq<ConditionTree>, j: int, x: ConditionTree)
    requires
        0 <= j <= list.len(),
    ensures
        ConditionTree::rendered_all(list.insert(j, x)) == ConditionTree::rendered_all(list).insert(
            j,
            x.rendered(),
        ),
{
    let a = ConditionTree::rendered_all(list.insert(j, x));
    let b = ConditionTree::rendered_all(list).insert(j, x.rendered());
    assert(a.len() == b.len());
    assert forall|i: int| 0 <= i < a.len() implies a[i] == b[i] by {
        if i < j {
            assert(list.insert(j, x)[i] == list[i]);
        } else if i == j {
            assert(list.insert(j, x)[i] == x);
        } else {
            assert(list.insert(j, x)[i] == list[i - 1]);
        }
    }
    assert(a =~= b);
}

/// Putting a member in at its place keeps the texts in order.
pub proof fn lemma_placed_in_order(list: Seq<ConditionTree>, x: ConditionTree)
    requires
        in_order(list),
    ensures
        in_order(ConditionTree::placed(list, x)),
{
    let j = ConditionTree::place_index(list, x);
    lemma_place_index(list, x);
    lemma_rendered_insert(list, j, x);
    let old_texts = ConditionTree::rendered_all(list);
    let texts = old_texts.insert(j, x.rendered());
    let r = lex_order();
    assert forall|p: int, q: int| 0 <= p < q < texts.len() implies #[trigger] r(
        texts[p],
        texts[q],
    ) by {
        if q < j {
            assert(texts[p] == old_texts[p] && texts[q] == old_texts[q]);
            assert(r(old_texts[p], old_texts[q]));
        } else if q == j {
            assert(texts[p] == old_texts[p]);
            assert(texts[q] == x.rendered());
            assert(old_texts[j - 1] == list[j - 1].rendered());
            if p < j - 1 {
                assert(r(old_texts[p], old_texts[j - 1]));
                lemma_lex_le_transitive(old_texts[p], old_texts[j - 1], x.rendered());
            }
        } else if p < j {
            assert(texts[p] == old_texts[p] && texts[q] == old_texts[q - 1]);
            assert(r(old_texts[p], old_texts[q - 1]));
        } else if p == j {
            assert(texts[p] == x.rendered());
            assert(texts[q] == old_texts[q - 1]);
            assert(old_texts[q - 1] == list[q - 1].rendered());
            lemma_lex_le_total(x.rendered(), list[q - 1].rendered());
        } else {
            assert(texts[p] == old_texts[p - 1] && texts[q] == old_texts[q - 1]);
            assert(r(old_texts[p - 1], old_texts[q - 1]));
        }
    }
}

/// The ordered members stand in the order of their texts, are as many as
/// the members were, and their texts are, counted with repetitions, the
/// canonical texts of the members.
pub proof fn lemma_ordered(cs: Seq<ConditionTree>)
    ensures
        in_order(ConditionTree::ordered(cs)),
        ConditionTree::ordered(cs).len() == cs.len(),
        ConditionTree::rendered_all(ConditionTree::ordered(cs)).to_multiset()
            == ConditionTree::canonical_texts(cs).to_multiset(),
    decreases cs.len(),
{
    if cs.len() == 0 {
        assert(ConditionTree::rendered_all(ConditionTree::ordered(cs)) =~= Seq::empty());
        assert(ConditionTree::canonical_texts(cs) =~= Seq::empty());
    } else {
        let front = cs.drop_last();
        lemma_ordered(front);
        let list = ConditionTree::ordered(front);
        let x = cs.last().sorted();
        let j = ConditionTree::place_index(list, x);
        lemma_place_index(list, x);
        lemma_placed_in_order(list, x);
        lemma_rendered_insert(list, j, x);
        to_multiset_insert(ConditionTree::rendered_all(list), j, x.rendered());
        to_multiset_build(ConditionTree::canonical_texts(front), x.rendered());
        assert(ConditionTree::canonical_texts(cs) =~= ConditionTree::canonical_texts(front).push(
            x.rendered(),
        ));
    }
}

/// Two lists with the same members, counted with repetitions, have the
/// same canonical texts, counted with repetitions.
pub proof fn lemma_canonical_texts_of_rearranged(x: Seq<ConditionTree>, y: Seq<ConditionTree>)
    requires
        x.to_multiset() == y.to_multiset(),
    ensures
        ConditionTree::canonical_texts(x).to_multiset() == ConditionTree::canonical_texts(
            y,
        ).to_multiset(),
    decreases x.len(),
{
    broadcast use vstd::seq_lib::group_to_multiset_ensures;

    x.to_multiset_ensures();
    y.to_multiset_ensures();
    if x.len() == 0 {
        assert(y.len() == 0);
        assert(ConditionTree::canonical_texts(x) =~= ConditionTree::canonical_texts(y));
    } else {
        let a = x.last();
        assert(x.to_multiset().contains(a));
        assert(y.to_multiset().contains(a));
        let j = choose|j: int| 0 <= j < y.len() && y[j] == a;
        let front = x.drop_last();
        let rest = y.remove(j);
        to_multiset_remove(x, x.len() - 1);
        to_multiset_remove(y, j);
        assert(x.remove(x.len() - 1) =~= front);
        lemma_canonical_texts_of_rearranged(front, rest);
        to_multiset_build(ConditionTree::canonical_texts(front), a.canonical_text());
        to_multiset_insert(ConditionTree::canonical_texts(rest), j, a.canonical_text());
        assert(ConditionTree::canonical_texts(x) =~= ConditionTree::canonical_texts(front).push(
            a.canonical_text(),
        ));
        assert(ConditionTree::canonical_texts(y) =~= ConditionTree::canonical_texts(rest).insert(
            j,
            a.canonical_text(),
        ));
    }
}

/// Two lists whose members have the same canonical texts, counted with
/// repetitions, have the same texts once they are ordered.
pub proof fn lemma_same_texts_same_order(cs: Seq<ConditionTree>, ds: Seq<ConditionTree>)
    requires
        ConditionTree::canonical_texts(cs).to_multiset() == ConditionTree::canonical_texts(
            ds,
        ).to_multiset(),
    ensures
        ConditionTree::rendered_all(ConditionTree::ordered(cs)) == ConditionTree::rendered_all(
            ConditionTree::ordered(ds),
        ),
        ConditionTree::Or(cs).canonical_text() == ConditionTree::Or(ds).canonical_text(),
        ConditionTree::And(cs).canonical_text() == ConditionTree::And(ds).canonical_text(),
{
    lemma_ordered(cs);
    lemma_ordered(ds);
    lemma_lex_order_total();
    lemma_sorted_unique(
        ConditionTree::rendered_all(ConditionTree::ordered(cs)),
        ConditionTree::rendered_all(ConditionTree::ordered(ds)),
        lex_order(),
    );
}

/// The order in which the members of a group are written does not reach
/// its canonical text: two groups of one kind with the same members,
/// counted with repetitions, have the same canonical text.
pub proof fn lemma_member_order_is_immaterial(cs: Seq<ConditionTree>, ds: Seq<ConditionTree>)
    requires
        cs.to_multiset() == ds.to_multiset(),
    ensures
        ConditionTree::Or(cs).canonical_text() == ConditionTree::Or(ds).canonical_text(),
        ConditionTree::And(cs).canonical_text() == ConditionTree::And(ds).canonical_text(),
{
    lemma_canonical_texts_of_rearranged(cs, ds);
    lemma_same_texts_same_order(cs, ds);
}

/// Two groups of one kind whose members are the same, counted with
/// repetitions, compare as equal.
pub proof fn lemma_rearranged_groups_are_equal(a: FilterCondition, b: FilterCondition)
    requires
        (a is Or && b is Or && condition_views(a->Or_0@).to_multiset() == condition_views(
            b->Or_0@,
        ).to_multiset()) || (a is And && b is And && condition_views(a->And_0@).to_multiset()
            == condition_views(b->And_0@).to_multiset()),
    ensures
        a.eq_spec(&b),
{
    lemma_tree_children(a);
    lemma_tree_children(b);
    if a is Or {
        lemma_member_order_is_immaterial(condition_views(a->Or_0@), condition_views(b->Or_0@));
    } else {
        lemma_member_order_is_immaterial(condition_views(a->And_0@), condition_views(b->And_0@));
    }
}

/// Whether `m` is one of the members of `cs`, sorted.
pub open spec fn is_sorted_member(cs: Seq<ConditionTree>, m: ConditionTree) -> bool {
    exists|j: int| 0 <= j < cs.len() && m == (#[trigger] cs[j]).sorted()
}

/// Every ordered member is one of the members, sorted.
pub proof fn lemma_ordered_members(cs: Seq<ConditionTree>)
    ensures
        forall|i: int|
            0 <= i < ConditionTree::ordered(cs).len() ==> is_sorted_member(
                cs,
                #[trigger] ConditionTree::ordered(cs)[i],
            ),
    decreases cs.len(),
{
    if cs.len() > 0 {
        let front = cs.drop_last();
        lemma_ordered_members(front);
        let list = ConditionTree::ordered(front);
        let x = cs.last().sorted();
        let j = ConditionTree::place_index(list, x);
        lemma_place_index(list, x);
        let whole = ConditionTree::ordered(cs);
        assert(whole == list.insert(j, x));
        assert forall|i: int| 0 <= i < whole.len() implies is_sorted_member(
            cs,
            #[trigger] whole[i],
        ) by {
            if i == j {
                assert(whole[i] == cs[cs.len() - 1].sorted());
            } else {
                let k = if i < j {
                    i
                } else {
                    i - 1
                };
                assert(whole[i] == list[k]);
                assert(is_sorted_member(front, list[k]));
                let w = choose|w: int| 0 <= w < front.len() && list[k] == (#[trigger] front[w]).sorted();
                assert(front[w] == cs[w]);
            }
        }
    }
}

/// Sorting keeps a flat condition flat.
pub proof fn lemma_sorted_keeps_flat(t: ConditionTree)
    requires
        t.is_flat(),
    ensures
        t.sorted().is_flat(),
    decreases t,
{
    match t {
        ConditionTree::And(cs) => {
            lemma_ordered_members(cs);
            let list = ConditionTree::ordered(cs);
            assert forall|i: int| 0 <= i < list.len() implies (#[trigger] list[i]).is_flat()
                && list[i].fits_under(true) by {
                assert(is_sorted_member(cs, list[i]));
                let w = choose|w: int| 0 <= w < cs.len() && list[i] == (#[trigger] cs[w]).sorted();
                lemma_sorted_keeps_flat(cs[w]);
            }
        },
        ConditionTree::Or(cs) => {
            lemma_ordered_members(cs);
            let list = ConditionTree::ordered(cs);
            assert forall|i: int| 0 <= i < list.len() implies (#[trigger] list[i]).is_flat()
                && list[i].fits_under(false) by {
                assert(is_sorted_member(cs, list[i]));
                let w = choose|w: int| 0 <= w < cs.len() && list[i] == (#[trigger] cs[w]).sorted();
                lemma_sorted_keeps_flat(cs[w]);
            }
        },
        ConditionTree::Not(c) => {
            lemma_sorted_keeps_flat(*c);
        },
        _ => {},
    }
}

/// A list whose members are sorted and stand in the order of their texts
/// is left as it is.
pub proof fn lemma_ordered_is_fixed(list: Seq<ConditionTree>)
    requires
        in_order(list),
        forall|i: int| 0 <= i < list.len() ==> (#[trigger] list[i]).sorted() == list[i],
    ensures
        ConditionTree::ordered(list) == list,
    decreases list.len(),
{
    if list.len() == 0 {
        assert(ConditionTree::ordered(list) =~= list);
    } else {
        let front = list.drop_last();
        let texts = ConditionTree::rendered_all(list);
        let front_texts = ConditionTree::rendered_all(front);
        let r = lex_order();
        assert forall|p: int, q: int| 0 <= p < q < front_texts.len() implies #[trigger] r(
            front_texts[p],
            front_texts[q],
        ) by {
            assert(front[p] == list[p] && front[q] == list[q]);
            assert(r(texts[p], texts[q]));
        }
        assert forall|i: int| 0 <= i < front.len() implies (#[trigger] front[i]).sorted()
            == front[i] by {
            assert(front[i] == list[i]);
        }
        lemma_ordered_is_fixed(front);
        let x = list.last();
        assert(x.sorted() == x);
        if front.len() > 0 {
            assert(front.last() == list[list.len() - 2]);
            assert(r(texts[list.len() - 2], texts[list.len() - 1]));
        }
        assert(ConditionTree::place_index(front, x) == front.len());
        assert(front.insert(front.len() as int, x) =~= list);
    }
}

/// Sorting is idempotent: sorting a sorted condition gives the same
/// condition.
pub proof fn lemma_sort_idempotent(t: ConditionTree)
    ensures
        t.sorted().sorted() == t.sorted(),
    decreases t,
{
    match t {
        ConditionTree::And(cs) => {
            lemma_sorted_members_are_fixed(cs);
        },
        ConditionTree::Or(cs) => {
            lemma_sorted_members_are_fixed(cs);
        },
        ConditionTree::Not(c) => {
            lemma_sort_idempotent(*c);
        },
        _ => {},
    }
}

/// Ordering the ordered members of a group again changes nothing.
pub proof fn lemma_sorted_members_are_fixed(cs: Seq<ConditionTree>)
    ensures
        ConditionTree::ordered(ConditionTree::ordered(cs)) == ConditionTree::ordered(cs),
    decreases cs,
{
    let list = ConditionTree::ordered(cs);
    lemma_ordered(cs);
    lemma_ordered_members(cs);
    assert forall|i: int| 0 <= i < list.len() implies (#[trigger] list[i]).sorted() == list[i] by {
        assert(is_sorted_member(cs, list[i]));
        let w = choose|w: int| 0 <= w < cs.len() && list[i] == (#[trigger] cs[w]).sorted();
        lemma_sort_idempotent(cs[w]);
    }
    lemma_ordered_is_fixed(list);
}

/// The canonical form is stable: a condition in canonical form is flat, and
/// flattening it, sorting it, or bringing it into canonical form again
/// gives the same condition, hence the same text.
pub proof fn lemma_canonical_is_fixed(t: ConditionTree)
    ensures
        t.canonical().is_flat(),
        t.canonical().reduced() == t.canonical(),
        t.canonical().sorted() == t.canonical(),
        t.canonical().canonical() == t.canonical(),
        t.canonical().canonical().rendered() == t.canonical().rendered(),
{
    lemma_reduced_is_flat(t);
    lemma_sorted_keeps_flat(t.reduced());
    lemma_flat_is_fixed(t.canonical());
    lemma_sort_idempotent(t.reduced());
}

impl ConditionTree {
    /// Whether `other` is this condition with the members of its groups
    /// written in another order, at any depth.
    pub open spec fn reordered(self, other: ConditionTree) -> bool
        decreases self,
    {
        match self {
            ConditionTree::And(cs) => other is And && Self::members_reordered(cs, other->And_0),
            ConditionTree::Or(cs) => other is Or && Self::members_reordered(cs, other->Or_0),
            ConditionTree::Not(c) => other is Not && c.reordered(*other->Not_0),
            _ => self == other,
        }
    }

    /// Whether the members of `ds` are those of `cs` in another order, each
    /// possibly reordered in itself: both are empty, or the last member of
    /// `cs` has a partner in `ds`, and the others are the members of `ds`
    /// without that partner.
    pub open spec fn members_reordered(cs: Seq<ConditionTree>, ds: Seq<ConditionTree>) -> bool
        decreases cs,
    {
        if cs.len() == 0 {
            ds.len() == 0
        } else {
            exists|k: int|
                0 <= k < ds.len() && cs.last().reordered(#[trigger] ds[k])
                    && Self::members_reordered(cs.drop_last(), ds.remove(k))
        }
    }
}

/// A condition and a reordering of it have the same canonical text.
pub proof fn lemma_reordered_same_text(a: ConditionTree, b: ConditionTree)
    requires
        a.reordered(b),
    ensures
        a.canonical_text() == b.canonical_text(),
    decreases a,
{
    match a {
        ConditionTree::And(cs) => {
            lemma_reordered_members_same_texts(cs, b->And_0);
            lemma_same_texts_same_order(cs, b->And_0);
        },
        ConditionTree::Or(cs) => {
            lemma_reordered_members_same_texts(cs, b->Or_0);
            lemma_same_texts_same_order(cs, b->Or_0);
        },
        ConditionTree::Not(c) => {
            lemma_reordered_same_text(*c, *b->Not_0);
        },
        _ => {},
    }
}

/// The members of a list and of a reordering of it have the same canonical
/// texts, counted with repetitions.
pub proof fn lemma_reordered_members_same_texts(cs: Seq<ConditionTree>, ds: Seq<ConditionTree>)
    requires
        ConditionTree::members_reordered(cs, ds),
    ensures
        ConditionTree::canonical_texts(cs).to_multiset() == ConditionTree::canonical_texts(
            ds,
        ).to_multiset(),
        cs.len() == ds.len(),
    decreases cs,
{
    if cs.len() == 0 {
        assert(ConditionTree::canonical_texts(cs) =~= ConditionTree::canonical_texts(ds));
    } else {
        let k = choose|k: int|
            0 <= k < ds.len() && cs.last().reordered(#[trigger] ds[k])
                && ConditionTree::members_reordered(cs.drop_last(), ds.remove(k));
        let front = cs.drop_last();
        let rest = ds.remove(k);
        lemma_reordered_same_text(cs.last(), ds[k]);
        lemma_reordered_members_same_texts(front, rest);
        let text = cs.last().canonical_text();
        to_multiset_build(ConditionTree::canonical_texts(front), text);
        to_multiset_insert(ConditionTree::canonical_texts(rest), k, text);
        assert(ConditionTree::canonical_texts(cs) =~= ConditionTree::canonical_texts(front).push(
            text,
        ));
        assert(ConditionTree::canonical_texts(ds) =~= ConditionTree::canonical_texts(rest).insert(
            k,
            text,
        ));
    }
}

/// Every condition is a reordering of itself.
pub proof fn lemma_reordered_reflexive(a: ConditionTree)
    ensures
        a.reordered(a),
    decreases a,
{
    match a {
        ConditionTree::And(cs) => {
            lemma_members_reordered_reflexive(cs);
        },
        ConditionTree::Or(cs) => {
            lemma_members_reordered_reflexive(cs);
        },
        ConditionTree::Not(c) => {
            lemma_reordered_reflexive(*c);
        },
        _ => {},
    }
}

/// Every list of members is a reordering of itself.
pub proof fn lemma_members_reordered_reflexive(cs: Seq<ConditionTree>)
    ensures
        ConditionTree::members_reordered(cs, cs),
    decreases cs,
{
    if cs.len() > 0 {
        let k = cs.len() - 1;
        lemma_reordered_reflexive(cs.last());
        lemma_members_reordered_reflexive(cs.drop_last());
        assert(cs.remove(k) =~= cs.drop_last());
        assert(cs[k] == cs.last());
    }
}

/// The pieces of the members of two lists, one behind the other.
pub proof fn lemma_spliced_concat(a: Seq<ConditionTree>, b: Seq<ConditionTree>, and_parent: bool)
    ensures
        ConditionTree::spliced(a + b, and_parent) == ConditionTree::spliced(a, and_parent)
            + ConditionTree::spliced(b, and_parent),
    decreases b.len(),
{
    if b.len() == 0 {
        assert(a + b =~= a);
        assert(ConditionTree::spliced(a, and_parent) + ConditionTree::spliced(b, and_parent)
            =~= ConditionTree::spliced(a, and_parent));
    } else {
        assert((a + b).drop_last() =~= a + b.drop_last());
        assert((a + b).last() == b.last());
        lemma_spliced_concat(a, b.drop_last(), and_parent);
        let tail = b.last().reduced().pieces(and_parent);
        assert(ConditionTree::spliced(a, and_parent) + (ConditionTree::spliced(
            b.drop_last(),
            and_parent,
        ) + tail) =~= (ConditionTree::spliced(a, and_parent) + ConditionTree::spliced(
            b.drop_last(),
            and_parent,
        )) + tail);
    }
}

/// A reordering stays one when reordered members are put in: behind the
/// members on the one side, anywhere among the members on the other.
pub proof fn lemma_reordered_insert(
    a: Seq<ConditionTree>,
    b1: Seq<ConditionTree>,
    b2: Seq<ConditionTree>,
    p: Seq<ConditionTree>,
    q: Seq<ConditionTree>,
)
    requires
        ConditionTree::members_reordered(a, b1 + b2),
        ConditionTree::members_reordered(p, q),
    ensures
        ConditionTree::members_reordered(a + p, b1 + q + b2),
    decreases p.len(),
{
    if p.len() == 0 {
        assert(a + p =~= a);
        assert(b1 + q + b2 =~= b1 + b2);
    } else {
        let k = choose|k: int|
            0 <= k < q.len() && p.last().reordered(#[trigger] q[k])
                && ConditionTree::members_reordered(p.drop_last(), q.remove(k));
        lemma_reordered_insert(a, b1, b2, p.drop_last(), q.remove(k));
        let whole = b1 + q + b2;
        let at = b1.len() + k;
        assert((a + p).last() == p.last());
        assert((a + p).drop_last() =~= a + p.drop_last());
        assert(whole[at] == q[k]);
        assert(whole.remove(at) =~= b1 + q.remove(k) + b2);
        assert(0 <= at < whole.len() && (a + p).last().reordered(whole[at])
            && ConditionTree::members_reordered((a + p).drop_last(), whole.remove(at)));
    }
}

/// The pieces that two conditions bring into a parent are reorderings of
/// each other where the conditions are.
pub proof fn lemma_pieces_reordered(r: ConditionTree, t: ConditionTree, and_parent: bool)
    requires
        r.reordered(t),
    ensures
        ConditionTree::members_reordered(r.pieces(and_parent), t.pieces(and_parent)),
{
    let single = (r is And && !and_parent) || (r is Or && and_parent) || !(r is And || r is Or);
    if single {
        let one = seq![r];
        let other = seq![t];
        assert(r.pieces(and_parent) == one);
        assert(t.pieces(and_parent) == other);
        assert(one.last() == r);
        assert(other[0] == t);
        assert(one.drop_last() =~= Seq::<ConditionTree>::empty());
        assert(other.remove(0) =~= Seq::<ConditionTree>::empty());
        assert(ConditionTree::members_reordered(one.drop_last(), other.remove(0)));
        assert(0 <= 0 < other.len() && one.last().reordered(other[0])
            && ConditionTree::members_reordered(one.drop_last(), other.remove(0)));
    }
}

/// Flattening a condition and a reordering of it gives a condition and a
/// reordering of it.
pub proof fn lemma_reduced_reordered(a: ConditionTree, b: ConditionTree)
    requires
        a.reordered(b),
    ensures
        a.reduced().reordered(b.reduced()),
    decreases a,
{
    match a {
        ConditionTree::And(cs) => {
            lemma_spliced_reordered(cs, b->And_0, true);
        },
        ConditionTree::Or(cs) => {
            lemma_spliced_reordered(cs, b->Or_0, false);
        },
        ConditionTree::Not(c) => {
            lemma_reduced_reordered(*c, *b->Not_0);
        },
        _ => {},
    }
}

/// The pieces of the flattened members of a list and of a reordering of it
/// are reorderings of each other.
pub proof fn lemma_spliced_reordered(
    cs: Seq<ConditionTree>,
    ds: Seq<ConditionTree>,
    and_parent: bool,
)
    requires
        ConditionTree::members_reordered(cs, ds),
    ensures
        ConditionTree::members_reordered(
            ConditionTree::spliced(cs, and_parent),
            ConditionTree::spliced(ds, and_parent),
        ),
    decreases cs,
{
    if cs.len() > 0 {
        let k = choose|k: int|
            0 <= k < ds.len() && cs.last().reordered(#[trigger] ds[k])
                && ConditionTree::members_reordered(cs.drop_last(), ds.remove(k));
        let front = cs.drop_last();
        let rest = ds.remove(k);
        let left = ds.take(k);
        let right = ds.skip(k + 1);
        lemma_spliced_reordered(front, rest, and_parent);
        lemma_reduced_reordered(cs.last(), ds[k]);
        lemma_pieces_reordered(cs.last().reduced(), ds[k].reduced(), and_parent);
        assert(rest =~= left + right);
        assert(ds =~= (left + seq![ds[k]]) + right);
        lemma_spliced_concat(left, right, and_parent);
        lemma_spliced_concat(left + seq![ds[k]], right, and_parent);
        lemma_spliced_concat(left, seq![ds[k]], and_parent);
        let one = seq![ds[k]];
        assert(one.last() == ds[k]);
        assert(one.drop_last() =~= Seq::<ConditionTree>::empty());
        assert(ConditionTree::spliced(one.drop_last(), and_parent) =~= Seq::<
            ConditionTree,
        >::empty());
        assert(ConditionTree::spliced(one, and_parent) =~= ds[k].reduced().pieces(and_parent));
        lemma_reordered_insert(
            ConditionTree::spliced(front, and_parent),
            ConditionTree::spliced(left, and_parent),
            ConditionTree::spliced(right, and_parent),
            cs.last().reduced().pieces(and_parent),
            ds[k].reduced().pieces(and_parent),
        );
    } else {
        assert(ds.len() == 0);
    }
}

/// The canonical text does not depend on the order in which the members of
/// groups are written, at any depth, before or after flattening: a
/// condition and a reordering of it have the same canonical text, and
/// their canonical forms have the same text.
pub proof fn lemma_reordering_is_immaterial(a: ConditionTree, b: ConditionTree)
    requires
        a.reordered(b),
    ensures
        a.canonical_text() == b.canonical_text(),
        a.canonical().rendered() == b.canonical().rendered(),
{
    lemma_reordered_same_text(a, b);
    lemma_reduced_reordered(a, b);
    lemma_reordered_same_text(a.reduced(), b.reduced());
}

} // verus!
