//! Facts about the merging of rule groups: the merged list holds one group
//! for each key, in the order of the keys, and the group of a key holds the
//! rules of all groups of that key, in the order in which the groups stood.
use crate::model::column_rule::ColumnRuleView;
use crate::model::rule_filter::filter::ColumnRuleFilterView;
use crate::model::rule_filter::{arranged, combined, joined, keys_of, merged};
use crate::text::{
    lemma_lex_le_antisymmetric, lemma_lex_le_total, lemma_lex_le_transitive, lex_le, place_of,
};
use vstd::prelude::*;

verus! {

/// The rules of the groups of `groups` that have the key `key`, in the
/// order of the groups.
pub open spec fn rules_under(groups: Seq<ColumnRuleFilterView>, key: Seq<char>) -> Seq<
    ColumnRuleView,
>
    decreases groups.len(),
{
    if groups.len() == 0 {
        Seq::empty()
    } else if groups.last().key() == key {
        rules_under(groups.drop_last(), key) + groups.last().rules
    } else {
        rules_under(groups.drop_last(), key)
    }
}

/// The first group of `groups` that has the key `key`.
pub open spec fn first_under(groups: Seq<ColumnRuleFilterView>, key: Seq<char>) -> Option<
    ColumnRuleFilterView,
>
    decreases groups.len(),
{
    if groups.len() == 0 {
        None
    } else {
        match first_under(groups.drop_last(), key) {
            Some(g) => Some(g),
            None => if groups.last().key() == key {
                Some(groups.last())
            } else {
                None
            },
        }
    }
}

/// Whether a group of `groups` has the key `key`.
pub open spec fn has_key(groups: Seq<ColumnRuleFilterView>, key: Seq<char>) -> bool {
    exists|j: int| 0 <= j < groups.len() && (#[trigger] groups[j]).key() == key
}

/// Whether the keys of the groups stand in order.
pub open spec fn ascending(groups: Seq<ColumnRuleFilterView>) -> bool {
    forall|i: int, j: int|
        0 <= i < j < groups.len() ==> lex_le(
            (#[trigger] groups[i]).key(),
            (#[trigger] groups[j]).key(),
        )
}

/// Whether the keys of the groups stand in order and no two are equal.
pub open spec fn strictly_ascending(groups: Seq<ColumnRuleFilterView>) -> bool {
    forall|i: int, j: int|
        0 <= i < j < groups.len() ==> lex_le(
            (#[trigger] groups[i]).key(),
            (#[trigger] groups[j]).key(),
        ) && groups[i].key() != groups[j].key()
}

/// Whether `g` is what the groups of `groups` with its key merge to: it
/// holds their rules in their order, and has the gating condition of the
/// first of them as it was written and as it was read.
pub open spec fn stands_for(g: ColumnRuleFilterView, groups: Seq<ColumnRuleFilterView>) -> bool {
    &&& g.rules == rules_under(groups, g.key())
    &&& first_under(groups, g.key()) matches Some(f) && g.filter_string == f.filter_string
        && g.filter_condition == f.filter_condition
}

/// Whether `out` is `groups` merged: one group for each key of `groups`,
/// in the order of the keys, each standing for the groups of its key.
pub open spec fn merges(out: Seq<ColumnRuleFilterView>, groups: Seq<ColumnRuleFilterView>) -> bool {
    &&& strictly_ascending(out)
    &&& forall|i: int| 0 <= i < out.len() ==> stands_for(#[trigger] out[i], groups)
    &&& forall|j: int| 0 <= j < groups.len() ==> has_key(out, (#[trigger] groups[j]).key())
}

/// The rules and the first group under a key, of two lists one behind the
/// other.
pub proof fn lemma_under_concat(
    a: Seq<ColumnRuleFilterView>,
    b: Seq<ColumnRuleFilterView>,
    key: Seq<char>,
)
    ensures
        rules_under(a + b, key) == rules_under(a, key) + rules_under(b, key),
        first_under(a + b, key) == match first_under(a, key) {
            Some(g) => Some(g),
            None => first_under(b, key),
        },
    decreases b.len(),
{
    if b.len() == 0 {
        assert(a + b =~= a);
        assert(rules_under(a, key) + rules_under(b, key) =~= rules_under(a, key));
    } else {
        assert((a + b).drop_last() =~= a + b.drop_last());
        assert((a + b).last() == b.last());
        lemma_under_concat(a, b.drop_last(), key);
        assert(rules_under(a, key) + (rules_under(b.drop_last(), key) + b.last().rules) =~= (
        rules_under(a, key) + rules_under(b.drop_last(), key)) + b.last().rules);
    }
}

/// Under a key that no group has there are no rules and no first group;
/// under a key that a group has there is a first group, and it has the
/// key.
pub proof fn lemma_under_key(groups: Seq<ColumnRuleFilterView>, key: Seq<char>)
    ensures
        !has_key(groups, key) ==> rules_under(groups, key) == Seq::<ColumnRuleView>::empty()
            && first_under(groups, key).is_none(),
        has_key(groups, key) ==> first_under(groups, key).is_some() && first_under(
            groups,
            key,
        ).unwrap().key() == key,
    decreases groups.len(),
{
    if groups.len() > 0 {
        let front = groups.drop_last();
        lemma_under_key(front, key);
        if has_key(groups, key) {
            let j = choose|j: int| 0 <= j < groups.len() && (#[trigger] groups[j]).key() == key;
            if j < front.len() {
                assert(front[j] == groups[j]);
                assert(has_key(front, key));
            } else {
                assert(groups.last().key() == key);
            }
        } else {
            assert(groups.last().key() != key) by {
                assert(groups[groups.len() - 1] == groups.last());
            }
            assert(!has_key(front, key)) by {
                if has_key(front, key) {
                    let j = choose|j: int| 0 <= j < front.len() && (#[trigger] front[j]).key() == key;
                    assert(groups[j] == front[j]);
                }
            }
        }
    }
}

/// What stands under the key of a single group is that group.
pub proof fn lemma_under_single(x: ColumnRuleFilterView)
    ensures
        rules_under(seq![x], x.key()) == x.rules,
        first_under(seq![x], x.key()) == Some(x),
{
    let one = seq![x];
    assert(one.last() == x);
    assert(one.drop_last() =~= Seq::<ColumnRuleFilterView>::empty());
    assert(rules_under(one.drop_last(), x.key()) =~= Seq::<ColumnRuleView>::empty());
    assert(first_under(one.drop_last(), x.key()).is_none());
    assert(Seq::<ColumnRuleView>::empty() + x.rules =~= x.rules);
}

/// The place of a key among keys lies within them, behind a key that does
/// not come after it, and before keys that all come after it.
pub proof fn lemma_place_of(keys: Seq<Seq<char>>, k: Seq<char>)
    ensures
        0 <= place_of(keys, k) <= keys.len(),
        place_of(keys, k) > 0 ==> lex_le(keys[place_of(keys, k) - 1], k),
        forall|m: int| place_of(keys, k) <= m < keys.len() ==> !lex_le(#[trigger] keys[m], k),
    decreases keys.len(),
{
    if keys.len() > 0 && !lex_le(keys.last(), k) {
        let front = keys.drop_last();
        lemma_place_of(front, k);
        let j = place_of(front, k);
        assert forall|m: int| j <= m < keys.len() implies !lex_le(#[trigger] keys[m], k) by {
            if m < keys.len() - 1 {
                assert(front[m] == keys[m]);
            }
        }
        if j > 0 {
            assert(front[j - 1] == keys[j - 1]);
        }
    }
}

/// A group put in at the place of its key keeps the keys in order, and
/// changes what stands under a key only by what it brings: under its own
/// key its rules come last, and it is the first group only where there was
/// none.
pub proof fn lemma_insert_at_place(
    list: Seq<ColumnRuleFilterView>,
    x: ColumnRuleFilterView,
    key: Seq<char>,
)
    requires
        ascending(list),
    ensures
        ascending(list.insert(place_of(keys_of(list), x.key()), x)),
        rules_under(list.insert(place_of(keys_of(list), x.key()), x), key) == rules_under(
            list.push(x),
            key,
        ),
        first_under(list.insert(place_of(keys_of(list), x.key()), x), key) == first_under(
            list.push(x),
            key,
        ),
{
    let keys = keys_of(list);
    let j = place_of(keys, x.key());
    lemma_place_of(keys, x.key());
    let out = list.insert(j, x);
    let head = list.take(j);
    let tail = list.skip(j);
    assert forall|p: int, q: int| 0 <= p < q < out.len() implies lex_le(
        (#[trigger] out[p]).key(),
        (#[trigger] out[q]).key(),
    ) by {
        if q < j {
            assert(out[p] == list[p] && out[q] == list[q]);
        } else if q == j {
            assert(out[p] == list[p]);
            assert(out[q] == x);
            assert(keys[j - 1] == list[j - 1].key());
            if p < j - 1 {
                assert(lex_le(list[p].key(), list[j - 1].key()));
                lemma_lex_le_transitive(list[p].key(), list[j - 1].key(), x.key());
            }
        } else if p < j {
            assert(out[p] == list[p] && out[q] == list[q - 1]);
        } else if p == j {
            assert(out[p] == x);
            assert(out[q] == list[q - 1]);
            assert(keys[q - 1] == list[q - 1].key());
            lemma_lex_le_total(x.key(), list[q - 1].key());
        } else {
            assert(out[p] == list[p - 1] && out[q] == list[q - 1]);
        }
    }
    assert(out =~= (head + seq![x]) + tail);
    assert(list =~= head + tail);
    assert(list.push(x) =~= (head + tail) + seq![x]);
    lemma_under_concat(head + seq![x], tail, key);
    lemma_under_concat(head, seq![x], key);
    lemma_under_concat(head + tail, seq![x], key);
    lemma_under_concat(head, tail, key);
    lemma_under_key(tail, key);
    lemma_under_key(seq![x], key);
    if x.key() == key {
        assert(!has_key(tail, key)) by {
            if has_key(tail, key) {
                let m = choose|m: int| 0 <= m < tail.len() && (#[trigger] tail[m]).key() == key;
                assert(tail[m] == list[j + m]);
                assert(keys[j + m] == list[j + m].key());
                crate::text::lemma_lex_le_reflexive(key);
            }
        }
        assert(has_key(seq![x], key)) by {
            assert(seq![x][0].key() == key);
        }
        assert(rules_under(head, key) + rules_under(seq![x], key) + Seq::<ColumnRuleView>::empty()
            =~= rules_under(head, key) + rules_under(seq![x], key));
        assert(rules_under(head, key) + Seq::<ColumnRuleView>::empty() + rules_under(seq![x], key)
            =~= rules_under(head, key) + rules_under(seq![x], key));
    } else {
        assert(!has_key(seq![x], key)) by {
            if has_key(seq![x], key) {
                let m = choose|m: int| 0 <= m < seq![x].len() && (#[trigger] seq![x][m]).key() == key;
                assert(seq![x][m] == x);
            }
        }
        assert(rules_under(head, key) + Seq::<ColumnRuleView>::empty() + rules_under(tail, key)
            =~= rules_under(head, key) + rules_under(tail, key));
        assert(rules_under(head, key) + rules_under(tail, key) + Seq::<ColumnRuleView>::empty()
            =~= rules_under(head, key) + rules_under(tail, key));
    }
}

/// Arranging keeps the keys in order, and keeps what stands under every
/// key: its rules in their order, and its first group.
pub proof fn lemma_arranged(groups: Seq<ColumnRuleFilterView>, key: Seq<char>)
    ensures
        ascending(arranged(groups)),
        arranged(groups).len() == groups.len(),
        rules_under(arranged(groups), key) == rules_under(groups, key),
        first_under(arranged(groups), key) == first_under(groups, key),
    decreases groups.len(),
{
    if groups.len() > 0 {
        let front = arranged(groups.drop_last());
        let x = groups.last();
        lemma_arranged(groups.drop_last(), key);
        lemma_insert_at_place(front, x, key);
        lemma_place_of(keys_of(front), x.key());
        assert(front.push(x).drop_last() =~= front);
        assert(front.push(x).last() == x);
    }
}

/// What is known of a list before one more group is merged in: the keys
/// of the list and of the group stand in order, and the list was merged as
/// it is meant to be.
pub open spec fn step_ready(front: Seq<ColumnRuleFilterView>, x: ColumnRuleFilterView) -> bool {
    &&& ascending(front.push(x))
    &&& merges(merged(front), front)
    &&& front.len() > 0 ==> merged(front).len() > 0 && merged(front).last().key()
        == front.last().key()
    &&& front.len() == 0 ==> merged(front).len() == 0
}

/// Before a group is merged in, no merged group but the last can have its
/// key, no merged key comes after its key, and where the last has another
/// key, no group has its key.
pub proof fn lemma_step_keys(front: Seq<ColumnRuleFilterView>, x: ColumnRuleFilterView)
    requires
        step_ready(front, x),
    ensures
        forall|i: int|
            0 <= i < merged(front).len() - 1 ==> (#[trigger] merged(front)[i]).key() != x.key(),
        forall|i: int|
            0 <= i < merged(front).len() ==> lex_le((#[trigger] merged(front)[i]).key(), x.key()),
        merged(front).len() == 0 || merged(front).last().key() != x.key() ==> !has_key(
            front,
            x.key(),
        ),
{
    let before = merged(front);
    let groups = front.push(x);
    if front.len() > 0 {
        assert(groups[front.len() - 1] == front.last());
        assert(groups[front.len() as int] == x);
        assert(lex_le(groups[front.len() - 1].key(), groups[front.len() as int].key()));
        assert(lex_le(before.last().key(), x.key()));
        assert forall|i: int| 0 <= i < before.len() implies lex_le(
            (#[trigger] before[i]).key(),
            x.key(),
        ) by {
            if i < before.len() - 1 {
                assert(lex_le(before[i].key(), before[before.len() - 1].key()));
                lemma_lex_le_transitive(before[i].key(), before.last().key(), x.key());
            }
        }
        assert forall|i: int| 0 <= i < before.len() - 1 implies (#[trigger] before[i]).key()
            != x.key() by {
            assert(lex_le(before[i].key(), before[before.len() - 1].key()));
            assert(before[i].key() != before[before.len() - 1].key());
            if before[i].key() == x.key() {
                lemma_lex_le_antisymmetric(before[i].key(), before.last().key());
            }
        }
    }
    if before.len() == 0 || before.last().key() != x.key() {
        if has_key(front, x.key()) {
            let m = choose|m: int| 0 <= m < front.len() && (#[trigger] front[m]).key() == x.key();
            assert(has_key(before, front[m].key()));
            let w = choose|w: int|
                0 <= w < before.len() && (#[trigger] before[w]).key() == front[m].key();
            assert(w < before.len() - 1 || before[w] == before.last());
        }
    }
}

/// After a group is merged in, every merged group stands for the groups of
/// its key.
pub proof fn lemma_step_stands(front: Seq<ColumnRuleFilterView>, x: ColumnRuleFilterView, i: int)
    requires
        step_ready(front, x),
        0 <= i < merged(front.push(x)).len(),
    ensures
        stands_for(merged(front.push(x))[i], front.push(x)),
{
    let groups = front.push(x);
    let before = merged(front);
    let out = merged(groups);
    assert(groups.drop_last() =~= front);
    assert(groups.last() == x);
    assert(groups =~= front + seq![x]);
    lemma_step_keys(front, x);
    let g = out[i];
    lemma_under_concat(front, seq![x], g.key());
    lemma_under_key(seq![x], g.key());
    lemma_under_key(front, g.key());
    lemma_under_single(x);
    let merged_in = before.len() > 0 && before.last().key() == x.key();
    if i < out.len() - 1 {
        assert(g == before[i]);
        assert(stands_for(before[i], front));
        assert(g.key() != x.key());
        assert(!has_key(seq![x], g.key())) by {
            if has_key(seq![x], g.key()) {
                let m = choose|m: int|
                    0 <= m < seq![x].len() && (#[trigger] seq![x][m]).key() == g.key();
                assert(seq![x][m] == x);
            }
        }
        assert(rules_under(front, g.key()) + Seq::<ColumnRuleView>::empty() =~= rules_under(
            front,
            g.key(),
        ));
    } else if merged_in {
        assert(g == joined(before.last(), x));
        assert(stands_for(before[before.len() - 1], front));
    } else {
        assert(g == x);
        assert(Seq::<ColumnRuleView>::empty() + x.rules =~= x.rules);
    }
}

/// After a group is merged in, the merged keys stand in order and no two
/// are equal.
pub proof fn lemma_step_order(front: Seq<ColumnRuleFilterView>, x: ColumnRuleFilterView)
    requires
        step_ready(front, x),
    ensures
        strictly_ascending(merged(front.push(x))),
        merged(front.push(x)).len() > 0,
        merged(front.push(x)).last().key() == x.key(),
{
    let groups = front.push(x);
    let before = merged(front);
    let out = merged(groups);
    assert(groups.drop_last() =~= front);
    assert(groups.last() == x);
    lemma_step_keys(front, x);
    let merged_in = before.len() > 0 && before.last().key() == x.key();
    assert forall|i: int, j: int| 0 <= i < j < out.len() implies lex_le(
        (#[trigger] out[i]).key(),
        (#[trigger] out[j]).key(),
    ) && out[i].key() != out[j].key() by {
        assert(out[i] == before[i]);
        if j < out.len() - 1 {
            assert(out[j] == before[j]);
        } else if merged_in {
            assert(out[j].key() == before[before.len() - 1].key());
            assert(lex_le(before[i].key(), before[before.len() - 1].key()));
        } else {
            assert(out[j] == x);
        }
    }
}

/// After a group is merged in, every key of the groups is the key of a
/// merged group.
pub proof fn lemma_step_covers(front: Seq<ColumnRuleFilterView>, x: ColumnRuleFilterView, j: int)
    requires
        step_ready(front, x),
        0 <= j <= front.len(),
    ensures
        has_key(merged(front.push(x)), front.push(x)[j].key()),
{
    let groups = front.push(x);
    let before = merged(front);
    let out = merged(groups);
    assert(groups.drop_last() =~= front);
    assert(groups.last() == x);
    lemma_step_order(front, x);
    let merged_in = before.len() > 0 && before.last().key() == x.key();
    if j < front.len() {
        assert(front[j] == groups[j]);
        assert(has_key(before, front[j].key()));
        let w = choose|w: int| 0 <= w < before.len() && (#[trigger] before[w]).key() == front[j].key();
        if w < before.len() - 1 || !merged_in {
            assert(out[w] == before[w]);
        } else {
            assert(out[out.len() - 1].key() == before[w].key());
        }
    } else {
        assert(out[out.len() - 1].key() == x.key());
    }
}

/// Merging the neighbours of a list whose keys stand in order gives one
/// group for each key, each standing for the groups of its key; the last
/// merged group has the key of the last group.
pub proof fn lemma_merged(groups: Seq<ColumnRuleFilterView>)
    requires
        ascending(groups),
    ensures
        merges(merged(groups), groups),
        groups.len() > 0 ==> merged(groups).len() > 0 && merged(groups).last().key()
            == groups.last().key(),
        groups.len() == 0 ==> merged(groups).len() == 0,
    decreases groups.len(),
{
    if groups.len() > 0 {
        let front = groups.drop_last();
        let x = groups.last();
        assert(groups =~= front.push(x));
        assert forall|i: int, j: int| 0 <= i < j < front.len() implies lex_le(
            (#[trigger] front[i]).key(),
            (#[trigger] front[j]).key(),
        ) by {
            assert(front[i] == groups[i] && front[j] == groups[j]);
        }
        lemma_merged(front);
        assert(step_ready(front, x));
        lemma_step_order(front, x);
        let out = merged(groups);
        assert forall|i: int| 0 <= i < out.len() implies stands_for(#[trigger] out[i], groups) by {
            lemma_step_stands(front, x, i);
        }
        assert forall|j: int| 0 <= j < groups.len() implies has_key(
            out,
            (#[trigger] groups[j]).key(),
        ) by {
            lemma_step_covers(front, x, j);
        }
    }
}

/// Merging is what it is meant to be: the merged list holds one group for
/// each key of the groups, in the order of the keys; the group of a key
/// holds the rules of the groups of that key in the order in which those
/// groups stood, and the gating condition of the first of them.
pub proof fn lemma_combined(groups: Seq<ColumnRuleFilterView>)
    ensures
        merges(combined(groups), groups),
{
    let sorted = arranged(groups);
    let out = combined(groups);
    lemma_arranged(groups, Seq::empty());
    lemma_merged(sorted);
    assert forall|i: int| 0 <= i < out.len() implies stands_for(#[trigger] out[i], groups) by {
        assert(stands_for(out[i], sorted));
        lemma_arranged(groups, out[i].key());
    }
    assert forall|j: int| 0 <= j < groups.len() implies has_key(
        out,
        (#[trigger] groups[j]).key(),
    ) by {
        let key = groups[j].key();
        lemma_arranged(groups, key);
        lemma_under_key(groups, key);
        lemma_under_key(sorted, key);
        assert(has_key(sorted, key));
        let m = choose|m: int| 0 <= m < sorted.len() && (#[trigger] sorted[m]).key() == key;
        assert(has_key(out, sorted[m].key()));
    }
}

} // verus!
