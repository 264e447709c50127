//! Gating conditions of rule groups, and the merging of groups that stand
//! under one condition.
use crate::model::column_rule::{clone_rules, rule_views};
use crate::model::rule_filter::filter::{filter_views, ColumnRuleFilter, ColumnRuleFilterView};
use crate::model::rule_filter::merge_facts::{lemma_combined, merges};
use crate::text::{chars_of, find_place, place_of};
use vstd::prelude::*;

pub mod canonical_form;
pub mod condition;
pub mod filter;
pub mod merge_facts;
pub mod operator;

verus! {

/// The keys of a list of groups.
pub open spec fn keys_of(groups: Seq<ColumnRuleFilterView>) -> Seq<Seq<char>> {
    groups.map_values(|g: ColumnRuleFilterView| g.key())
}

/// The groups in the order of their keys; groups of one key keep the order
/// in which they stood.
pub open spec fn arranged(groups: Seq<ColumnRuleFilterView>) -> Seq<ColumnRuleFilterView>
    decreases groups.len(),
{
    if groups.len() == 0 {
        Seq::empty()
    } else {
        let front = arranged(groups.drop_last());
        front.insert(place_of(keys_of(front), groups.last().key()), groups.last())
    }
}

/// The group `first` with the rules of `next` behind its own.
pub open spec fn joined(first: ColumnRuleFilterView, next: ColumnRuleFilterView) -> ColumnRuleFilterView {
    ColumnRuleFilterView {
        filter_string: first.filter_string,
        rules: first.rules + next.rules,
        filter_condition: first.filter_condition,
    }
}

/// The groups with every run of neighbours of one key made into one group:
/// the first of the run, with the rules of the others behind its own.
pub open spec fn merged(groups: Seq<ColumnRuleFilterView>) -> Seq<ColumnRuleFilterView>
    decreases groups.len(),
{
    if groups.len() == 0 {
        Seq::empty()
    } else {
        let front = merged(groups.drop_last());
        if front.len() > 0 && front.last().key() == groups.last().key() {
            front.drop_last().push(joined(front.last(), groups.last()))
        } else {
            front.push(groups.last())
        }
    }
}

/// The groups with those of one key made into one: one group for each key,
/// in the order of the keys.
pub open spec fn combined(groups: Seq<ColumnRuleFilterView>) -> Seq<ColumnRuleFilterView> {
    merged(arranged(groups))
}

/// The groups in the order of their keys, groups of one key in the order
/// in which they stood.
pub fn arrange_filters(filters: &Vec<ColumnRuleFilter>) -> (out: Vec<ColumnRuleFilter>)
    ensures
        filter_views(out@) == arranged(filter_views(filters@)),
{
    let ghost all = filter_views(filters@);
    let mut out: Vec<ColumnRuleFilter> = Vec::new();
    let mut keys: Vec<Vec<char>> = Vec::new();
    let mut i: usize = 0;
    while i < filters.len()
        invariant
            i <= filters.len(),
            all == filter_views(filters@),
            keys.len() == out.len(),
            forall|k: int| 0 <= k < out.len() ==> keys@[k]@ == out@[k]@.key(),
            filter_views(out@) == arranged(all.take(i as int)),
        decreases filters.len() - i,
    {
        let group = filters[i].clone();
        let text = group.key();
        let key = chars_of(text.as_str());
        let ghost list = filter_views(out@);
        proof {
            assert(all.take(i + 1).drop_last() == all.take(i as int));
            assert(all.take(i + 1).last() == filters@[i as int]@);
            assert(keys@.map_values(|k: Vec<char>| k@) =~= keys_of(list));
        }
        let j = find_place(&keys, &key);
        let ghost x = group@;
        out.insert(j, group);
        keys.insert(j, key);
        assert(filter_views(out@) =~= list.insert(j as int, x));
        i += 1;
    }
    assert(all.take(filters.len() as int) == all);
    out
}

/// Makes every run of neighbours of one key into one group.
pub fn merge_neighbours(filters: Vec<ColumnRuleFilter>) -> (out: Vec<ColumnRuleFilter>)
    ensures
        filter_views(out@) == merged(filter_views(filters@)),
{
    let ghost all = filter_views(filters@);
    let mut out: Vec<ColumnRuleFilter> = Vec::new();
    let mut last_key = String::new();
    let mut i: usize = 0;
    while i < filters.len()
        invariant
            i <= filters.len(),
            all == filter_views(filters@),
            out.len() > 0 ==> last_key@ == out@.last()@.key(),
            filter_views(out@) == merged(all.take(i as int)),
        decreases filters.len() - i,
    {
        let key = filters[i].key();
        let ghost front = filter_views(out@);
        let ghost x = filters@[i as int]@;
        proof {
            assert(all.take(i + 1).drop_last() == all.take(i as int));
            assert(all.take(i + 1).last() == x);
            if out.len() > 0 {
                assert(front.last() == out@.last()@);
            }
        }
        if out.len() > 0 && last_key == key {
            let mut more = clone_rules(&filters[i].rules);
            let mut group = out.pop().unwrap();
            let ghost first = group@;
            let ghost own = rule_views(group.rules@);
            let ghost added = rule_views(more@);
            group.rules.append(&mut more);
            assert(rule_views(group.rules@) =~= own + added);
            assert(group@ == joined(first, x));
            out.push(group);
            assert(filter_views(out@) =~= front.drop_last().push(joined(first, x)));
        } else {
            out.push(filters[i].clone());
            assert(filter_views(out@) =~= front.push(x));
            last_key = key;
        }
        i += 1;
    }
    assert(all.take(filters.len() as int) == all);
    out
}

/// Merges the groups that stand under one gating condition. Groups are
/// told apart by the text of their condition; the result holds one group
/// for each text, in the order of the texts. The merged group is the first
/// of its groups with the rules of the others behind its own, in the order
/// in which the groups stood.
pub fn combine_itentical_filters(column_rule_filters: Vec<ColumnRuleFilter>) -> (r: Vec<
    ColumnRuleFilter,
>)
    ensures
        filter_views(r@) == combined(filter_views(column_rule_filters@)),
        merges(filter_views(r@), filter_views(column_rule_filters@)),
{
    proof {
        lemma_combined(filter_views(column_rule_filters@));
    }
    let sorted = arrange_filters(&column_rule_filters);
    merge_neighbours(sorted)
}

} // verus!
