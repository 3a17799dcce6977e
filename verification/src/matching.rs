//! Suffix matching of a client's recorded hits against the configured rules.

use vstd::prelude::*;

verus! {

/// `hits` ends with `rule`: `rule` is a contiguous, ordered suffix of `hits`.
/// A rule longer than the recorded hits never matches.
pub open spec fn ends_with(hits: Seq<i32>, rule: Seq<i32>) -> bool {
    rule.len() <= hits.len() && hits.subrange(hits.len() - rule.len(), hits.len() as int)
        == rule
}

/// The least index `k >= i` of a rule that `hits` ends with, if any.
pub open spec fn first_match_from(rules: Seq<Seq<i32>>, hits: Seq<i32>, i: int) -> Option<int>
    decreases rules.len() - i,
{
    if i < 0 || i >= rules.len() {
        None
    } else if ends_with(hits, rules[i]) {
        Some(i)
    } else {
        first_match_from(rules, hits, i + 1)
    }
}

/// The index, in configuration order, of the first rule that `hits` ends
/// with, if any.
pub open spec fn first_match(rules: Seq<Seq<i32>>, hits: Seq<i32>) -> Option<int> {
    first_match_from(rules, hits, 0)
}

pub proof fn lemma_first_match_from_characterizes(rules: Seq<Seq<i32>>, hits: Seq<i32>, i: int)
    requires
        0 <= i <= rules.len(),
    ensures
        match first_match_from(rules, hits, i) {
            Some(k) => i <= k < rules.len() && ends_with(hits, rules[k]) && (forall|j: int|
                i <= j < k ==> !ends_with(hits, rules[j])),
            None => forall|j: int| i <= j < rules.len() ==> !ends_with(hits, rules[j]),
        },
    decreases rules.len() - i,
{
    if i < rules.len() && !ends_with(hits, rules[i]) {
        lemma_first_match_from_characterizes(rules, hits, i + 1);
    }
}

/// The reported rule is always the one earliest in configuration order: it
/// matches, and no rule before it does; and when no rule is reported, none
/// matches at all.
pub proof fn lemma_first_match_is_earliest(rules: Seq<Seq<i32>>, hits: Seq<i32>)
    ensures
        match first_match(rules, hits) {
            Some(k) => 0 <= k < rules.len() && ends_with(hits, rules[k]) && (forall|j: int|
                0 <= j < k ==> !ends_with(hits, rules[j])),
            None => forall|j: int| 0 <= j < rules.len() ==> !ends_with(hits, rules[j]),
        },
{
    lemma_first_match_from_characterizes(rules, hits, 0);
}

/// A recorded sequence shorter than a rule never matches that rule.
pub proof fn lemma_short_sequence_never_matches(hits: Seq<i32>, rule: Seq<i32>)
    requires
        hits.len() < rule.len(),
    ensures
        !ends_with(hits, rule),
{
}

/// Whether `hits` ends with `rule`, as executable code.
pub fn ends_with_rule(hits: &Vec<i32>, rule: &Vec<i32>) -> (r: bool)
    ensures
        r == ends_with(hits@, rule@),
{
    if rule.len() > hits.len() {
        return false;
    }
    let offset: usize = hits.len() - rule.len();
    let mut j: usize = 0;
    while j < rule.len()
        invariant
            rule.len() <= hits.len(),
            offset == hits.len() - rule.len(),
            j <= rule.len(),
            forall|k: int| 0 <= k < j ==> hits@[offset + k] == rule@[k],
        decreases rule.len() - j,
    {
        if hits[offset + j] != rule[j] {
            proof {
                assert(hits@.subrange(hits@.len() - rule@.len(), hits@.len() as int)[j as int]
                    == hits@[offset + j]);
            }
            return false;
        }
        j += 1;
    }
    proof {
        assert(hits@.subrange(hits@.len() - rule@.len(), hits@.len() as int) =~= rule@);
    }
    true
}

/// The views of a list of port lists, in order.
pub open spec fn rule_views(rules: Seq<Vec<i32>>) -> Seq<Seq<i32>> {
    Seq::new(rules.len(), |i: int| rules[i]@)
}

/// The index of the first rule in `rules` that `hits` ends with, if any,
/// scanning in configuration order.
pub fn find_first_match(rules: &Vec<Vec<i32>>, hits: &Vec<i32>) -> (r: Option<usize>)
    ensures
        match r {
            Some(k) => first_match(rule_views(rules@), hits@) == Some(k as int),
            None => first_match(rule_views(rules@), hits@) is None,
        },
{
    let ghost rv = rule_views(rules@);
    let mut i: usize = 0;
    while i < rules.len()
        invariant
            i <= rules.len(),
            rv == rule_views(rules@),
            first_match(rv, hits@) == first_match_from(rv, hits@, i as int),
        decreases rules.len() - i,
    {
        if ends_with_rule(hits, &rules[i]) {
            proof {
                assert(ends_with(hits@, rv[i as int]));
            }
            return Some(i);
        }
        proof {
            assert(first_match_from(rv, hits@, i as int) == first_match_from(
                rv,
                hits@,
                i as int + 1,
            ));
        }
        i += 1;
    }
    None
}

} // verus!
