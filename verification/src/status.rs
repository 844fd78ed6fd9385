//! The three-valued status and the rule by which statuses roll up.

use vstd::prelude::*;

verus! {

/// Health of a monitored entity. By severity, `Okay < Warning < Ng`.
#[derive(Clone, Copy, Debug, PartialEq, Eq, Structural)]
pub enum StatCode {
    Okay,
    Ng,
    Warning,
}

/// Position of a status in the severity order.
pub open spec fn severity(status: StatCode) -> nat {
    match status {
        StatCode::Okay => 0,
        StatCode::Warning => 1,
        StatCode::Ng => 2,
    }
}

/// A status is alerting when it is anything but `Okay`.
pub open spec fn alerting(status: StatCode) -> bool {
    status is Ng || status is Warning
}

/// The roll-up of a sequence of statuses: `Ng` if any element is `Ng`,
/// else `Warning` if any element is `Warning`, else `Okay`.
pub open spec fn aggregate(statuses: Seq<StatCode>) -> StatCode {
    if statuses.contains(StatCode::Ng) {
        StatCode::Ng
    } else if statuses.contains(StatCode::Warning) {
        StatCode::Warning
    } else {
        StatCode::Okay
    }
}

/// Reduces a slice of statuses to the single most severe one: `Okay` for
/// an empty slice, else the element that no other exceeds in severity.
pub fn aggregate_status(statuses: &[StatCode]) -> (result: StatCode)
    ensures
        result == aggregate(statuses@),
        statuses@.len() == 0 ==> result == StatCode::Okay,
        statuses@.len() > 0 ==> statuses@.contains(result),
        forall|i: int|
            0 <= i < statuses@.len() ==> severity(#[trigger] statuses@[i]) <= severity(result),
{
    let mut has_ng = false;
    let mut has_warn = false;
    let mut i: usize = 0;
    while i < statuses.len()
        invariant
            i <= statuses.len(),
            has_ng <==> statuses@.take(i as int).contains(StatCode::Ng),
            has_warn <==> statuses@.take(i as int).contains(StatCode::Warning),
        decreases statuses.len() - i,
    {
        proof {
            let before = statuses@.take(i as int);
            let after = statuses@.take(i + 1);
            assert(after =~= before.push(statuses@[i as int]));
            assert(after[i as int] == statuses@[i as int]);
            assert forall|s: StatCode| after.contains(s) <==> (before.contains(s) || s
                == statuses@[i as int]) by {
                if before.contains(s) {
                    let k = choose|k: int| 0 <= k < before.len() && before[k] == s;
                    assert(after[k] == s);
                }
            }
        }
        match statuses[i] {
            StatCode::Okay => {},
            StatCode::Ng => {
                has_ng = true;
            },
            StatCode::Warning => {
                has_warn = true;
            },
        }
        i += 1;
    }
    proof {
        assert(statuses@.take(i as int) =~= statuses@);
        lemma_aggregate_is_maximum(statuses@);
    }
    if has_ng {
        StatCode::Ng
    } else if has_warn {
        StatCode::Warning
    } else {
        StatCode::Okay
    }
}

/// Tells whether a status calls for attention.
pub fn is_alert(status: &StatCode) -> (result: bool)
    ensures
        result == alerting(*status),
{
    matches!(status, StatCode::Ng | StatCode::Warning)
}

/// Aggregation is the maximum under the severity order: no element is more
/// severe than the roll-up, the roll-up of a non-empty sequence is one of its
/// elements, and the roll-up of the empty sequence is `Okay`.
pub proof fn lemma_aggregate_is_maximum(statuses: Seq<StatCode>)
    ensures
        forall|i: int|
            0 <= i < statuses.len() ==> severity(#[trigger] statuses[i]) <= severity(
                aggregate(statuses),
            ),
        statuses.len() > 0 ==> statuses.contains(aggregate(statuses)),
        statuses.len() == 0 ==> aggregate(statuses) == StatCode::Okay,
{
    assert forall|i: int| 0 <= i < statuses.len() implies severity(#[trigger] statuses[i])
        <= severity(aggregate(statuses)) by {
        assert(statuses.contains(statuses[i]));
    }
    if statuses.len() > 0 && aggregate(statuses) == StatCode::Okay {
        assert(statuses.contains(statuses[0]));
        assert(statuses[0] == StatCode::Okay);
    }
}

/// Aggregation does not depend on the order of its input: two sequences
/// that are permutations of each other roll up to the same status.
pub proof fn lemma_aggregate_order_independent(first: Seq<StatCode>, second: Seq<StatCode>)
    requires
        first.to_multiset() == second.to_multiset(),
    ensures
        aggregate(first) == aggregate(second),
{
    first.to_multiset_ensures();
    second.to_multiset_ensures();
    assert forall|s: StatCode| first.contains(s) <==> second.contains(s) by {
        assert(first.contains(s) <==> first.to_multiset().count(s) > 0);
        assert(second.contains(s) <==> second.to_multiset().count(s) > 0);
    }
}

/// Two sequences with the same alerting elements roll up alike, whatever
/// number of `Okay` elements either holds.
pub proof fn lemma_aggregate_ignores_okay(first: Seq<StatCode>, second: Seq<StatCode>)
    requires
        forall|s: StatCode| alerting(s) ==> (first.contains(s) <==> second.contains(s)),
    ensures
        aggregate(first) == aggregate(second),
{
    assert(alerting(StatCode::Ng));
    assert(alerting(StatCode::Warning));
}

} // verus!
