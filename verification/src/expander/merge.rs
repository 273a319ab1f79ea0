//! Deduplication of parcels by content identity.
//!
//! Two parcels are the same parcel when they agree on both digest and
//! name.  Within one identity, parcels fold pairwise in encounter order:
//! the first label survives, memberships concatenate, and the first
//! requirements list wins (the second is discarded — a known
//! simplification).

use vstd::prelude::*;
use crate::expander::collections::merge_lists;
use crate::expander::collections::spec_merge_lists;
use crate::invoice::Condition;
use crate::invoice::ConditionV;
use crate::invoice::Parcel;
use crate::invoice::ParcelV;

verus! {

/// The identity key of a parcel: its content digest together with its
/// declared name.
pub open spec fn identity(p: ParcelV) -> (Seq<char>, Seq<char>) {
    (p.label.sha256, p.label.name)
}

/// Merged role conditions: memberships concatenate, the first
/// requirements list wins.
pub open spec fn merge_conditions_v(first: Option<ConditionV>, second: Option<ConditionV>) -> Option<
    ConditionV,
> {
    match first {
        None => second,
        Some(c1) => match second {
            None => Some(c1),
            Some(c2) => Some(
                ConditionV {
                    member_of: spec_merge_lists(c1.member_of, c2.member_of),
                    requirements: c1.requirements,
                },
            ),
        },
    }
}

/// Two parcels of one identity merged: the first parcel's label survives
/// unchanged.
pub open spec fn merge_two(first: ParcelV, second: ParcelV) -> ParcelV {
    ParcelV {
        label: first.label,
        conditions: merge_conditions_v(first.conditions, second.conditions),
    }
}

/// The first index of `s` whose parcel has identity `id`, or `s.len()`.
pub open spec fn find_identity(s: Seq<ParcelV>, id: (Seq<char>, Seq<char>)) -> int
    decreases s.len(),
{
    if s.len() == 0 {
        0
    } else if identity(s[0]) == id {
        0
    } else {
        1 + find_identity(s.drop_first(), id)
    }
}

/// One parcel folded into the accumulated list: merged into the first
/// parcel of its identity, or appended.
pub open spec fn merge_step(acc: Seq<ParcelV>, p: ParcelV) -> Seq<ParcelV> {
    let i = find_identity(acc, identity(p));
    if i < acc.len() {
        acc.update(i, merge_two(acc[i], p))
    } else {
        acc.push(p)
    }
}

/// The whole list merged by identity, in encounter order.
pub open spec fn merge_by_identity(s: Seq<ParcelV>) -> Seq<ParcelV>
    decreases s.len(),
{
    if s.len() == 0 {
        Seq::empty()
    } else {
        merge_step(merge_by_identity(s.drop_last()), s.last())
    }
}

proof fn lemma_find_identity_at(s: Seq<ParcelV>, id: (Seq<char>, Seq<char>), i: int)
    requires
        0 <= i < s.len(),
        identity(s[i]) == id,
        forall|j: int| 0 <= j < i ==> identity(s[j]) != id,
    ensures
        find_identity(s, id) == i,
    decreases i,
{
    if i > 0 {
        lemma_find_identity_at(s.drop_first(), id, i - 1);
    }
}

proof fn lemma_find_identity_none(s: Seq<ParcelV>, id: (Seq<char>, Seq<char>))
    requires
        forall|j: int| 0 <= j < s.len() ==> identity(s[j]) != id,
    ensures
        find_identity(s, id) == s.len(),
    decreases s.len(),
{
    if s.len() > 0 {
        lemma_find_identity_none(s.drop_first(), id);
    }
}

proof fn lemma_find_identity_properties(s: Seq<ParcelV>, id: (Seq<char>, Seq<char>))
    ensures
        0 <= find_identity(s, id) <= s.len(),
        find_identity(s, id) < s.len() ==> identity(s[find_identity(s, id)]) == id,
        forall|j: int| 0 <= j < find_identity(s, id) ==> identity(s[j]) != id,
    decreases s.len(),
{
    if s.len() > 0 && identity(s[0]) != id {
        lemma_find_identity_properties(s.drop_first(), id);
        assert forall|j: int| 0 <= j < find_identity(s, id) implies identity(s[j]) != id by {
            if j > 0 {
                assert(identity(s.drop_first()[j - 1]) != id);
            }
        }
    }
}

/// Merges two condition blocks of one identity: memberships concatenate
/// in order, the first requirements list wins.
pub fn merge_condition_lists(first: Condition, second: Condition) -> (r: Condition)
    ensures
        r.deep_view() == (ConditionV {
            member_of: spec_merge_lists(
                first.deep_view().member_of,
                second.deep_view().member_of,
            ),
            requirements: first.deep_view().requirements,
        }),
{
    Condition {
        member_of: merge_lists(first.member_of, second.member_of),
        requirements: first.requirements,
    }
}

/// Merges two optional condition blocks; either side alone survives.
pub fn merge_parcel_conditions(first: Option<Condition>, second: Option<Condition>) -> (r: Option<
    Condition,
>)
    ensures
        r.deep_view() == merge_conditions_v(first.deep_view(), second.deep_view()),
{
    match first {
        None => second,
        Some(fc) => match second {
            None => Some(fc),
            Some(sc) => Some(merge_condition_lists(fc, sc)),
        },
    }
}

/// Folds the second parcel into the first: the first label survives
/// unchanged, the conditions merge.
pub fn merge_parcel_into(first: Parcel, second: Parcel) -> (r: Parcel)
    ensures
        r.deep_view() == merge_two(first.deep_view(), second.deep_view()),
{
    Parcel {
        label: first.label,
        conditions: merge_parcel_conditions(first.conditions, second.conditions),
    }
}

/// Deduplicates the parcel list by identity, folding role conditions in
/// encounter order.
#[verifier::loop_isolation(false)]
pub fn merge_memberships(parcels: Vec<Parcel>) -> (r: Vec<Parcel>)
    ensures
        r.deep_view() == merge_by_identity(parcels.deep_view()),
{
    let ghost all = parcels.deep_view();
    let mut rest = parcels;
    let mut result: Vec<Parcel> = Vec::new();
    proof {
        assert(rest.deep_view() =~~= all.skip(0));
        assert(all.take(0) =~= Seq::<ParcelV>::empty());
        assert(result.deep_view() =~= Seq::<ParcelV>::empty());
    }
    while rest.len() > 0
        invariant
            rest@.len() <= all.len(),
            rest.deep_view() =~~= all.skip(all.len() - rest@.len()),
            result.deep_view() == merge_by_identity(all.take(all.len() - rest@.len())),
        decreases rest.len(),
    {
        let ghost k = all.len() - rest@.len();
        let ghost prev = rest.deep_view();
        let ghost accv = result.deep_view();
        let p = rest.remove(0);
        let ghost pv = p.deep_view();
        proof {
            assert(pv == prev[0]);
            assert(prev == all.skip(k));
            assert(all.skip(k)[0] == all[k]);
            assert(pv == all[k]);
            assert(rest.deep_view() =~~= prev.drop_first());
            assert(prev.drop_first() =~= all.skip(all.len() - rest@.len()));
            assert(all.take(k + 1).drop_last() =~= all.take(k));
            assert(all.take(k + 1).last() == all[k]);
        }
        let mut idx: usize = result.len();
        let mut i: usize = 0;
        while i < result.len()
            invariant
                i <= result.len(),
                idx == result@.len() || idx < i,
                idx == result@.len() ==> forall|j: int|
                    0 <= j < i ==> identity(result.deep_view()[j]) != identity(pv),
                idx < result@.len() ==> identity(result.deep_view()[idx as int]) == identity(pv)
                    && (forall|j: int|
                    0 <= j < idx ==> identity(result.deep_view()[j]) != identity(pv)),
            decreases result.len() - i,
        {
            if idx == result.len() && result[i].label.sha256.eq(&p.label.sha256)
                && result[i].label.name.eq(&p.label.name) {
                idx = i;
            }
            i += 1;
        }
        if idx < result.len() {
            proof {
                lemma_find_identity_at(accv, identity(pv), idx as int);
            }
            let existing = result.remove(idx);
            let merged = merge_parcel_into(existing, p);
            result.insert(idx, merged);
            proof {
                assert(result.deep_view() =~~= accv.update(
                    idx as int,
                    merge_two(accv[idx as int], pv),
                ));
                assert(result.deep_view() == merge_step(accv, pv));
            }
        } else {
            proof {
                lemma_find_identity_none(accv, identity(pv));
            }
            result.push(p);
            proof {
                assert(result.deep_view() =~~= accv.push(pv));
                assert(result.deep_view() == merge_step(accv, pv));
            }
        }
        proof {
            assert(result.deep_view() == merge_by_identity(all.take(k + 1)));
        }
    }
    proof {
        assert(all.take(all.len() as int) =~= all);
    }
    result
}

/// No two parcels of the list share an identity.
pub open spec fn distinct_identities(s: Seq<ParcelV>) -> bool {
    forall|i: int, j: int| 0 <= i < j < s.len() ==> identity(s[i]) != identity(s[j])
}

proof fn lemma_merge_step_distinct(acc: Seq<ParcelV>, p: ParcelV)
    requires
        distinct_identities(acc),
    ensures
        distinct_identities(merge_step(acc, p)),
        merge_step(acc, p).len() >= acc.len(),
        forall|i: int|
            0 <= i < merge_step(acc, p).len() ==> (if i < acc.len() {
                identity(#[trigger] merge_step(acc, p)[i]) == identity(acc[i])
            } else {
                identity(merge_step(acc, p)[i]) == identity(p)
            }),
{
    lemma_find_identity_properties(acc, identity(p));
}

proof fn lemma_merge_distinct(s: Seq<ParcelV>)
    ensures
        distinct_identities(merge_by_identity(s)),
    decreases s.len(),
{
    if s.len() > 0 {
        lemma_merge_distinct(s.drop_last());
        lemma_merge_step_distinct(merge_by_identity(s.drop_last()), s.last());
    }
}

proof fn lemma_merge_of_distinct_is_identity(s: Seq<ParcelV>)
    requires
        distinct_identities(s),
    ensures
        merge_by_identity(s) == s,
    decreases s.len(),
{
    if s.len() > 0 {
        assert(distinct_identities(s.drop_last()));
        lemma_merge_of_distinct_is_identity(s.drop_last());
        lemma_find_identity_none(s.drop_last(), identity(s.last()));
        assert(merge_by_identity(s) =~= s);
    }
}

/// Merging is idempotent once deduplicated: merging the merged list again
/// produces the same parcel list.
pub proof fn lemma_merge_idempotent(s: Seq<ParcelV>)
    ensures
        merge_by_identity(merge_by_identity(s)) == merge_by_identity(s),
{
    lemma_merge_distinct(s);
    lemma_merge_of_distinct_is_identity(merge_by_identity(s));
}

/// The group names a parcel is a member of; none when it has no
/// conditions.
pub open spec fn member_entries(p: ParcelV) -> Seq<Seq<char>> {
    match p.conditions {
        None => Seq::empty(),
        Some(c) => match c.member_of {
            None => Seq::empty(),
            Some(l) => l,
        },
    }
}

/// Every group `a` is a member of, `b` is a member of too.
pub open spec fn memberships_subsumed(a: ParcelV, b: ParcelV) -> bool {
    forall|g: Seq<char>| member_entries(a).contains(g) ==> member_entries(b).contains(g)
}

proof fn lemma_concat_contains(l1: Seq<Seq<char>>, l2: Seq<Seq<char>>, g: Seq<char>)
    requires
        l1.contains(g) || l2.contains(g),
    ensures
        (l1 + l2).contains(g),
{
    if l1.contains(g) {
        let i = choose|i: int| 0 <= i < l1.len() && l1[i] == g;
        assert((l1 + l2)[i] == g);
    } else {
        let i = choose|i: int| 0 <= i < l2.len() && l2[i] == g;
        assert((l1 + l2)[l1.len() + i] == g);
    }
}

proof fn lemma_merge_two_subsumes(a: ParcelV, b: ParcelV)
    ensures
        memberships_subsumed(a, merge_two(a, b)),
        memberships_subsumed(b, merge_two(a, b)),
{
    let m = merge_two(a, b);
    assert forall|g: Seq<char>|
        member_entries(a).contains(g) || member_entries(b).contains(g) implies member_entries(
        m,
    ).contains(g) by {
        match (a.conditions, b.conditions) {
            (Some(c1), Some(c2)) => {
                match (c1.member_of, c2.member_of) {
                    (Some(l1), Some(l2)) => {
                        lemma_concat_contains(l1, l2, g);
                    },
                    _ => {},
                }
            },
            _ => {},
        }
    }
}

/// Merging loses no membership: each parcel of the input list has, in
/// the merged list, a parcel of its identity that is a member of every
/// group the original was a member of.
pub proof fn lemma_merge_preserves_memberships(s: Seq<ParcelV>, j: int)
    requires
        0 <= j < s.len(),
    ensures
        exists|k: int|
            {
                &&& 0 <= k < merge_by_identity(s).len()
                &&& identity(#[trigger] merge_by_identity(s)[k]) == identity(s[j])
                &&& memberships_subsumed(s[j], merge_by_identity(s)[k])
            },
    decreases s.len(),
{
    let acc = merge_by_identity(s.drop_last());
    let p = s.last();
    let i = find_identity(acc, identity(p));
    lemma_find_identity_properties(acc, identity(p));
    if j == s.len() - 1 {
        if i < acc.len() {
            lemma_merge_two_subsumes(acc[i], p);
            assert(identity(merge_by_identity(s)[i]) == identity(s[j]));
            assert(memberships_subsumed(s[j], merge_by_identity(s)[i]));
        } else {
            let k = acc.len() as int;
            assert(merge_by_identity(s)[k] == p);
            assert(memberships_subsumed(s[j], merge_by_identity(s)[k]));
        }
    } else {
        assert(s.drop_last()[j] == s[j]);
        lemma_merge_preserves_memberships(s.drop_last(), j);
        let k = choose|k: int|
            {
                &&& 0 <= k < acc.len()
                &&& identity(#[trigger] acc[k]) == identity(s.drop_last()[j])
                &&& memberships_subsumed(s.drop_last()[j], acc[k])
            };
        if i < acc.len() {
            if k == i {
                lemma_merge_two_subsumes(acc[i], p);
                assert(identity(merge_by_identity(s)[k]) == identity(s[j]));
                assert(memberships_subsumed(s[j], merge_by_identity(s)[k]));
            } else {
                assert(merge_by_identity(s)[k] == acc[k]);
                assert(memberships_subsumed(s[j], merge_by_identity(s)[k]));
            }
        } else {
            assert(merge_by_identity(s)[k] == acc[k]);
            assert(memberships_subsumed(s[j], merge_by_identity(s)[k]));
        }
    }
}

proof fn lemma_merge_two_entries(a: ParcelV, b: ParcelV)
    ensures
        member_entries(merge_two(a, b)) == member_entries(a) + member_entries(b),
{
    match (a.conditions, b.conditions) {
        (Some(c1), Some(c2)) => {
            match (c1.member_of, c2.member_of) {
                (Some(_), Some(_)) => {},
                (Some(l1), None) => {
                    assert(member_entries(merge_two(a, b)) =~= l1 + Seq::<Seq<char>>::empty());
                },
                (None, Some(l2)) => {
                    assert(member_entries(merge_two(a, b)) =~= Seq::<Seq<char>>::empty() + l2);
                },
                (None, None) => {
                    assert(member_entries(merge_two(a, b)) =~= Seq::<Seq<char>>::empty()
                        + Seq::<Seq<char>>::empty());
                },
            }
        },
        (Some(c1), None) => {
            assert(member_entries(merge_two(a, b)) =~= member_entries(a) + Seq::<
                Seq<char>,
            >::empty());
        },
        (None, Some(c2)) => {
            assert(member_entries(merge_two(a, b)) =~= Seq::<Seq<char>>::empty()
                + member_entries(b));
        },
        (None, None) => {
            assert(member_entries(merge_two(a, b)) =~= Seq::<Seq<char>>::empty() + Seq::<
                Seq<char>,
            >::empty());
        },
    }
}

/// The concatenation, in encounter order, of the membership lists of
/// every parcel of `s` whose identity is `id`.
pub open spec fn members_with_identity(s: Seq<ParcelV>, id: (Seq<char>, Seq<char>)) -> Seq<
    Seq<char>,
>
    decreases s.len(),
{
    if s.len() == 0 {
        Seq::empty()
    } else {
        members_with_identity(s.drop_last(), id) + (if identity(s.last()) == id {
            member_entries(s.last())
        } else {
            Seq::empty()
        })
    }
}

proof fn lemma_members_with_identity_absent(s: Seq<ParcelV>, id: (Seq<char>, Seq<char>))
    requires
        forall|j: int| 0 <= j < s.len() ==> identity(s[j]) != id,
    ensures
        members_with_identity(s, id) == Seq::<Seq<char>>::empty(),
    decreases s.len(),
{
    if s.len() > 0 {
        lemma_members_with_identity_absent(s.drop_last(), id);
        assert(members_with_identity(s, id) =~= Seq::<Seq<char>>::empty());
    }
}

proof fn lemma_identity_reaches_merge(s: Seq<ParcelV>, j: int)
    requires
        0 <= j < s.len(),
    ensures
        exists|k: int|
            0 <= k < merge_by_identity(s).len() && identity(
                #[trigger] merge_by_identity(s)[k],
            ) == identity(s[j]),
{
    lemma_merge_preserves_memberships(s, j);
}

/// Merging collects memberships exactly: each merged parcel's
/// membership list is the concatenation, in input encounter order, of
/// the membership lists of every input parcel of its identity,
/// duplicates kept.
pub proof fn lemma_merge_collects_memberships(s: Seq<ParcelV>)
    ensures
        forall|k: int|
            0 <= k < merge_by_identity(s).len() ==> member_entries(
                #[trigger] merge_by_identity(s)[k],
            ) == members_with_identity(s, identity(merge_by_identity(s)[k])),
    decreases s.len(),
{
    if s.len() == 0 {
        return ;
    }
    let sd = s.drop_last();
    let p = s.last();
    let acc = merge_by_identity(sd);
    let out = merge_by_identity(s);
    let i = find_identity(acc, identity(p));
    lemma_merge_collects_memberships(sd);
    lemma_merge_distinct(sd);
    lemma_find_identity_properties(acc, identity(p));
    assert forall|k: int| 0 <= k < out.len() implies member_entries(#[trigger] out[k])
        == members_with_identity(s, identity(out[k])) by {
        if i < acc.len() {
            if k == i {
                lemma_merge_two_entries(acc[i], p);
                assert(identity(out[k]) == identity(p));
                assert(members_with_identity(s, identity(p)) =~= members_with_identity(
                    sd,
                    identity(p),
                ) + member_entries(p));
            } else {
                assert(out[k] == acc[k]);
                assert(identity(acc[k]) != identity(p));
                assert(members_with_identity(s, identity(acc[k])) =~= members_with_identity(
                    sd,
                    identity(acc[k]),
                ) + Seq::<Seq<char>>::empty());
            }
        } else {
            if k < acc.len() {
                assert(out[k] == acc[k]);
                assert(identity(acc[k]) != identity(p));
                assert(members_with_identity(s, identity(acc[k])) =~= members_with_identity(
                    sd,
                    identity(acc[k]),
                ) + Seq::<Seq<char>>::empty());
            } else {
                assert(out[k] == p);
                assert forall|j: int| 0 <= j < sd.len() implies identity(sd[j]) != identity(
                    p,
                ) by {
                    if identity(sd[j]) == identity(p) {
                        lemma_identity_reaches_merge(sd, j);
                    }
                }
                lemma_members_with_identity_absent(sd, identity(p));
                assert(members_with_identity(s, identity(p)) =~= Seq::<Seq<char>>::empty()
                    + member_entries(p));
            }
        }
    }
}

/// Two parcels of one identity with memberships merge into a single
/// parcel whose memberships are the ordered concatenation of both and
/// whose requirements are the first parcel's.
pub proof fn lemma_merge_pair(p: ParcelV, q: ParcelV)
    requires
        identity(p) == identity(q),
        p.conditions is Some,
        q.conditions is Some,
        p.conditions->Some_0.member_of is Some,
        q.conditions->Some_0.member_of is Some,
    ensures
        merge_by_identity(seq![p, q]) == seq![
            ParcelV {
                label: p.label,
                conditions: Some(
                    ConditionV {
                        member_of: Some(
                            p.conditions->Some_0.member_of->Some_0
                                + q.conditions->Some_0.member_of->Some_0,
                        ),
                        requirements: p.conditions->Some_0.requirements,
                    },
                ),
            },
        ],
{
    reveal_with_fuel(merge_by_identity, 3);
    let s = seq![p, q];
    assert(s.drop_last() =~= seq![p]);
    assert(s.last() == q);
    assert(seq![p].drop_last() =~= Seq::<ParcelV>::empty());
    assert(seq![p].last() == p);
    assert(merge_step(Seq::<ParcelV>::empty(), p) =~= seq![p]);
    assert(merge_by_identity(seq![p]) =~= seq![p]);
    assert(find_identity(seq![p], identity(q)) == 0);
    assert(merge_by_identity(s) =~= seq![p].update(0, merge_two(p, q)));
    assert(merge_by_identity(s) =~= seq![merge_two(p, q)]);
}

} // verus!
