//! Laws of the result model, stated over the views that the contracts use.
use crate::attach::accessed;
use crate::attach::AttachedRule;
use crate::attach::cross_holds;
use crate::attach::CrossFieldRule;
use crate::attach::NoRules;
use crate::attach::RuleList;
use crate::check::Check;
use crate::check::CheckList;
use crate::check::Checks;
use crate::check::failures;
use crate::check::NoChecks;
use crate::error::errors_view;
use crate::error::ErrorView;
use crate::error::first_message;
use crate::error::ValidationError;
use crate::groups::flattened;
use crate::groups::group_errors;
use crate::groups::grouped;
use crate::groups::GroupView;
use crate::groups::lemma_no_failure_no_message;
use crate::groups::lemma_properties_cover;
use crate::groups::lemma_properties_distinct;
use crate::groups::messages_of;
use crate::groups::properties_of;
use crate::rule::FieldRule;
use vstd::prelude::*;
use vstd::seq_lib::to_multiset_build;

verus! {

/// Looking up the first failure of a field finds nothing exactly when no
/// failure is about that field, and otherwise finds the message of the
/// earliest one.
pub proof fn law_first_error_is_earliest(errors: Seq<ErrorView>, property: Seq<char>)
    ensures
        first_message(errors, property) is None <==> forall|i: int|
            0 <= i < errors.len() ==> errors[i].property != property,
        first_message(errors, property) matches Some(m) ==> exists|i: int|
            0 <= i < errors.len() && errors[i].property == property && errors[i].message == m
                && forall|k: int| 0 <= k < i ==> errors[k].property != property,
    decreases errors.len(),
{
    if errors.len() > 0 {
        let rest = errors.drop_first();
        law_first_error_is_earliest(rest, property);
        if errors[0].property == property {
            assert(errors[0].message == first_message(errors, property)->0);
        } else {
            assert forall|i: int| 0 <= i < rest.len() implies rest[i] == errors[i + 1] by {}
            if first_message(rest, property) is None {
                assert forall|i: int| 0 <= i < errors.len() implies errors[i].property
                    != property by {
                    if i > 0 {
                        assert(rest[i - 1].property != property);
                    }
                }
            } else {
                let m = first_message(rest, property)->0;
                let j = choose|j: int|
                    0 <= j < rest.len() && rest[j].property == property && rest[j].message == m
                        && forall|k: int| 0 <= k < j ==> rest[k].property != property;
                assert(errors[j + 1].property == property && errors[j + 1].message == m);
                assert forall|k: int| 0 <= k < j + 1 implies errors[k].property != property by {
                    if k > 0 {
                        assert(rest[k - 1].property != property);
                    }
                }
            }
        }
    }
}

/// The messages of a field among two runs of failures, one after the other,
/// are its messages in the first followed by its messages in the second.
pub proof fn lemma_messages_of_add(a: Seq<ErrorView>, b: Seq<ErrorView>, property: Seq<char>)
    ensures
        messages_of(a + b, property) == messages_of(a, property) + messages_of(b, property),
    decreases b.len(),
{
    if b.len() == 0 {
        assert(a + b =~= a);
        assert(messages_of(a, property) + messages_of(b, property) =~= messages_of(a, property));
    } else {
        assert((a + b).drop_last() =~= a + b.drop_last());
        assert((a + b).last() == b.last());
        lemma_messages_of_add(a, b.drop_last(), property);
        if b.last().property == property {
            assert(messages_of(a, property) + messages_of(b.drop_last(), property).push(
                b.last().message,
            ) =~= (messages_of(a, property) + messages_of(b.drop_last(), property)).push(
                b.last().message,
            ));
        }
    }
}

/// A group written out holds the group's messages under the group's field and
/// nothing under any other field.
pub proof fn lemma_messages_of_group(group: GroupView, property: Seq<char>)
    ensures
        messages_of(group_errors(group), property) == if property == group.property {
            group.messages
        } else {
            Seq::empty()
        },
    decreases group.messages.len(),
{
    let errors = group_errors(group);
    if group.messages.len() > 0 {
        let shorter = GroupView { property: group.property, messages: group.messages.drop_last() };
        assert(errors.drop_last() =~= group_errors(shorter));
        lemma_messages_of_group(shorter, property);
        if property == group.property {
            assert(group.messages.drop_last().push(group.messages.last()) =~= group.messages);
        }
    } else {
        assert(group.messages =~= Seq::empty());
    }
}

/// Among groups of distinct fields written out one after the other, the
/// messages of a field are those of its group, and there is none where no
/// group is about it.
pub proof fn lemma_messages_of_flattened(groups: Seq<GroupView>, property: Seq<char>)
    requires
        forall|i: int, j: int|
            0 <= i < j < groups.len() ==> groups[i].property != groups[j].property,
    ensures
        forall|k: int|
            0 <= k < groups.len() && groups[k].property == property ==> messages_of(
                flattened(groups),
                property,
            ) == groups[k].messages,
        (forall|k: int| 0 <= k < groups.len() ==> groups[k].property != property) ==> messages_of(
            flattened(groups),
            property,
        ) == Seq::<Seq<char>>::empty(),
    decreases groups.len(),
{
    if groups.len() > 0 {
        let init = groups.drop_last();
        let last = groups.last();
        lemma_messages_of_flattened(init, property);
        lemma_messages_of_add(flattened(init), group_errors(last), property);
        lemma_messages_of_group(last, property);
        if last.property == property {
            assert forall|k: int| 0 <= k < init.len() implies init[k].property != property by {
                assert(init[k] == groups[k]);
            }
            assert(Seq::<Seq<char>>::empty() + last.messages =~= last.messages);
        } else {
            assert forall|k: int|
                0 <= k < groups.len() && groups[k].property == property implies messages_of(
                flattened(groups),
                property,
            ) == groups[k].messages by {
                assert(init[k] == groups[k]);
                assert(groups[k].messages + Seq::<Seq<char>>::empty() =~= groups[k].messages);
            }
            if forall|k: int| 0 <= k < groups.len() ==> groups[k].property != property {
                assert forall|k: int| 0 <= k < init.len() implies init[k].property
                    != property by {
                    assert(init[k] == groups[k]);
                }
                assert(Seq::<Seq<char>>::empty() + Seq::<Seq<char>>::empty() =~= Seq::<
                    Seq<char>,
                >::empty());
            }
        }
    }
}

/// Grouping loses and reorders nothing within a field: written out again,
/// group after group, the groups hold under every field the same messages, in
/// the same order, as the failures that were grouped.
pub proof fn law_grouping_keeps_each_field(errors: Seq<ErrorView>, property: Seq<char>)
    ensures
        messages_of(flattened(grouped(errors)), property) == messages_of(errors, property),
{
    let groups = grouped(errors);
    lemma_properties_distinct(errors);
    assert forall|i: int, j: int| 0 <= i < j < groups.len() implies groups[i].property
        != groups[j].property by {
        assert(groups[i].property == properties_of(errors)[i]);
        assert(groups[j].property == properties_of(errors)[j]);
    }
    lemma_messages_of_flattened(groups, property);
    if properties_of(errors).contains(property) {
        let k = choose|k: int|
            0 <= k < properties_of(errors).len() && properties_of(errors)[k] == property;
        assert(groups[k].property == property);
        assert(groups[k].messages == messages_of(errors, property));
    } else {
        assert forall|k: int| 0 <= k < groups.len() implies groups[k].property != property by {
            assert(groups[k].property == properties_of(errors)[k]);
        }
        lemma_no_failure_no_message(errors, property);
    }
}

/// A failure occurs among failures as often as its message occurs among the
/// messages of its field.
pub proof fn lemma_count_by_field(errors: Seq<ErrorView>, error: ErrorView)
    ensures
        errors.to_multiset().count(error) == messages_of(
            errors,
            error.property,
        ).to_multiset().count(error.message),
    decreases errors.len(),
{
    if errors.len() == 0 {
        assert(errors =~= Seq::<ErrorView>::empty());
        assert(errors.to_multiset().count(error) == 0) by {
            errors.to_multiset_ensures();
        }
        assert(Seq::<Seq<char>>::empty().to_multiset().count(error.message) == 0) by {
            Seq::<Seq<char>>::empty().to_multiset_ensures();
        }
    } else {
        let init = errors.drop_last();
        let last = errors.last();
        assert(errors =~= init.push(last));
        lemma_count_by_field(init, error);
        to_multiset_build(init, last);
        if last.property == error.property {
            to_multiset_build(messages_of(init, error.property), last.message);
        }
    }
}

/// Grouping keeps the content: written out again, the groups hold the same
/// failures, each as often, as the failures that were grouped.
pub proof fn law_grouping_keeps_content(errors: Seq<ErrorView>)
    ensures
        flattened(grouped(errors)).to_multiset() == errors.to_multiset(),
        flattened(grouped(errors)).len() == errors.len(),
{
    let flat = flattened(grouped(errors));
    assert forall|error: ErrorView| flat.to_multiset().count(error) == errors.to_multiset().count(
        error,
    ) by {
        lemma_count_by_field(flat, error);
        lemma_count_by_field(errors, error);
        law_grouping_keeps_each_field(errors, error.property);
    }
    assert(flat.to_multiset() =~= errors.to_multiset());
    flat.to_multiset_ensures();
    errors.to_multiset_ensures();
}

/// Whether the failure at `at` is the earliest one of `property`.
pub open spec fn is_first_failure(errors: Seq<ErrorView>, property: Seq<char>, at: int) -> bool {
    &&& 0 <= at < errors.len()
    &&& errors[at].property == property
    &&& forall|k: int| 0 <= k < at ==> errors[k].property != property
}

/// The groups stand in first-seen order: of two groups, the one that comes
/// first is about the field whose earliest failure comes first.
pub proof fn law_groups_in_first_seen_order(
    errors: Seq<ErrorView>,
    a: int,
    b: int,
    first_a: int,
    first_b: int,
)
    requires
        0 <= a < b < grouped(errors).len(),
        is_first_failure(errors, grouped(errors)[a].property, first_a),
        is_first_failure(errors, grouped(errors)[b].property, first_b),
    ensures
        first_a < first_b,
    decreases errors.len(),
{
    let fields = properties_of(errors);
    assert(grouped(errors)[a].property == fields[a]);
    assert(grouped(errors)[b].property == fields[b]);
    let init = errors.drop_last();
    let earlier = properties_of(init);
    lemma_properties_distinct(errors);
    assert(earlier.len() == grouped(init).len());
    assert(earlier[a] == fields[a]);
    lemma_properties_cover(init, fields[a]);
    assert(earlier.contains(fields[a]));
    let seen_a = choose|i: int| 0 <= i < init.len() && init[i].property == fields[a];
    assert(errors[seen_a].property == fields[a]);
    assert(first_a < init.len());
    if b < earlier.len() {
        assert(earlier[b] == fields[b]);
        lemma_properties_cover(init, fields[b]);
        assert(earlier.contains(fields[b]));
        let seen_b = choose|i: int| 0 <= i < init.len() && init[i].property == fields[b];
        assert(errors[seen_b].property == fields[b]);
        assert(first_b < init.len());
        assert(grouped(init)[a].property == earlier[a]);
        assert(grouped(init)[b].property == earlier[b]);
        law_groups_in_first_seen_order(init, a, b, first_a, first_b);
    } else {
        assert(fields[b] == errors.last().property);
        assert(!earlier.contains(fields[b]));
        lemma_properties_cover(init, fields[b]);
        if first_b < init.len() {
            assert(init[first_b].property == fields[b]);
        }
    }
}

/// A rule without checks reports nothing, whatever the field and the value.
pub proof fn law_no_checks_no_errors<V>(property: Seq<char>, value: &V)
    ensures
        failures(property, NoChecks.verdicts(value)) == Seq::<ErrorView>::empty(),
{
}

/// A validator without rules reports nothing, whatever the record.
pub proof fn law_no_rules_no_errors<T>(instance: &T)
    ensures
        NoRules.errors(instance) == Seq::<ErrorView>::empty(),
{
}

/// A compiled field rule is a function of the value: two runs on the same
/// value report the same errors.
pub proof fn law_field_rule_is_deterministic<V, L: CheckList<V>>(
    rule: &FieldRule<V, L>,
    value: &V,
    first: Vec<ValidationError>,
    second: Vec<ValidationError>,
)
    requires
        call_ensures(FieldRule::<V, L>::apply, (rule, value), first),
        call_ensures(FieldRule::<V, L>::apply, (rule, value), second),
    ensures
        errors_view(first@) == errors_view(second@),
{
}

/// The failures of checks run one after the other are the failures of the
/// first run followed by those of the second.
pub proof fn lemma_failures_add(
    property: Seq<char>,
    a: Seq<Option<Seq<char>>>,
    b: Seq<Option<Seq<char>>>,
)
    ensures
        failures(property, a + b) == failures(property, a) + failures(property, b),
    decreases b.len(),
{
    if b.len() == 0 {
        assert(a + b =~= a);
        assert(failures(property, a) + failures(property, b) =~= failures(property, a));
    } else {
        assert((a + b).drop_last() =~= a + b.drop_last());
        assert((a + b).last() == b.last());
        lemma_failures_add(property, a, b.drop_last());
        match b.last() {
            Some(message) => {
                let error = ErrorView { property, message };
                assert(failures(property, a) + failures(property, b.drop_last()).push(error)
                    =~= (failures(property, a) + failures(property, b.drop_last())).push(error));
            },
            None => {},
        }
    }
}

/// The error of a failing check stands in the rule's errors after the errors
/// of the checks attached before it: at the position that counts the failures
/// among those.
pub proof fn lemma_failure_position(
    property: Seq<char>,
    verdicts: Seq<Option<Seq<char>>>,
    i: int,
)
    requires
        0 <= i < verdicts.len(),
        verdicts[i] is Some,
    ensures
        failures(property, verdicts.take(i)).len() < failures(property, verdicts).len(),
        failures(property, verdicts)[failures(property, verdicts.take(i)).len() as int] == (
        ErrorView { property, message: verdicts[i]->0 }),
        failures(property, verdicts.take(i + 1)).len() == failures(
            property,
            verdicts.take(i),
        ).len() + 1,
        failures(property, verdicts.take(i + 1)).len() <= failures(property, verdicts).len(),
{
    let upto = verdicts.take(i + 1);
    assert(upto.drop_last() =~= verdicts.take(i));
    assert(upto.last() == verdicts[i]);
    assert(verdicts =~= upto + verdicts.skip(i + 1));
    lemma_failures_add(property, upto, verdicts.skip(i + 1));
}

/// Attachment order is kept: of two failing checks, the error of the one
/// attached first stands before the error of the other.
pub proof fn law_errors_in_attachment_order(
    property: Seq<char>,
    verdicts: Seq<Option<Seq<char>>>,
    i: int,
    j: int,
)
    requires
        0 <= i < j < verdicts.len(),
        verdicts[i] is Some,
        verdicts[j] is Some,
    ensures
        ({
            let errors = failures(property, verdicts);
            let at_i = failures(property, verdicts.take(i)).len() as int;
            let at_j = failures(property, verdicts.take(j)).len() as int;
            &&& 0 <= at_i < at_j < errors.len()
            &&& errors[at_i] == (ErrorView { property, message: verdicts[i]->0 })
            &&& errors[at_j] == (ErrorView { property, message: verdicts[j]->0 })
        }),
{
    lemma_failure_position(property, verdicts, i);
    lemma_failure_position(property, verdicts, j);
    let upto = verdicts.take(j);
    assert(upto.take(i + 1) =~= verdicts.take(i + 1));
    assert(upto =~= upto.take(i + 1) + upto.skip(i + 1));
    lemma_failures_add(property, upto.take(i + 1), upto.skip(i + 1));
}

/// Of two checks attached one after the other that both fail on a value, the
/// rule reports the error of the first directly before the error of the
/// second, after the errors of the checks attached earlier.
pub proof fn law_chain_of_two<V, L: CheckList<V>, A: Check<V>, B: Check<V>>(
    checks: Checks<Checks<L, A>, B>,
    property: Seq<char>,
    value: &V,
)
    requires
        checks.earlier.last.verdict(value) is Some,
        checks.last.verdict(value) is Some,
    ensures
        failures(property, checks.verdicts(value)) == failures(
            property,
            checks.earlier.earlier.verdicts(value),
        ).push(ErrorView { property, message: checks.earlier.last.verdict(value)->0 }).push(
            ErrorView { property, message: checks.last.verdict(value)->0 },
        ),
{
    let all = checks.verdicts(value);
    let init = checks.earlier.verdicts(value);
    assert(all.drop_last() =~= init);
    assert(all.last() == checks.last.verdict(value));
    assert(init.drop_last() =~= checks.earlier.earlier.verdicts(value));
    assert(init.last() == checks.earlier.last.verdict(value));
    assert(failures(property, init) == failures(property, init.drop_last()).push(
        ErrorView { property, message: init.last()->0 },
    ));
}

/// A cross-field check reads a record through its accessor and its predicate
/// alone: of two records that differ only in what neither reads, so that the
/// accessor hands out equal fields and the predicate answers alike, the check
/// reports the same.
pub proof fn law_cross_field_reads_what_it_references<
    T,
    V,
    A: Fn(&T) -> &V,
    P: Fn(&T, &V) -> bool,
>(rule: CrossFieldRule<T, V, A, P>, first: &T, second: &T)
    requires
        accessed(rule.accessor(), first) == accessed(rule.accessor(), second),
        cross_holds(rule.predicate(), first, accessed(rule.accessor(), first)) == cross_holds(
            rule.predicate(),
            second,
            accessed(rule.accessor(), first),
        ),
    ensures
        rule.errors(first) == rule.errors(second),
{
}

} // verus!
