//! Failures grouped by field: first-seen order for the fields, append order
//! for the messages of each.
use crate::error::errors_view;
use crate::error::ErrorView;
use crate::error::ValidationResult;
use crate::text::same_text;
use vstd::prelude::*;

verus! {

/// What one group says: a field and the messages of its failures, in order.
pub struct GroupView {
    pub property: Seq<char>,
    pub messages: Seq<Seq<char>>,
}

/// The messages of the failures of `property`, in the order of the failures.
pub open spec fn messages_of(errors: Seq<ErrorView>, property: Seq<char>) -> Seq<Seq<char>>
    decreases errors.len(),
{
    if errors.len() == 0 {
        Seq::empty()
    } else if errors.last().property == property {
        messages_of(errors.drop_last(), property).push(errors.last().message)
    } else {
        messages_of(errors.drop_last(), property)
    }
}

/// The fields that have a failure, each once, in the order of their first
/// failure.
pub open spec fn properties_of(errors: Seq<ErrorView>) -> Seq<Seq<char>>
    decreases errors.len(),
{
    if errors.len() == 0 {
        Seq::empty()
    } else if properties_of(errors.drop_last()).contains(errors.last().property) {
        properties_of(errors.drop_last())
    } else {
        properties_of(errors.drop_last()).push(errors.last().property)
    }
}

/// The failures grouped by field: one group for each field of
/// `properties_of`, in that order, with that field's messages.
pub open spec fn grouped(errors: Seq<ErrorView>) -> Seq<GroupView> {
    Seq::new(
        properties_of(errors).len(),
        |i: int|
            GroupView {
                property: properties_of(errors)[i],
                messages: messages_of(errors, properties_of(errors)[i]),
            },
    )
}

/// The failures that one group holds: one for each of its messages, in order.
pub open spec fn group_errors(group: GroupView) -> Seq<ErrorView> {
    Seq::new(
        group.messages.len(),
        |i: int| ErrorView { property: group.property, message: group.messages[i] },
    )
}

/// The failures that the groups hold, group after group.
pub open spec fn flattened(groups: Seq<GroupView>) -> Seq<ErrorView>
    decreases groups.len(),
{
    if groups.len() == 0 {
        Seq::empty()
    } else {
        flattened(groups.drop_last()) + group_errors(groups.last())
    }
}

/// No field occurs twice among the fields of `properties_of`.
pub proof fn lemma_properties_distinct(errors: Seq<ErrorView>)
    ensures
        properties_of(errors).no_duplicates(),
    decreases errors.len(),
{
    if errors.len() > 0 {
        lemma_properties_distinct(errors.drop_last());
    }
}

/// A field is among the fields of `properties_of` exactly when some failure is
/// about it.
pub proof fn lemma_properties_cover(errors: Seq<ErrorView>, property: Seq<char>)
    ensures
        properties_of(errors).contains(property) <==> exists|i: int|
            0 <= i < errors.len() && errors[i].property == property,
    decreases errors.len(),
{
    if errors.len() > 0 {
        let init = errors.drop_last();
        lemma_properties_cover(init, property);
        if properties_of(errors).contains(property) {
            if properties_of(init).contains(property) {
                let i = choose|i: int| 0 <= i < init.len() && init[i].property == property;
                assert(errors[i].property == property);
            } else {
                assert(properties_of(errors) == properties_of(init).push(errors.last().property));
                let k = choose|k: int|
                    0 <= k < properties_of(errors).len() && properties_of(errors)[k] == property;
                if k < properties_of(init).len() {
                    assert(properties_of(init)[k] == property);
                }
                assert(errors[errors.len() - 1].property == property);
            }
        }
        if exists|i: int| 0 <= i < errors.len() && errors[i].property == property {
            let i = choose|i: int| 0 <= i < errors.len() && errors[i].property == property;
            if i < init.len() {
                assert(init[i].property == property);
                let k = choose|k: int|
                    0 <= k < properties_of(init).len() && properties_of(init)[k] == property;
                if !properties_of(init).contains(errors.last().property) {
                    assert(properties_of(errors)[k] == property);
                }
            } else {
                if !properties_of(init).contains(errors.last().property) {
                    assert(properties_of(errors)[properties_of(init).len() as int] == property);
                }
            }
        }
    }
}

/// The texts that a sequence of strings holds.
pub open spec fn texts(strings: Seq<String>) -> Seq<Seq<char>> {
    Seq::new(strings.len(), |i: int| strings[i]@)
}

/// The failures of one field: its name and their messages, in order.
#[derive(Debug)]
pub struct ErrorGroup {
    pub property: String,
    pub messages: Vec<String>,
}

/// A copy of the strings, one for one.
fn copied(strings: &Vec<String>) -> (copy: Vec<String>)
    ensures
        texts(copy@) == texts(strings@),
{
    let mut copy: Vec<String> = Vec::new();
    let mut i: usize = 0;
    while i < strings.len()
        invariant
            i <= strings@.len(),
            copy@.len() == i,
            forall|k: int| 0 <= k < i ==> copy@[k]@ == strings@[k]@,
        decreases strings@.len() - i,
    {
        copy.push(strings[i].clone());
        i = i + 1;
    }
    assert(texts(copy@) =~= texts(strings@));
    copy
}

impl Clone for ErrorGroup {
    fn clone(&self) -> (copy: Self)
        ensures
            copy@ == self@,
    {
        ErrorGroup { property: self.property.clone(), messages: copied(&self.messages) }
    }
}

impl View for ErrorGroup {
    type V = GroupView;

    open spec fn view(&self) -> GroupView {
        GroupView { property: self.property@, messages: texts(self.messages@) }
    }
}

/// The groups that a sequence of groups stands for, in the same order.
pub open spec fn groups_view(groups: Seq<ErrorGroup>) -> Seq<GroupView> {
    Seq::new(groups.len(), |i: int| groups[i]@)
}

/// The index of the group of `property` among `groups`, if there is one.
fn position_of(groups: &Vec<ErrorGroup>, property: &str) -> (at: Option<usize>)
    ensures
        match at {
            Some(j) => j < groups@.len() && groups@[j as int].property@ == property@,
            None => forall|k: int| 0 <= k < groups@.len() ==> groups@[k].property@ != property@,
        },
{
    let mut j: usize = 0;
    while j < groups.len()
        invariant
            j <= groups@.len(),
            forall|k: int| 0 <= k < j ==> groups@[k].property@ != property@,
        decreases groups@.len() - j,
    {
        if same_text(groups[j].property.as_str(), property) {
            return Some(j);
        }
        j = j + 1;
    }
    None
}

/// Grouping one more failure: its message joins the group of its field, or
/// opens a new last group where the field had none.
pub proof fn lemma_grouped_push(errors: Seq<ErrorView>, error: ErrorView)
    ensures
        properties_of(errors.push(error)) == if properties_of(errors).contains(error.property) {
            properties_of(errors)
        } else {
            properties_of(errors).push(error.property)
        },
        forall|p: Seq<char>|
            #[trigger] messages_of(errors.push(error), p) == if p == error.property {
                messages_of(errors, p).push(error.message)
            } else {
                messages_of(errors, p)
            },
{
    assert(errors.push(error).drop_last() =~= errors);
}

/// A field without a failure has no message.
pub proof fn lemma_no_failure_no_message(errors: Seq<ErrorView>, property: Seq<char>)
    requires
        !properties_of(errors).contains(property),
    ensures
        messages_of(errors, property) == Seq::<Seq<char>>::empty(),
    decreases errors.len(),
{
    if errors.len() > 0 {
        let init = errors.drop_last();
        if properties_of(init).contains(property) {
            let k = choose|k: int|
                0 <= k < properties_of(init).len() && properties_of(init)[k] == property;
            if !properties_of(init).contains(errors.last().property) {
                assert(properties_of(errors)[k] == property);
            }
        }
        if errors.last().property == property {
            if !properties_of(init).contains(property) {
                assert(properties_of(errors)[properties_of(init).len() as int] == property);
            }
        }
        lemma_no_failure_no_message(init, property);
    }
}

impl ValidationResult {
    /// The failures grouped by field: the fields in the order of their first
    /// failure, and under each field its messages in the order in which they
    /// were added.
    pub fn errors_by_property(&self) -> (groups: ErrorGroups)
        ensures
            groups@ == grouped(self@),
    {
        let errors = self.errors();
        let mut groups: Vec<ErrorGroup> = Vec::new();
        let mut i: usize = 0;
        assert(errors_view(errors@).take(0) =~= Seq::<ErrorView>::empty());
        assert(groups_view(groups@) =~= grouped(Seq::<ErrorView>::empty()));
        while i < errors.len()
            invariant
                i <= errors@.len(),
                groups_view(groups@) == grouped(errors_view(errors@).take(i as int)),
            decreases errors@.len() - i,
        {
            let ghost seen = errors_view(errors@).take(i as int);
            let ghost next = errors_view(errors@)[i as int];
            proof {
                assert(errors_view(errors@).take(i + 1) =~= seen.push(next));
                lemma_grouped_push(seen, next);
                lemma_properties_distinct(seen);
            }
            let error = &errors[i];
            let message = error.message.clone();
            match position_of(&groups, error.property.as_str()) {
                Some(j) => {
                    let ghost before = groups@;
                    proof {
                        assert(groups_view(before).len() == before.len());
                        assert(grouped(seen).len() == properties_of(seen).len());
                        assert(groups_view(before)[j as int] == before[j as int]@);
                        assert(grouped(seen)[j as int].property == properties_of(seen)[j as int]);
                        assert(properties_of(seen)[j as int] == next.property);
                        assert(properties_of(seen).contains(next.property));
                    }
                    groups[j].messages.push(message);
                    proof {
                        assert(texts(groups@[j as int].messages@) =~= texts(
                            before[j as int].messages@,
                        ).push(next.message));
                        assert(grouped(seen.push(next)).len() == properties_of(seen).len());
                        assert forall|k: int| 0 <= k < groups@.len() implies groups_view(
                            groups@,
                        )[k] == grouped(seen.push(next))[k] by {
                            assert(groups_view(before)[k] == before[k]@);
                            assert(grouped(seen)[k].property == properties_of(seen)[k]);
                            assert(grouped(seen)[k].messages == messages_of(
                                seen,
                                properties_of(seen)[k],
                            ));
                            if k != j {
                                assert(groups@[k] == before[k]);
                                assert(properties_of(seen)[k] != properties_of(seen)[j as int]);
                            }
                        }
                        assert(groups_view(groups@) =~= grouped(seen.push(next)));
                    }
                },
                None => {
                    let ghost before = groups@;
                    proof {
                        assert(groups_view(before).len() == before.len());
                        assert(grouped(seen).len() == properties_of(seen).len());
                        if properties_of(seen).contains(next.property) {
                            let k = choose|k: int|
                                0 <= k < properties_of(seen).len() && properties_of(seen)[k]
                                    == next.property;
                            assert(grouped(seen)[k].property == next.property);
                            assert(groups_view(before)[k] == before[k]@);
                        }
                        lemma_no_failure_no_message(seen, next.property);
                    }
                    let mut messages: Vec<String> = Vec::new();
                    messages.push(message);
                    assert(texts(messages@) =~= Seq::<Seq<char>>::empty().push(next.message));
                    groups.push(ErrorGroup { property: error.property.clone(), messages });
                    proof {
                        assert(grouped(seen.push(next)).len() == properties_of(seen).len() + 1);
                        assert forall|k: int| 0 <= k < groups@.len() implies groups_view(
                            groups@,
                        )[k] == grouped(seen.push(next))[k] by {
                            if k < before.len() {
                                assert(groups_view(before)[k] == before[k]@);
                                assert(grouped(seen)[k].property == properties_of(seen)[k]);
                                assert(groups@[k] == before[k]);
                                assert(properties_of(seen).contains(properties_of(seen)[k]));
                            }
                        }
                        assert(groups_view(groups@) =~= grouped(seen.push(next)));
                    }
                },
            }
            i = i + 1;
        }
        assert(errors_view(errors@).take(i as int) =~= errors_view(errors@));
        ErrorGroups { groups }
    }
}

/// Failures grouped by field, as `errors_by_property` returns them.
#[derive(Debug)]
pub struct ErrorGroups {
    groups: Vec<ErrorGroup>,
}

impl Clone for ErrorGroups {
    fn clone(&self) -> (copy: Self)
        ensures
            copy@ == self@,
    {
        let mut groups: Vec<ErrorGroup> = Vec::new();
        let mut i: usize = 0;
        while i < self.groups.len()
            invariant
                i <= self.groups@.len(),
                groups@.len() == i,
                forall|k: int| 0 <= k < i ==> groups@[k]@ == self.groups@[k]@,
            decreases self.groups@.len() - i,
        {
            groups.push(self.groups[i].clone());
            i = i + 1;
        }
        assert(groups_view(groups@) =~= groups_view(self.groups@));
        ErrorGroups { groups }
    }
}

impl View for ErrorGroups {
    type V = Seq<GroupView>;

    closed spec fn view(&self) -> Seq<GroupView> {
        groups_view(self.groups@)
    }
}

impl ErrorGroups {
    /// The number of fields that have a failure.
    pub fn len(&self) -> (n: usize)
        ensures
            n == self@.len(),
    {
        self.groups.len()
    }

    /// Whether no field has a failure.
    pub fn is_empty(&self) -> (empty: bool)
        ensures
            empty == (self@.len() == 0),
    {
        self.groups.is_empty()
    }

    /// Whether `property` has a failure.
    pub fn contains_key(&self, property: &str) -> (found: bool)
        ensures
            found == exists|i: int| 0 <= i < self@.len() && self@[i].property == property@,
    {
        match position_of(&self.groups, property) {
            Some(j) => {
                assert(self@[j as int].property == property@);
                true
            },
            None => {
                assert forall|i: int| 0 <= i < self@.len() implies self@[i].property
                    != property@ by {
                    assert(self@[i] == self.groups@[i]@);
                }
                false
            },
        }
    }

    /// The messages of the failures of `property`, in order, if it has any.
    pub fn get(&self, property: &str) -> (messages: Option<&Vec<String>>)
        ensures
            match messages {
                Some(m) => exists|i: int|
                    0 <= i < self@.len() && self@[i].property == property@ && self@[i].messages
                        == texts(m@),
                None => forall|i: int| 0 <= i < self@.len() ==> self@[i].property != property@,
            },
    {
        match position_of(&self.groups, property) {
            Some(j) => {
                assert(self@[j as int] == self.groups@[j as int]@);
                Some(&self.groups[j].messages)
            },
            None => {
                assert forall|i: int| 0 <= i < self@.len() implies self@[i].property
                    != property@ by {
                    assert(self@[i] == self.groups@[i]@);
                }
                None
            },
        }
    }

    /// The groups, in the order of each field's first failure.
    pub fn groups(&self) -> (groups: &[ErrorGroup])
        ensures
            groups_view(groups@) == self@,
    {
        self.groups.as_slice()
    }
}

} // verus!
