//! The validator builder: field rules and cross-field checks, composed into
//! one validator of whole records.
use crate::attach::accessed;
use crate::attach::accessor_answers;
use crate::attach::cross_answers;
use crate::attach::cross_errors;
use crate::attach::cross_holds;
use crate::attach::CrossFieldRule;
use crate::attach::FieldRules;
use crate::attach::is_accessor;
use crate::attach::is_cross_predicate;
use crate::attach::NoRules;
use crate::attach::RuleList;
use crate::attach::Rules;
use crate::check::CheckList;
use crate::error::ErrorView;
use crate::error::ValidationResult;
use crate::rule::RuleBuilder;
use crate::text::StringLike;
use crate::traits::validates;
use crate::traits::Validator;
use core::marker::PhantomData;
use vstd::prelude::*;

verus! {

/// The rules attached to a record type `T`, in the order in which they were
/// attached.
pub struct ValidatorBuilder<T, R = NoRules> {
    rules: R,
    instance: PhantomData<T>,
}

impl<T> ValidatorBuilder<T, NoRules> {
    /// A builder without rules.
    pub fn new() -> (builder: Self)
        ensures
            builder.rules() == NoRules,
            forall|instance: &T| #[trigger] builder.errors_for(instance) == Seq::<ErrorView>::empty(),
            forall|instance: &T| #[trigger] builder.answers(instance),
    {
        ValidatorBuilder { rules: NoRules, instance: PhantomData }
    }
}

impl<T> Default for ValidatorBuilder<T, NoRules> {
    fn default() -> (builder: Self)
        ensures
            builder.rules() == NoRules,
            forall|instance: &T| #[trigger] builder.errors_for(instance) == Seq::<ErrorView>::empty(),
            forall|instance: &T| #[trigger] builder.answers(instance),
    {
        ValidatorBuilder::new()
    }
}

impl<T, R: RuleList<T>> ValidatorBuilder<T, R> {
    /// The rules attached so far.
    pub closed spec fn rules(&self) -> R {
        self.rules
    }

    /// The errors that the compiled validator reports of `instance`.
    pub open spec fn errors_for(&self, instance: &T) -> Seq<ErrorView> {
        self.rules().errors(instance)
    }

    /// Whether the closures that the rules call have an answer on `instance`.
    pub open spec fn answers(&self, instance: &T) -> bool {
        self.rules().answers(instance)
    }

    /// Compiles `builder` and attaches the field rule to the field that
    /// `accessor` hands out. The errors carry the name that `builder` was made
    /// with: the name given here tags nothing.
    pub fn rule_for<N: StringLike, V, A: Fn(&T) -> &V, L: CheckList<V>>(
        self,
        _property_name: N,
        accessor: A,
        builder: RuleBuilder<V, L>,
    ) -> (next: ValidatorBuilder<T, Rules<R, FieldRules<T, V, A, L>>>)
        requires
            is_accessor(accessor),
        ensures
            next.rules().earlier == self.rules(),
            forall|instance: &T| #[trigger]
                next.errors_for(instance) == self.errors_for(instance) + builder.errors_for(
                    accessed(accessor, instance),
                ),
            forall|instance: &T| #[trigger]
                next.answers(instance) == (self.answers(instance) && accessor_answers(
                    accessor,
                    instance,
                ) && builder.answers(accessed(accessor, instance))),
    {
        let attached = FieldRules::new(accessor, builder.compile());
        ValidatorBuilder {
            rules: Rules { earlier: self.rules, last: attached },
            instance: PhantomData,
        }
    }

    /// Attaches a cross-field check: `predicate` reads the whole record and
    /// the field that `accessor` hands out of it, and where it does not hold
    /// the validator reports one error of `property_name` with `message`.
    pub fn must<N: StringLike, V, A: Fn(&T) -> &V, P: Fn(&T, &V) -> bool, M: StringLike>(
        self,
        property_name: N,
        accessor: A,
        predicate: P,
        message: M,
    ) -> (next: ValidatorBuilder<T, Rules<R, CrossFieldRule<T, V, A, P>>>)
        requires
            is_accessor(accessor),
            is_cross_predicate(predicate),
        ensures
            next.rules().earlier == self.rules(),
            forall|instance: &T| #[trigger]
                next.errors_for(instance) == self.errors_for(instance) + cross_errors(
                    cross_holds(predicate, instance, accessed(accessor, instance)),
                    property_name.text(),
                    message.text(),
                ),
            forall|instance: &T| #[trigger]
                next.answers(instance) == (self.answers(instance) && accessor_answers(
                    accessor,
                    instance,
                ) && cross_answers(predicate, instance, accessed(accessor, instance))),
    {
        let attached = CrossFieldRule::new(
            String::from_str(property_name.as_text()),
            accessor,
            predicate,
            String::from_str(message.as_text()),
        );
        ValidatorBuilder {
            rules: Rules { earlier: self.rules, last: attached },
            instance: PhantomData,
        }
    }

    /// Compiles the rules into a validator: it runs every rule, in attachment
    /// order and without stopping at a failure, and what it reports depends
    /// on the record alone.
    pub fn build(self) -> (validator: impl Validator<T>)
        ensures
            forall|instance: &T, result: ValidationResult|
                validates(&validator, instance, result) ==> result@ == self.errors_for(instance)
                    && self.answers(instance),
            forall|instance: &T, first: ValidationResult, second: ValidationResult|
                validates(&validator, instance, first) && validates(&validator, instance, second)
                    ==> first@ == second@,
    {
        ValidatorImpl { rules: self.rules, instance: PhantomData }
    }
}

/// The rules of a builder, compiled into a validator.
pub struct ValidatorImpl<T, R> {
    rules: R,
    instance: PhantomData<T>,
}

impl<T, R: RuleList<T>> ValidatorImpl<T, R> {
    /// The rules that the validator runs.
    pub closed spec fn rules(&self) -> R {
        self.rules
    }
}

impl<T, R: RuleList<T>> Validator<T> for ValidatorImpl<T, R> {
    fn validate(&self, instance: &T) -> (result: ValidationResult)
        ensures
            result@ == self.rules().errors(instance),
            self.rules().answers(instance),
    {
        let mut result = ValidationResult::new();
        self.rules.collect(instance, &mut result);
        assert(Seq::<ErrorView>::empty() + self.rules.errors(instance) =~= self.rules.errors(
            instance,
        ));
        result
    }
}

/// Validates `instance` with `validator`: the result is what the validator
/// reports of the instance.
pub fn validate<T, W: Validator<T> + ?Sized>(instance: &T, validator: &W) -> (result:
    ValidationResult)
    ensures
        validates(validator, instance, result),
{
    validator.validate(instance)
}

} // verus!
